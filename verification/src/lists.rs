//! Loops over vectors that std writes as adaptors.
use vstd::prelude::*;

verus! {

/// The items that `keep` accepts, in their order.
pub(crate) fn kept<T>(
    items: Vec<T>,
    keep: impl Fn(&T) -> bool,
    Ghost(accepts): Ghost<spec_fn(T) -> bool>,
) -> (r: Vec<T>)
    requires
        forall|t: &T| call_requires(keep, (t,)),
        forall|t: &T, b: bool| call_ensures(keep, (t,), b) ==> b == accepts(*t),
    ensures
        r@ == items@.filter(accepts),
{
    let mut r: Vec<T> = Vec::new();
    let ghost all = items@;
    assert(all.take(0).filter(accepts) =~= Seq::<T>::empty()) by {
        reveal(Seq::filter);
    }
    for item in it: items
        invariant
            it.seq() == all,
            r@ == all.take(it.index() as int).filter(accepts),
            forall|t: &T| call_requires(keep, (t,)),
            forall|t: &T, b: bool| call_ensures(keep, (t,), b) ==> b == accepts(*t),
    {
        proof {
            reveal(Seq::filter);
            assert(all.take(it.index() + 1).drop_last() =~= all.take(it.index() as int));
        }
        if keep(&item) {
            r.push(item);
        }
    }
    assert(all.take(all.len() as int) =~= all);
    r
}

/// Takes a vector out of its place and leaves an empty one.
pub(crate) fn taken<T>(place: &mut Vec<T>) -> (r: Vec<T>)
    ensures
        r@ == old(place)@,
        final(place)@ == Seq::<T>::empty(),
{
    let mut r: Vec<T> = Vec::new();
    std::mem::swap(&mut r, place);
    r
}

/// Keeps only the items that `keep` accepts.
pub(crate) fn retain<T>(
    place: &mut Vec<T>,
    keep: impl Fn(&T) -> bool,
    Ghost(accepts): Ghost<spec_fn(T) -> bool>,
)
    requires
        forall|t: &T| call_requires(keep, (t,)),
        forall|t: &T, b: bool| call_ensures(keep, (t,), b) ==> b == accepts(*t),
    ensures
        final(place)@ == old(place)@.filter(accepts),
{
    let items = taken(place);
    *place = kept(items, keep, Ghost(accepts));
}

} // verus!
