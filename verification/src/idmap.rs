//! A map from string identifiers to values, kept in the order of its keys.
use crate::text;
use crate::text::{standing, Standing};
use vstd::prelude::*;

verus! {

/// Texts in strictly ascending order.
pub open spec fn ascending(s: Seq<Seq<char>>) -> bool {
    forall|i: int, j: int|
        0 <= i < j < s.len() ==> #[trigger] text::text_less(#[trigger] s[i], #[trigger] s[j])
}

/// `s` lists exactly the members of `dom`, in ascending order.
pub open spec fn lists(s: Seq<Seq<char>>, dom: Set<Seq<char>>) -> bool {
    &&& ascending(s)
    &&& forall|k: Seq<char>| #[trigger] s.contains(k) <==> dom.contains(k)
}

/// The members of a set of identifiers in ascending order.
pub open spec fn id_order(dom: Set<Seq<char>>) -> Seq<Seq<char>> {
    choose|s: Seq<Seq<char>>| lists(s, dom)
}

/// A set of identifiers has only one ascending listing.
pub proof fn listing_is_unique(s: Seq<Seq<char>>, t: Seq<Seq<char>>, dom: Set<Seq<char>>)
    requires
        lists(s, dom),
        lists(t, dom),
    ensures
        s == t,
    decreases s.len(),
{
    if s.len() == 0 {
        if t.len() > 0 {
            assert(t.contains(t[0]));
            assert(s.contains(t[0]));
        }
        assert(s =~= t);
    } else {
        assert(s.contains(s[0]));
        assert(t.contains(s[0]));
        let m = s.last();
        let n = t.last();
        assert(s.contains(m));
        assert(t.contains(m));
        assert(t.contains(n));
        assert(s.contains(n));
        let i = s.index_of(n);
        let j = t.index_of(m);
        if m != n {
            assert(text::text_less(s[i], s[s.len() - 1]));
            assert(text::text_less(t[j], t[t.len() - 1]));
            text::text_less_transitive(m, n, m);
            text::text_less_irreflexive(m);
        }
        let rest = dom.remove(m);
        assert forall|k: Seq<char>| #[trigger] s.drop_last().contains(k) <==> rest.contains(k) by {
            text::text_less_irreflexive(m);
            if s.drop_last().contains(k) {
                let a = s.drop_last().index_of(k);
                assert(s[a] == k);
                assert(s.contains(k));
                assert(text::text_less(s[a], s[s.len() - 1]));
            }
            if rest.contains(k) {
                assert(s.contains(k));
                let a = s.index_of(k);
                assert(s.drop_last()[a] == k);
            }
        }
        assert forall|k: Seq<char>| #[trigger] t.drop_last().contains(k) <==> rest.contains(k) by {
            text::text_less_irreflexive(m);
            if t.drop_last().contains(k) {
                let a = t.drop_last().index_of(k);
                assert(t[a] == k);
                assert(t.contains(k));
                assert(text::text_less(t[a], t[t.len() - 1]));
            }
            if rest.contains(k) {
                assert(t.contains(k));
                let a = t.index_of(k);
                assert(t.drop_last()[a] == k);
            }
        }
        listing_is_unique(s.drop_last(), t.drop_last(), rest);
        assert(s =~= s.drop_last().push(m));
        assert(t =~= t.drop_last().push(n));
    }
}

/// A listing with one more identifier in its place.
spec fn placed(s: Seq<Seq<char>>, a: Seq<char>) -> Seq<Seq<char>>
    decreases s.len(),
{
    if s.len() == 0 || text::text_less(s.last(), a) {
        s.push(a)
    } else {
        placed(s.drop_last(), a).push(s.last())
    }
}

proof fn placing_keeps_ascending(s: Seq<Seq<char>>, a: Seq<char>)
    requires
        ascending(s),
        !s.contains(a),
    ensures
        ascending(placed(s, a)),
        forall|k: Seq<char>| #[trigger] placed(s, a).contains(k) <==> s.contains(k) || k == a,
    decreases s.len(),
{
    let t = placed(s, a);
    if s.len() == 0 || text::text_less(s.last(), a) {
        assert forall|i: int, j: int| 0 <= i < j < t.len() implies #[trigger] text::text_less(
            #[trigger] t[i],
            #[trigger] t[j],
        ) by {
            if j == s.len() && i < s.len() - 1 {
                text::text_less_transitive(s[i], s.last(), a);
            }
        }
        assert forall|k: Seq<char>| #[trigger] t.contains(k) <==> s.contains(k) || k == a by {
            if s.contains(k) {
                let i = s.index_of(k);
                assert(t[i] == k);
            }
            assert(t[s.len() as int] == a);
        }
    } else {
        let rest = s.drop_last();
        if rest.contains(a) {
            let i = rest.index_of(a);
            assert(s[i] == a);
        }
        placing_keeps_ascending(rest, a);
        let u = placed(rest, a);
        text::text_less_total(s.last(), a);
        assert(s.contains(s.last()));
        assert forall|i: int, j: int| 0 <= i < j < t.len() implies #[trigger] text::text_less(
            #[trigger] t[i],
            #[trigger] t[j],
        ) by {
            if j == u.len() {
                assert(u.contains(u[i]));
                if u[i] != a {
                    let x = rest.index_of(u[i]);
                    assert(s[x] == u[i]);
                    assert(text::text_less(s[x], s[s.len() - 1]));
                }
            } else {
                assert(text::text_less(u[i], u[j]));
            }
        }
        assert forall|k: Seq<char>| #[trigger] t.contains(k) <==> s.contains(k) || k == a by {
            if t.contains(k) {
                let i = t.index_of(k);
                if i < u.len() {
                    assert(u[i] == k);
                    assert(u.contains(k));
                    if k != a {
                        let x = rest.index_of(k);
                        assert(s[x] == k);
                    }
                }
            }
            if s.contains(k) || k == a {
                if k == s.last() {
                    assert(t[u.len() as int] == k);
                } else {
                    if k != a {
                        let x = s.index_of(k);
                        assert(rest[x] == k);
                    }
                    assert(u.contains(k));
                    let i = u.index_of(k);
                    assert(t[i] == k);
                }
            }
        }
    }
}

/// Every finite set of identifiers has its ascending listing.
pub proof fn finite_ids_can_be_listed(dom: Set<Seq<char>>)
    requires
        dom.finite(),
    ensures
        lists(id_order(dom), dom),
    decreases dom.len(),
{
    if dom.len() == 0 {
        assert(dom =~= Set::empty());
        assert(lists(Seq::empty(), dom));
    } else {
        let a = dom.choose();
        let rest = dom.remove(a);
        finite_ids_can_be_listed(rest);
        let s = id_order(rest);
        placing_keeps_ascending(s, a);
        assert forall|k: Seq<char>| #[trigger] placed(s, a).contains(k) <==> dom.contains(k) by {
            assert(s.contains(k) <==> rest.contains(k));
        }
        assert(lists(placed(s, a), dom));
    }
}

/// No identifier occurs twice in an ascending listing.
pub proof fn ascending_has_no_duplicates(s: Seq<Seq<char>>)
    requires
        ascending(s),
    ensures
        s.no_duplicates(),
{
    assert forall|i: int, j: int| 0 <= i < s.len() && 0 <= j < s.len() && i != j implies s[i]
        != s[j] by {
        text::text_less_irreflexive(s[i]);
        if i < j {
            assert(text::text_less(s[i], s[j]));
        } else {
            assert(text::text_less(s[j], s[i]));
        }
    }
}

/// A map from identifiers to values. Iteration follows the order of the keys.
#[derive(Clone, Debug)]
pub struct IdMap<V> {
    entries: Vec<(String, V)>,
}

impl<V> View for IdMap<V> {
    type V = Map<Seq<char>, V>;

    closed spec fn view(&self) -> Map<Seq<char>, V> {
        Map::new(
            |k: Seq<char>| self.keys().contains(k),
            |k: Seq<char>| self.entries@[self.keys().index_of(k)].1,
        )
    }
}

impl<V> IdMap<V> {
    closed spec fn keys(&self) -> Seq<Seq<char>> {
        Seq::new(self.entries@.len(), |i: int| self.entries@[i].0@)
    }

    /// The keys ascend strictly, so every key occurs once.
    pub closed spec fn wf(&self) -> bool {
        ascending(self.keys())
    }

    /// The keys in iteration order.
    pub open spec fn order(&self) -> Seq<Seq<char>> {
        id_order(self@.dom())
    }

    proof fn keys_are_order(&self)
        requires
            self.wf(),
        ensures
            self.keys() == self.order(),
            self.keys().no_duplicates(),
            forall|i: int|
                0 <= i < self.entries@.len() ==> self@.dom().contains(#[trigger] self.keys()[i])
                    && self@[self.keys()[i]] == self.entries@[i].1,
    {
        ascending_has_no_duplicates(self.keys());
        assert(lists(self.keys(), self@.dom()));
        listing_is_unique(self.keys(), self.order(), self@.dom());
        assert forall|i: int| 0 <= i < self.entries@.len() implies self@.dom().contains(
            #[trigger] self.keys()[i],
        ) && self@[self.keys()[i]] == self.entries@[i].1 by {
            assert(self.keys().contains(self.keys()[i]));
            assert(self.keys().index_of(self.keys()[i]) == i);
        }
    }

    /// The iteration order lists exactly the keys, ascending and without repeats.
    pub proof fn order_lists_keys(&self)
        requires
            self.wf(),
        ensures
            lists(self.order(), self@.dom()),
            self.order().no_duplicates(),
            self@.dom().finite(),
            self@.dom().len() == self.order().len(),
            forall|i: int|
                0 <= i < self.order().len() ==> self@.dom().contains(#[trigger] self.order()[i]),
    {
        self.keys_are_order();
        assert(lists(self.keys(), self@.dom()));
        assert(self@.dom() =~= self.keys().to_set());
        self.keys().unique_seq_to_set();
        vstd::seq_lib::seq_to_set_is_finite(self.keys());
        assert forall|i: int| 0 <= i < self.order().len() implies self@.dom().contains(
            #[trigger] self.order()[i],
        ) by {
            assert(self.order().contains(self.order()[i]));
        }
    }

    /// An empty map.
    pub fn new() -> (r: Self)
        ensures
            r.wf(),
            r@ == Map::<Seq<char>, V>::empty(),
    {
        let r = IdMap { entries: Vec::new() };
        assert(r@ =~= Map::<Seq<char>, V>::empty());
        r
    }

    /// The number of keys.
    pub fn len(&self) -> (r: usize)
        requires
            self.wf(),
        ensures
            r == self@.dom().len(),
            r == self.order().len(),
    {
        proof {
            self.keys_are_order();
            self.order_lists_keys();
        }
        self.entries.len()
    }

    /// Whether the map has no key.
    pub fn is_empty(&self) -> (r: bool)
        ensures
            r == (self@ == Map::<Seq<char>, V>::empty()),
    {
        proof {
            if self.entries@.len() > 0 {
                assert(self.keys().contains(self.keys()[0]));
                assert(self@.dom().contains(self.keys()[0]));
            } else {
                assert(self@ =~= Map::<Seq<char>, V>::empty());
            }
        }
        self.entries.len() == 0
    }

    /// The position of `key`, or the position where it belongs.
    fn slot(&self, key: &str) -> (r: Result<usize, usize>)
        requires
            self.wf(),
        ensures
            match r {
                Ok(i) => i < self.entries@.len() && self.keys()[i as int] == key@,
                Err(i) => {
                    &&& i <= self.entries@.len()
                    &&& !self@.dom().contains(key@)
                    &&& forall|j: int|
                        0 <= j < i ==> text::text_less(#[trigger] self.keys()[j], key@)
                    &&& forall|j: int|
                        i <= j < self.entries@.len() ==> text::text_less(
                            key@,
                            #[trigger] self.keys()[j],
                        )
                },
            },
    {
        let mut low: usize = 0;
        let mut high: usize = self.entries.len();
        while low < high
            invariant
                self.wf(),
                low <= high <= self.entries@.len(),
                forall|j: int| 0 <= j < low ==> text::text_less(#[trigger] self.keys()[j], key@),
                forall|j: int|
                    high <= j < self.entries@.len() ==> text::text_less(
                        key@,
                        #[trigger] self.keys()[j],
                    ),
            decreases high - low,
        {
            let mid: usize = low + (high - low) / 2;
            match standing(self.entries[mid].0.as_str(), key) {
                Standing::Same => {
                    return Ok(mid);
                },
                Standing::Below => {
                    assert forall|j: int| 0 <= j < mid + 1 implies text::text_less(
                        #[trigger] self.keys()[j],
                        key@,
                    ) by {
                        if j < mid {
                            text::text_less_transitive(
                                self.keys()[j],
                                self.keys()[mid as int],
                                key@,
                            );
                        }
                    }
                    low = mid + 1;
                },
                Standing::Above => {
                    assert forall|j: int| mid <= j < self.entries@.len() implies text::text_less(
                        key@,
                        #[trigger] self.keys()[j],
                    ) by {
                        if j > mid {
                            text::text_less_transitive(
                                key@,
                                self.keys()[mid as int],
                                self.keys()[j],
                            );
                        }
                    }
                    high = mid;
                },
            }
        }
        proof {
            text::text_less_irreflexive(key@);
            if self.keys().contains(key@) {
                let j = self.keys().index_of(key@);
                assert(self.keys()[j] == key@);
            }
        }
        Err(low)
    }

    /// Whether `key` is present.
    pub fn contains_key(&self, key: &str) -> (r: bool)
        requires
            self.wf(),
        ensures
            r == self@.dom().contains(key@),
    {
        proof {
            self.keys_are_order();
        }
        match self.slot(key) {
            Ok(_) => true,
            Err(_) => false,
        }
    }

    /// The value under `key`.
    pub fn get(&self, key: &str) -> (r: Option<&V>)
        requires
            self.wf(),
        ensures
            match r {
                Some(v) => self@.dom().contains(key@) && *v == self@[key@],
                None => !self@.dom().contains(key@),
            },
    {
        proof {
            self.keys_are_order();
        }
        match self.slot(key) {
            Ok(i) => Some(&self.entries[i].1),
            Err(_) => None,
        }
    }

    /// Access to the value under `key` for changing it.
    pub fn get_mut(&mut self, key: &str) -> (r: Option<&mut V>)
        requires
            old(self).wf(),
        ensures
            match r {
                Some(v) => {
                    &&& old(self)@.dom().contains(key@)
                    &&& *v == old(self)@[key@]
                    &&& final(self).wf()
                    &&& final(self)@ == old(self)@.insert(key@, *final(v))
                },
                None => !old(self)@.dom().contains(key@) && *final(self) == *old(self),
            },
    {
        let ghost before = *self;
        proof {
            self.keys_are_order();
        }
        match self.slot(key) {
            Ok(i) => {
                let entry = &mut self.entries[i];
                let value = &mut entry.1;
                proof {
                    before.update_keeps(*after_borrow(self), i as int, key@, *final(value));
                }
                Some(value)
            },
            Err(_) => None,
        }
    }

    proof fn update_keeps(self, after: Self, i: int, key: Seq<char>, value: V)
        requires
            self.wf(),
            0 <= i < self.entries@.len(),
            self.keys()[i] == key,
            after.entries@ == self.entries@.update(i, (self.entries@[i].0, value)),
        ensures
            after.wf(),
            after@ == self@.insert(key, value),
    {
        assert(after.keys() =~= self.keys());
        self.keys_are_order();
        after.keys_are_order();
        assert(after@.dom() =~= self@.dom().insert(key));
        assert forall|k: Seq<char>| after@.dom().contains(k) implies after@[k] == self@.insert(
            key,
            value,
        )[k] by {
            let j = after.keys().index_of(k);
            assert(after.keys()[j] == k);
            assert(self.keys()[j] == k);
        }
        assert(after@ =~= self@.insert(key, value));
    }

    /// The entry at position `i` of the iteration order.
    pub fn entry_at(&self, i: usize) -> (r: (&String, &V))
        requires
            self.wf(),
            i < self.order().len(),
        ensures
            r.0@ == self.order()[i as int],
            self@.dom().contains(r.0@),
            *r.1 == self@[r.0@],
    {
        proof {
            self.keys_are_order();
        }
        (&self.entries[i].0, &self.entries[i].1)
    }

    /// The keys in iteration order.
    pub fn keys_listed(&self) -> (r: Vec<String>)
        requires
            self.wf(),
        ensures
            text::texts(r@) == self.order(),
            lists(self.order(), self@.dom()),
    {
        let mut r: Vec<String> = Vec::new();
        let mut i: usize = 0;
        proof {
            self.keys_are_order();
            self.order_lists_keys();
        }
        while i < self.entries.len()
            invariant
                self.wf(),
                i <= self.entries@.len(),
                r@.len() == i,
                forall|j: int| 0 <= j < i ==> (#[trigger] r@[j])@ == self.keys()[j],
            decreases self.entries@.len() - i,
        {
            r.push(self.entries[i].0.clone());
            i = i + 1;
        }
        assert(text::texts(r@) =~= self.keys());
        r
    }

    /// Stores `value` under `key` and returns the value that stood there.
    pub fn insert(&mut self, key: String, value: V) -> (r: Option<V>)
        requires
            old(self).wf(),
        ensures
            final(self).wf(),
            final(self)@ == old(self)@.insert(key@, value),
            match r {
                Some(v) => old(self)@.dom().contains(key@) && v == old(self)@[key@],
                None => !old(self)@.dom().contains(key@),
            },
    {
        let ghost before = *self;
        proof {
            self.keys_are_order();
        }
        match self.slot(key.as_str()) {
            Ok(i) => {
                let (stored, replaced) = self.entries.remove(i);
                self.entries.insert(i, (stored, value));
                proof {
                    assert(self.keys() =~= before.keys());
                    self.keys_are_order();
                    assert(self@.dom() =~= before@.dom().insert(key@));
                    assert forall|k: Seq<char>| self@.dom().contains(k) implies self@[k]
                        == before@.insert(key@, value)[k] by {
                        let j = self.keys().index_of(k);
                        assert(self.keys()[j] == k);
                        assert(before.keys()[j] == k);
                    }
                    assert(self@ =~= before@.insert(key@, value));
                }
                Some(replaced)
            },
            Err(i) => {
                let ghost k0 = key@;
                self.entries.insert(i, (key, value));
                proof {
                    assert(self.keys() =~= before.keys().insert(i as int, k0));
                    assert(ascending(self.keys())) by {
                        assert forall|a: int, b: int|
                            0 <= a < b
                                < self.keys().len() implies #[trigger] text::text_less(
                            #[trigger] self.keys()[a],
                            #[trigger] self.keys()[b],
                        ) by {
                            let x = if a < i {
                                a
                            } else {
                                a - 1
                            };
                            let y = if b < i {
                                b
                            } else {
                                b - 1
                            };
                            if a != i {
                                assert(before.keys()[x] == self.keys()[a]);
                            }
                            if b != i {
                                assert(before.keys()[y] == self.keys()[b]);
                            }
                        }
                    }
                    self.keys_are_order();
                    before.insertion_keeps(*self, i as int, k0, value);
                }
                None
            },
        }
    }

    proof fn insertion_keeps(self, after: Self, i: int, key: Seq<char>, value: V)
        requires
            self.wf(),
            after.wf(),
            0 <= i <= self.entries@.len(),
            !self@.dom().contains(key),
            after.keys() == self.keys().insert(i, key),
            after.entries@.len() == self.entries@.len() + 1,
            after.entries@[i].1 == value,
            forall|j: int| 0 <= j < i ==> after.entries@[j] == #[trigger] self.entries@[j],
            forall|j: int|
                i <= j < self.entries@.len() ==> after.entries@[j + 1] == #[trigger] self.entries@[j],
        ensures
            after@ == self@.insert(key, value),
    {
        self.keys_are_order();
        after.keys_are_order();
        let m = self@.insert(key, value);
        assert forall|k: Seq<char>| after@.dom().contains(k) <==> m.dom().contains(k) by {
            if after@.dom().contains(k) {
                let j = after.keys().index_of(k);
                assert(after.keys()[j] == k);
                if j < i {
                    assert(self.keys()[j] == k);
                } else if j > i {
                    assert(self.keys()[j - 1] == k);
                }
            }
            if m.dom().contains(k) {
                if k == key {
                    assert(after.keys()[i] == key);
                } else {
                    let j = self.keys().index_of(k);
                    assert(self.keys()[j] == k);
                    if j < i {
                        assert(after.keys()[j] == k);
                    } else {
                        assert(after.keys()[j + 1] == k);
                    }
                }
            }
        }
        assert forall|k: Seq<char>| after@.dom().contains(k) implies after@[k] == m[k] by {
            let j = after.keys().index_of(k);
            assert(after.keys()[j] == k);
            if j < i {
                assert(self.keys()[j] == k);
                assert(self.entries@[j].1 == self@[k]);
            } else if j > i {
                assert(self.keys()[j - 1] == k);
                assert(self.entries@[j - 1].1 == self@[k]);
            }
        }
        assert(after@ =~= m);
    }

    /// Takes the value under `key` out of the map.
    pub fn remove(&mut self, key: &str) -> (r: Option<V>)
        requires
            old(self).wf(),
        ensures
            final(self).wf(),
            final(self)@ == old(self)@.remove(key@),
            match r {
                Some(v) => old(self)@.dom().contains(key@) && v == old(self)@[key@],
                None => !old(self)@.dom().contains(key@),
            },
    {
        let ghost before = *self;
        proof {
            self.keys_are_order();
        }
        match self.slot(key) {
            Ok(i) => {
                let (_, removed) = self.entries.remove(i);
                proof {
                    assert(self.keys() =~= before.keys().remove(i as int));
                    assert(ascending(self.keys())) by {
                        assert forall|a: int, b: int|
                            0 <= a < b
                                < self.keys().len() implies #[trigger] text::text_less(
                            #[trigger] self.keys()[a],
                            #[trigger] self.keys()[b],
                        ) by {
                            let x = if a < i {
                                a
                            } else {
                                a + 1
                            };
                            let y = if b < i {
                                b
                            } else {
                                b + 1
                            };
                            assert(before.keys()[x] == self.keys()[a]);
                            assert(before.keys()[y] == self.keys()[b]);
                        }
                    }
                    assert(before.keys() =~= self.keys().insert(i as int, key@));
                    self.keys_are_order();
                    if self@.dom().contains(key@) {
                        let j = self.keys().index_of(key@);
                        let x = if j < i {
                            j
                        } else {
                            j + 1
                        };
                        assert(before.keys()[x] == self.keys()[j]);
                    }
                    self.insertion_keeps(before, i as int, key@, removed);
                    assert(self@ =~= before@.remove(key@));
                }
                Some(removed)
            },
            Err(_) => {
                assert(self@ =~= before@.remove(key@));
                None
            },
        }
    }
}

impl IdMap<String> {
    /// A copy of the map.
    pub fn copied(&self) -> (r: Self)
        ensures
            r@ == self@,
            r.wf() == self.wf(),
    {
        let mut entries: Vec<(String, String)> = Vec::new();
        let mut i: usize = 0;
        while i < self.entries.len()
            invariant
                i <= self.entries@.len(),
                entries@ == self.entries@.take(i as int),
            decreases self.entries@.len() - i,
        {
            entries.push((self.entries[i].0.clone(), self.entries[i].1.clone()));
            assert(entries@ =~= self.entries@.take(i + 1));
            i = i + 1;
        }
        let r = IdMap { entries };
        assert(r.entries@ =~= self.entries@);
        assert(r.keys() =~= self.keys());
        assert(r@ =~= self@);
        r
    }
}

} // verus!
