//! What holds of the order of texts, of numbers in decimal and of trimming.
use crate::connection;
use crate::text;
use vstd::prelude::*;

verus! {

/// A text comes before every longer text that it begins.
pub proof fn beginnings_come_first(a: Seq<char>, more: Seq<char>)
    requires
        more.len() > 0,
    ensures
        text::text_less(a, a + more),
        !text::text_less(a + more, a),
    decreases a.len(),
{
    if a.len() > 0 {
        beginnings_come_first(a.drop_first(), more);
        assert((a + more).drop_first() =~= a.drop_first() + more);
    }
}

/// The first character in which two texts differ orders them, by code point.
pub proof fn first_difference_orders(
    same: Seq<char>,
    c: char,
    d: char,
    x: Seq<char>,
    y: Seq<char>,
)
    requires
        (c as int) < (d as int),
    ensures
        text::text_less(same + seq![c] + x, same + seq![d] + y),
        !text::text_less(same + seq![d] + y, same + seq![c] + x),
    decreases same.len(),
{
    let a = same + seq![c] + x;
    let b = same + seq![d] + y;
    if same.len() == 0 {
        assert(a[0] == c);
        assert(b[0] == d);
    } else {
        let rest = same.drop_first();
        first_difference_orders(rest, c, d, x, y);
        assert(a.drop_first() =~= rest + seq![c] + x);
        assert(b.drop_first() =~= rest + seq![d] + y);
        assert(a[0] == b[0]);
    }
}

/// The number that a text of decimal digits stands for.
pub open spec fn decimal_value(s: Seq<char>) -> int
    decreases s.len(),
{
    if s.len() == 0 {
        0
    } else {
        10 * decimal_value(s.drop_last()) + (s.last() as int - '0' as int)
    }
}

/// A number in decimal reads back as the number, in digits and without a leading
/// zero.
pub proof fn decimals_read_back(n: nat)
    ensures
        decimal_value(text::decimal_text(n)) == n,
        n > 0 ==> text::decimal_text(n)[0] != '0',
        n < 10 ==> text::decimal_text(n).len() == 1,
    decreases n,
{
    reveal_strlit("0123456789");
    let s = text::decimal_text(n);
    if n < 10 {
        assert(s.drop_last() =~= Seq::empty());
        assert(decimal_value(s.drop_last()) == 0);
    } else {
        decimals_read_back(n / 10);
        text::decimals_are_digits(n / 10);
        assert(s.drop_last() =~= text::decimal_text(n / 10));
        assert(s[0] == text::decimal_text(n / 10)[0]);
    }
}

/// All characters of a text are white space.
pub open spec fn blank(s: Seq<char>) -> bool {
    forall|i: int| 0 <= i < s.len() ==> white_code(#[trigger] s[i])
}

/// The code point is one of the twenty-five of white space.
pub open spec fn white_code(c: char) -> bool {
    set![
        9int, 10int, 11int, 12int, 13int, 32int, 133int, 160int, 5760int, 8192int, 8193int,
        8194int, 8195int, 8196int, 8197int, 8198int, 8199int, 8200int, 8201int, 8202int, 8232int,
        8233int, 8239int, 8287int, 12288int
    ].contains(c as int)
}

proof fn spaces_are_white(c: char)
    ensures
        text::is_space(c) <==> white_code(c),
{
}

proof fn start_is_blank(s: Seq<char>) -> (head: Seq<char>)
    ensures
        s == head + text::trimmed_start(s),
        blank(head),
        text::trimmed_start(s).len() > 0 ==> !white_code(text::trimmed_start(s)[0]),
    decreases s.len(),
{
    if s.len() > 0 {
        spaces_are_white(s[0]);
    }
    if s.len() > 0 && text::is_space(s[0]) {
        let rest = start_is_blank(s.drop_first());
        let head = seq![s[0]] + rest;
        assert(s =~= seq![s[0]] + s.drop_first());
        assert(text::trimmed_start(s) == text::trimmed_start(s.drop_first()));
        assert(s =~= head + text::trimmed_start(s));
        assert forall|i: int| 0 <= i < head.len() implies white_code(#[trigger] head[i]) by {
            if i > 0 {
                assert(head[i] == rest[i - 1]);
            }
        }
        head
    } else {
        let head = Seq::empty();
        assert(s =~= head + text::trimmed_start(s));
        head
    }
}

proof fn end_is_blank(s: Seq<char>) -> (tail: Seq<char>)
    ensures
        s == text::trimmed_end(s) + tail,
        blank(tail),
        text::trimmed_end(s).len() > 0 ==> !white_code(text::trimmed_end(s).last()),
        text::trimmed_end(s).len() > 0 ==> text::trimmed_end(s)[0] == s[0],
    decreases s.len(),
{
    if s.len() > 0 {
        spaces_are_white(s.last());
    }
    if s.len() > 0 && text::is_space(s.last()) {
        let rest = end_is_blank(s.drop_last());
        let tail = rest.push(s.last());
        assert(s =~= s.drop_last().push(s.last()));
        assert(text::trimmed_end(s) == text::trimmed_end(s.drop_last()));
        assert(s =~= text::trimmed_end(s) + tail);
        assert forall|i: int| 0 <= i < tail.len() implies white_code(#[trigger] tail[i]) by {
            if i < rest.len() {
                assert(tail[i] == rest[i]);
            }
        }
        tail
    } else {
        let tail = Seq::empty();
        assert(s =~= text::trimmed_end(s) + tail);
        tail
    }
}

/// Trimming takes white space off both ends and nothing else, until neither end has
/// any.
pub proof fn trimming_takes_white_space_only(s: Seq<char>)
    ensures
        exists|head: Seq<char>, tail: Seq<char>| #[trigger]
            blank(head) && #[trigger] blank(tail) && s == head + text::trimmed(s) + tail,
        text::trimmed(s).len() > 0 ==> !white_code(text::trimmed(s)[0]) && !white_code(
            text::trimmed(s).last(),
        ),
{
    let head = start_is_blank(s);
    let tail = end_is_blank(text::trimmed_start(s));
    assert(s =~= head + text::trimmed(s) + tail);
    assert(blank(head) && blank(tail));
}

/// An optional text is the text of the string, and none where there is no string; a
/// list of texts holds the text of every string in its place.
pub proof fn texts_are_those_of_their_strings(s: String, t: &str, list: Seq<String>, i: int)
    ensures
        text::opt_text(Some(s)) == Some(s@),
        text::opt_text(None) is None,
        connection::opt_str(Some(t)) == Some(t@),
        connection::opt_str(None) is None,
        text::texts(list).len() == list.len(),
        0 <= i < list.len() ==> text::texts(list)[i] == list[i]@,
{
}

} // verus!
