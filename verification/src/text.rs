//! Text comparison and small text builders.
use vstd::prelude::*;
use vstd::std_specs::iter::IteratorSpec;

verus! {

broadcast use vstd::string::group_string_axioms;

/// Strict lexicographic order on texts by code point.
pub open spec fn text_less(a: Seq<char>, b: Seq<char>) -> bool
    decreases a.len(),
{
    if b.len() == 0 {
        false
    } else if a.len() == 0 {
        true
    } else if a[0] != b[0] {
        (a[0] as int) < (b[0] as int)
    } else {
        text_less(a.drop_first(), b.drop_first())
    }
}

/// No text lies below itself.
pub proof fn text_less_irreflexive(a: Seq<char>)
    ensures
        !text_less(a, a),
    decreases a.len(),
{
    if a.len() > 0 {
        text_less_irreflexive(a.drop_first());
    }
}

/// The order is transitive.
pub proof fn text_less_transitive(a: Seq<char>, b: Seq<char>, c: Seq<char>)
    requires
        text_less(a, b),
        text_less(b, c),
    ensures
        text_less(a, c),
    decreases a.len(),
{
    if a.len() > 0 && a[0] == b[0] && b[0] == c[0] {
        text_less_transitive(a.drop_first(), b.drop_first(), c.drop_first());
    }
}

/// Two different texts are ordered one way or the other.
pub proof fn text_less_total(a: Seq<char>, b: Seq<char>)
    ensures
        a == b || text_less(a, b) || text_less(b, a),
    decreases a.len(),
{
    if a.len() > 0 && b.len() > 0 && a[0] == b[0] {
        text_less_total(a.drop_first(), b.drop_first());
        if a.drop_first() == b.drop_first() {
            assert(a =~= seq![a[0]] + a.drop_first());
            assert(b =~= seq![b[0]] + b.drop_first());
        }
    } else if a.len() == 0 && b.len() == 0 {
        assert(a =~= b);
    }
}

/// How one text stands to another in the order of [`text_less`].
#[derive(Clone, Copy, PartialEq, Eq, Debug, Structural)]
pub enum Standing {
    Below,
    Same,
    Above,
}

/// The code point of a character.
fn code_point(c: char) -> (r: u32)
    ensures
        r as int == c as int,
{
    c as u32
}

/// Places `a` against `b`.
pub fn standing(a: &str, b: &str) -> (r: Standing)
    ensures
        match r {
            Standing::Below => text_less(a@, b@),
            Standing::Same => a@ == b@,
            Standing::Above => text_less(b@, a@),
        },
{
    let mut left = a.chars();
    let mut right = b.chars();
    loop
        invariant
            text_less(a@, b@) == text_less(left.remaining(), right.remaining()),
            text_less(b@, a@) == text_less(right.remaining(), left.remaining()),
            (a@ == b@) == (left.remaining() == right.remaining()),
            left.decrease() is Some,
        decreases left.decrease()->0,
    {
        let ghost l = left.remaining();
        let ghost r = right.remaining();
        let x = left.next();
        let y = right.next();
        match x {
            None => {
                match y {
                    None => {
                        assert(l =~= r);
                        return Standing::Same;
                    },
                    Some(_) => {
                        return Standing::Below;
                    },
                }
            },
            Some(c) => {
                match y {
                    None => {
                        return Standing::Above;
                    },
                    Some(d) => {
                        if code_point(c) < code_point(d) {
                            return Standing::Below;
                        }
                        if code_point(d) < code_point(c) {
                            return Standing::Above;
                        }
                        proof {
                            assert(l =~= seq![c] + left.remaining());
                            assert(r =~= seq![d] + right.remaining());
                        }
                    },
                }
            },
        }
    }
}

/// Whether two texts are the same.
pub fn same_text(a: &str, b: &str) -> (r: bool)
    ensures
        r == (a@ == b@),
{
    match standing(a, b) {
        Standing::Same => true,
        Standing::Below => {
            proof {
                text_less_irreflexive(a@);
            }
            false
        },
        Standing::Above => {
            proof {
                text_less_irreflexive(a@);
            }
            false
        },
    }
}

/// The text of an optional string.
pub open spec fn opt_text(o: Option<String>) -> Option<Seq<char>> {
    match o {
        Some(s) => Some(s@),
        None => None,
    }
}

/// Whether an optional string holds exactly `s`.
pub fn holds_text(o: &Option<String>, s: &str) -> (r: bool)
    ensures
        r == (opt_text(*o) == Some(s@)),
{
    match o {
        Some(t) => same_text(t.as_str(), s),
        None => false,
    }
}

/// Whether two optional strings hold the same text, or none both.
pub fn same_opt_text(a: &Option<String>, b: &Option<String>) -> (r: bool)
    ensures
        r == (opt_text(*a) == opt_text(*b)),
{
    match a {
        Some(s) => holds_text(b, s.as_str()),
        None => b.is_none(),
    }
}

/// A decimal digit.
pub open spec fn digit(d: int) -> char {
    "0123456789"@[d]
}

/// A number in decimal, without leading zeros.
pub open spec fn decimal_text(n: nat) -> Seq<char>
    decreases n,
{
    if n < 10 {
        seq![digit(n as int)]
    } else {
        decimal_text(n / 10).push(digit((n % 10) as int))
    }
}

/// A number in decimal is written in digits, of which it has at least one.
pub proof fn decimals_are_digits(n: nat)
    ensures
        decimal_text(n).len() >= 1,
        forall|i: int|
            0 <= i < decimal_text(n).len() ==> '0' <= #[trigger] decimal_text(n)[i] <= '9',
    decreases n,
{
    reveal_strlit("0123456789");
    if n >= 10 {
        decimals_are_digits(n / 10);
    }
}

/// Different numbers are written differently.
pub proof fn decimals_differ(m: nat, n: nat)
    requires
        m != n,
    ensures
        decimal_text(m) != decimal_text(n),
    decreases m,
{
    reveal_strlit("0123456789");
    let (a, b) = (decimal_text(m), decimal_text(n));
    if m < 10 && n < 10 {
        assert(a[0] == digit(m as int));
        assert(b[0] == digit(n as int));
    } else if m < 10 {
        decimals_are_digits(n / 10);
        assert(b.len() >= 2);
    } else if n < 10 {
        decimals_are_digits(m / 10);
        assert(a.len() >= 2);
    } else if m % 10 != n % 10 {
        assert(a.last() == digit((m % 10) as int));
        assert(b.last() == digit((n % 10) as int));
    } else {
        decimals_differ(m / 10, n / 10);
        assert(a.drop_last() =~= decimal_text(m / 10));
        assert(b.drop_last() =~= decimal_text(n / 10));
    }
}

/// Writes a number in decimal.
pub fn decimal(n: u64) -> (r: String)
    ensures
        r@ == decimal_text(n as nat),
    decreases n,
{
    proof {
        reveal_strlit("0123456789");
    }
    let digits = "0123456789";
    if n < 10 {
        let at: usize = n as usize;
        let last = digits.substring_char(at, at + 1);
        assert(last@ =~= seq![digit(n as int)]);
        last.to_owned()
    } else {
        let head = decimal(n / 10);
        let at: usize = (n % 10) as usize;
        let last = digits.substring_char(at, at + 1);
        assert(head@ + last@ =~= head@.push(digit((n % 10) as int)));
        head.concat(last)
    }
}

/// A character with the Unicode property `White_Space`.
pub open spec fn is_space(c: char) -> bool {
    let n = c as int;
    ||| 9 <= n <= 13
    ||| n == 32
    ||| n == 0x85
    ||| n == 0xA0
    ||| n == 0x1680
    ||| 0x2000 <= n <= 0x200A
    ||| n == 0x2028
    ||| n == 0x2029
    ||| n == 0x202F
    ||| n == 0x205F
    ||| n == 0x3000
}

/// A text without the white space at its start.
pub open spec fn trimmed_start(s: Seq<char>) -> Seq<char>
    decreases s.len(),
{
    if s.len() > 0 && is_space(s[0]) {
        trimmed_start(s.drop_first())
    } else {
        s
    }
}

/// A text without the white space at its end.
pub open spec fn trimmed_end(s: Seq<char>) -> Seq<char>
    decreases s.len(),
{
    if s.len() > 0 && is_space(s.last()) {
        trimmed_end(s.drop_last())
    } else {
        s
    }
}

/// A text without the white space around it.
pub open spec fn trimmed(s: Seq<char>) -> Seq<char> {
    trimmed_end(trimmed_start(s))
}

fn white_space(c: char) -> (r: bool)
    ensures
        r == is_space(c),
{
    let n: u32 = code_point(c);
    (9 <= n && n <= 13) || n == 32 || n == 0x85 || n == 0xA0 || n == 0x1680 || (0x2000 <= n && n
        <= 0x200A) || n == 0x2028 || n == 0x2029 || n == 0x202F || n == 0x205F || n == 0x3000
}

/// Removes the white space around a text.
pub fn trim(s: &str) -> (r: &str)
    ensures
        r@ == trimmed(s@),
{
    let len: usize = s.unicode_len();
    let mut low: usize = 0;
    assert(s@.skip(0) =~= s@);
    while low < len && white_space(s.get_char(low))
        invariant
            low <= len,
            len == s@.len(),
            trimmed_start(s@) == trimmed_start(s@.skip(low as int)),
        decreases len - low,
    {
        assert(s@.skip(low as int).drop_first() =~= s@.skip(low + 1));
        low = low + 1;
    }
    let ghost rest = s@.skip(low as int);
    assert(trimmed_start(s@) == rest);
    let mut high: usize = len;
    assert(s@.subrange(low as int, high as int) =~= rest);
    while high > low && white_space(s.get_char(high - 1))
        invariant
            low <= high <= len,
            len == s@.len(),
            trimmed_end(rest) == trimmed_end(s@.subrange(low as int, high as int)),
        decreases high,
    {
        assert(s@.subrange(low as int, high as int).drop_last() =~= s@.subrange(
            low as int,
            high - 1,
        ));
        high = high - 1;
    }
    s.substring_char(low, high)
}

/// Whether a text starts with a character.
pub fn starts_with(s: &str, c: char) -> (r: bool)
    ensures
        r == (s@.len() > 0 && s@[0] == c),
{
    !s.is_empty() && s.get_char(0) == c
}

/// The texts of a list.
pub open spec fn texts(list: Seq<String>) -> Seq<Seq<char>> {
    list.map_values(|s: String| s@)
}

/// Adds a text to a list.
pub(crate) fn add_text(list: &mut Vec<String>, s: &str)
    ensures
        texts(final(list)@) == texts(old(list)@).push(s@),
{
    let ghost before = list@;
    list.push(s.to_owned());
    assert(texts(list@) =~= texts(before).push(s@));
}

/// A copy of a list of texts.
pub(crate) fn copied_texts(list: &[String]) -> (r: Vec<String>)
    ensures
        texts(r@) == texts(list@),
{
    let mut r: Vec<String> = Vec::new();
    let mut i: usize = 0;
    while i < list.len()
        invariant
            i <= list@.len(),
            texts(r@) =~= texts(list@).take(i as int),
        decreases list@.len() - i,
    {
        let ghost before = texts(r@);
        add_text(&mut r, list[i].as_str());
        assert(texts(list@).take(i + 1) =~= texts(list@).take(i as int).push(list@[i as int]@));
        i = i + 1;
    }
    assert(texts(list@).take(list@.len() as int) =~= texts(list@));
    r
}

/// Whether a list of strings holds a text.
pub(crate) fn is_listed(list: &Vec<String>, s: &str) -> (r: bool)
    ensures
        r == texts(list@).contains(s@),
{
    let ghost all = texts(list@);
    let mut i: usize = 0;
    while i < list.len()
        invariant
            i <= list@.len(),
            all == texts(list@),
            forall|j: int| 0 <= j < i ==> #[trigger] all[j] != s@,
        decreases list@.len() - i,
    {
        if same_text(list[i].as_str(), s) {
            assert(all[i as int] == s@);
            return true;
        }
        i = i + 1;
    }
    false
}

} // verus!
