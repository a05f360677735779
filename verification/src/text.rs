//! Text: what the parts of `std` that work on strings compute, and what is built on them.

use vstd::prelude::*;

verus! {

/// The views of a list of strings.
pub open spec fn texts(list: Seq<String>) -> Seq<Seq<char>> {
    list.map_values(|text: String| text@)
}

/// The view of an optional string.
pub open spec fn opt_text(value: Option<String>) -> Option<Seq<char>> {
    match value {
        Some(inner) => Some(inner@),
        None => None,
    }
}

/// A copy of an optional string.
pub fn copy_opt(value: &Option<String>) -> (copy: Option<String>)
    ensures
        copy == *value,
{
    match value {
        Some(inner) => Some(inner.clone()),
        None => None,
    }
}

/// Whether two strings hold the same characters.
pub fn same_text(a: &str, b: &str) -> (same: bool)
    ensures
        same == (a@ == b@),
{
    a.to_owned() == b.to_owned()
}

/// Whether `list` holds `text`.
pub fn holds_text(list: &Vec<String>, text: &str) -> (held: bool)
    ensures
        held == texts(list@).contains(text@),
{
    for i in 0..list.len()
        invariant
            forall|j: int| 0 <= j < i ==> texts(list@)[j] != text@,
    {
        if same_text(list[i].as_str(), text) {
            assert(texts(list@)[i as int] == text@);
            return true;
        }
    }
    false
}

/// A copy of a list of strings.
pub fn copy_texts(list: &Vec<String>) -> (copy: Vec<String>)
    ensures
        copy@ == list@,
{
    let mut copy: Vec<String> = Vec::new();
    for i in 0..list.len()
        invariant
            copy@ == list@.take(i as int),
    {
        copy.push(list[i].clone());
    }
    copy
}

/// Unicode's `White_Space` property.
pub open spec fn is_white_space(c: char) -> bool {
    ||| '\u{9}' <= c <= '\u{d}'
    ||| c == '\u{20}'
    ||| c == '\u{85}'
    ||| c == '\u{a0}'
    ||| c == '\u{1680}'
    ||| '\u{2000}' <= c <= '\u{200a}'
    ||| c == '\u{2028}'
    ||| c == '\u{2029}'
    ||| c == '\u{202f}'
    ||| c == '\u{205f}'
    ||| c == '\u{3000}'
}

/// `s` without its leading white space.
pub open spec fn trimmed_start(s: Seq<char>) -> Seq<char>
    decreases s.len(),
{
    if s.len() > 0 && is_white_space(s.first()) {
        trimmed_start(s.drop_first())
    } else {
        s
    }
}

/// `s` without its trailing white space.
pub open spec fn trimmed_end(s: Seq<char>) -> Seq<char>
    decreases s.len(),
{
    if s.len() > 0 && is_white_space(s.last()) {
        trimmed_end(s.drop_last())
    } else {
        s
    }
}

/// `s` without leading and trailing white space.
pub open spec fn trimmed(s: Seq<char>) -> Seq<char> {
    trimmed_end(trimmed_start(s))
}

/// `str::trim`: the slice without its leading and trailing white space, which is what has
/// Unicode's `White_Space` property.
#[verifier::external_body]
pub(crate) fn trim(s: &str) -> (slice: &str)
    ensures
        slice@ == trimmed(s@),
{
    s.trim()
}

/// `c`, or the lower-case letter where `c` is one of `A` to `Z`.
pub open spec fn ascii_lower(c: char) -> char {
    if 'A' <= c <= 'Z' {
        ((c as u8) + 32) as char
    } else {
        c
    }
}

/// `str::to_ascii_lowercase`: the letters `A` to `Z` are mapped to `a` to `z`, and nothing else
/// changes.
#[verifier::external_body]
pub(crate) fn to_ascii_lowercase(s: &str) -> (lower: String)
    ensures
        lower@ == s@.map_values(|c: char| ascii_lower(c)),
{
    s.to_ascii_lowercase()
}

pub open spec fn is_digit(c: char) -> bool {
    '0' <= c <= '9'
}

/// Whether `s` holds a digit and nothing but digits.
pub open spec fn is_digits(s: Seq<char>) -> bool {
    &&& s.len() > 0
    &&& forall|i: int| 0 <= i < s.len() ==> is_digit(#[trigger] s[i])
}

/// The number that a run of decimal digits writes.
pub open spec fn digits_value(s: Seq<char>) -> nat
    decreases s.len(),
{
    if s.len() == 0 {
        0
    } else {
        10 * digits_value(s.drop_last()) + ((s.last() as u32 - '0' as u32) as nat)
    }
}

/// The number that `s` writes as an optional `+` and digits.
pub open spec fn unsigned_value(s: Seq<char>) -> Option<nat> {
    let digits = if s.len() > 0 && s.first() == '+' {
        s.drop_first()
    } else {
        s
    };
    if is_digits(digits) {
        Some(digits_value(digits))
    } else {
        None
    }
}

/// The number that `s` writes as an optional `+` or `-` and digits.
pub open spec fn signed_value(s: Seq<char>) -> Option<int> {
    if s.len() > 0 && s.first() == '-' {
        if is_digits(s.drop_first()) {
            Some(-digits_value(s.drop_first()))
        } else {
            None
        }
    } else {
        match unsigned_value(s) {
            Some(n) => Some(n as int),
            None => None,
        }
    }
}

/// The `usize` that `s` writes, if it writes one.
pub open spec fn usize_value(s: Seq<char>) -> Option<usize> {
    match unsigned_value(s) {
        Some(n) => if n <= usize::MAX {
            Some(n as usize)
        } else {
            None
        },
        None => None,
    }
}

/// The `i64` that `s` writes, if it writes one.
pub open spec fn i64_value(s: Seq<char>) -> Option<i64> {
    match signed_value(s) {
        Some(n) => if i64::MIN <= n <= i64::MAX {
            Some(n as i64)
        } else {
            None
        },
        None => None,
    }
}

/// `str::parse::<usize>`: an optional `+` and decimal digits give their number, if `usize` holds
/// it; anything else is an error.
#[verifier::external_body]
pub(crate) fn parse_usize(s: &str) -> (n: Option<usize>)
    ensures
        n == usize_value(s@),
{
    s.parse::<usize>().ok()
}

/// `str::parse::<i64>`: an optional `+` or `-` and decimal digits give their number, if `i64`
/// holds it; anything else is an error.
#[verifier::external_body]
pub(crate) fn parse_i64(s: &str) -> (n: Option<i64>)
    ensures
        n == i64_value(s@),
{
    s.parse::<i64>().ok()
}

/// The decimal digit for `n`, which is below ten.
pub open spec fn digit_char(n: int) -> char {
    ('0' as u32 + n) as char
}

/// The decimal digits of `n`, without leading zeros.
pub open spec fn decimal_digits(n: nat) -> Seq<char>
    decreases n,
{
    if n < 10 {
        seq![digit_char(n as int)]
    } else {
        decimal_digits(n / 10).push(digit_char((n % 10) as int))
    }
}

/// `n` in decimal, with a `-` where it is negative.
pub open spec fn decimal(n: int) -> Seq<char> {
    if n < 0 {
        seq!['-'] + decimal_digits((-n) as nat)
    } else {
        decimal_digits(n as nat)
    }
}

/// `i64::to_string`: the number in decimal.
#[verifier::external_body]
pub(crate) fn i64_text(n: i64) -> (text: String)
    ensures
        text@ == decimal(n as int),
{
    n.to_string()
}

/// `s` cut at every `separator`, which no piece holds: one piece more than `s` has separators.
pub open spec fn pieces(s: Seq<char>, separator: char) -> Seq<Seq<char>>
    decreases s.len(),
{
    if s.len() == 0 {
        seq![Seq::empty()]
    } else {
        let before = pieces(s.drop_last(), separator);
        if s.last() == separator {
            before.push(Seq::empty())
        } else {
            before.drop_last().push(before.last().push(s.last()))
        }
    }
}

proof fn lemma_pieces_nonempty(s: Seq<char>, separator: char)
    ensures
        pieces(s, separator).len() > 0,
    decreases s.len(),
{
    if s.len() > 0 {
        lemma_pieces_nonempty(s.drop_last(), separator);
    }
}

/// Cuts `s` at every `separator`.
pub fn split(s: &str, separator: char) -> (list: Vec<String>)
    ensures
        texts(list@) == pieces(s@, separator),
{
    let mut list: Vec<String> = Vec::new();
    let mut start: usize = 0;
    let mut at: usize = 0;
    let len: usize = s.unicode_len();
    for c in iter: s.chars()
        invariant
            iter.seq() == s@,
            len == s@.len(),
            at == iter.index(),
            start <= at,
            texts(list@) == pieces(s@.take(at as int), separator).drop_last(),
            pieces(s@.take(at as int), separator).len() > 0,
            s@.subrange(start as int, at as int) == pieces(s@.take(at as int), separator).last(),
    {
        proof {
            assert(s@.take(at + 1).drop_last() == s@.take(at as int));
            lemma_pieces_nonempty(s@.take(at + 1), separator);
        }
        let ghost before = list@;
        if c == separator {
            list.push(s.substring_char(start, at).to_owned());
            assert(texts(list@) == texts(before).push(s@.subrange(start as int, at as int)));
            start = at + 1;
        } else {
            assert(s@.subrange(start as int, at + 1) == s@.subrange(start as int, at as int).push(c));
        }
        at = at + 1;
    }
    proof {
        assert(s@.take(len as int) == s@);
    }
    let ghost before = list@;
    list.push(s.substring_char(start, len).to_owned());
    assert(texts(list@) == texts(before).push(s@.subrange(start as int, len as int)));
    list
}

/// Whether `a` comes before `b` in the order of strings: by the first place at which they
/// differ, where a string that ends comes first.
pub open spec fn text_before(a: Seq<char>, b: Seq<char>) -> bool
    decreases a.len(),
{
    if b.len() == 0 {
        false
    } else if a.len() == 0 {
        true
    } else if a.first() != b.first() {
        a.first() < b.first()
    } else {
        text_before(a.drop_first(), b.drop_first())
    }
}

/// `Vec<String>::sort`: the same strings, in the order of strings, which is by the code points
/// of their characters.
#[verifier::external_body]
pub(crate) fn sort_texts(list: &mut Vec<String>)
    ensures
        texts(final(list)@).to_multiset() == texts(old(list)@).to_multiset(),
        forall|i: int, j: int|
            0 <= i < j < final(list)@.len() ==> !text_before(
                texts(final(list)@)[j],
                texts(final(list)@)[i],
            ),
{
    list.sort();
}

} // verus!
