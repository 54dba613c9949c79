//! Parsing of coordinate pairs such as `"400x600"` or `"-1.0,0.5"`.
//!
//! A pair string has the form `<left><sep><right>`: the separator must
//! occur, the string is split at its first occurrence, and both sides
//! must parse in full as the target numeric type — trailing garbage
//! invalidates the whole pair.  Unsigned numerals are parsed here with
//! an exact, verified contract; parsing of other numeric types goes
//! through `FromStr` and keeps only the verified split structure.

use vstd::prelude::*;
use vstd::string::*;

verus! {

/// An ASCII decimal digit.
pub open spec fn is_digit_char(c: char) -> bool {
    48 <= c as u32 <= 57
}

/// Numeric value of an ASCII decimal digit.
pub open spec fn digit_value(c: char) -> nat {
    (c as u32 - 48) as nat
}

/// Every character of `s` is an ASCII decimal digit.
pub open spec fn all_digits(s: Seq<char>) -> bool {
    forall|i: int| 0 <= i < s.len() ==> is_digit_char(s[i])
}

/// Value of a string of ASCII decimal digits, most significant first.
pub open spec fn digits_value(s: Seq<char>) -> nat
    decreases s.len(),
{
    if s.len() == 0 {
        0
    } else {
        digits_value(s.drop_last()) * 10 + digit_value(s.last())
    }
}

/// The digit part of an unsigned numeral: everything after an optional
/// leading `'+'`, as `u32::from_str` accepts it.
pub open spec fn digits_of(s: Seq<char>) -> Seq<char> {
    if s.len() > 0 && s[0] == '+' {
        s.subrange(1, s.len() as int)
    } else {
        s
    }
}

/// `s` is a numeral that `u32::from_str` would accept: an optional
/// leading `'+'`, then one or more digits, and a value that fits.
pub open spec fn is_u32_numeral(s: Seq<char>) -> bool {
    digits_of(s).len() > 0 && all_digits(digits_of(s)) && digits_value(digits_of(s)) <= u32::MAX
}

/// Value of an unsigned numeral.
pub open spec fn numeral_value(s: Seq<char>) -> nat {
    digits_value(digits_of(s))
}

/// `c` occurs somewhere in `s`.
pub open spec fn has_char(s: Seq<char>, c: char) -> bool {
    exists|i: int| 0 <= i < s.len() && s[i] == c
}

/// `i` is the index of the first occurrence of `c` in `s`.
pub open spec fn is_first_index_of(s: Seq<char>, c: char, i: int) -> bool {
    &&& 0 <= i < s.len()
    &&& s[i] == c
    &&& forall|j: int| 0 <= j < i ==> s[j] != c
}

/// Index of the first occurrence of `c` in `s`; meaningful only when
/// `has_char(s, c)` holds.
pub open spec fn first_index_of(s: Seq<char>, c: char) -> int {
    choose|i: int| is_first_index_of(s, c, i)
}

/// The part of `s` before the first occurrence of `c`.
pub open spec fn left_of(s: Seq<char>, c: char) -> Seq<char> {
    s.subrange(0, first_index_of(s, c))
}

/// The part of `s` after the first occurrence of `c`.
pub open spec fn right_of(s: Seq<char>, c: char) -> Seq<char> {
    s.subrange(first_index_of(s, c) + 1, s.len() as int)
}

/// When `c` occurs in `s`, `first_index_of` is its unique first
/// occurrence.
pub proof fn lemma_first_index_of(s: Seq<char>, c: char)
    requires
        has_char(s, c),
    ensures
        is_first_index_of(s, c, first_index_of(s, c)),
{
    let w = choose|i: int| 0 <= i < s.len() && s[i] == c;
    lemma_some_first_index(s, c, w);
}

/// Below any occurrence of `c` there is a first occurrence.
proof fn lemma_some_first_index(s: Seq<char>, c: char, w: int)
    requires
        0 <= w < s.len(),
        s[w] == c,
    ensures
        is_first_index_of(s, c, first_index_of(s, c)),
    decreases w,
{
    if forall|j: int| 0 <= j < w ==> s[j] != c {
        assert(is_first_index_of(s, c, w));
    } else {
        let w2 = choose|j: int| 0 <= j < w && s[j] == c;
        lemma_some_first_index(s, c, w2);
    }
}

/// A digit string's value only grows as more digits are appended.
proof fn lemma_digits_value_prefix(s: Seq<char>, i: int)
    requires
        0 <= i <= s.len(),
    ensures
        digits_value(s.subrange(0, i)) <= digits_value(s),
    decreases s.len() - i,
{
    if i == s.len() {
        assert(s.subrange(0, i) =~= s);
    } else {
        assert(s.subrange(0, i + 1).drop_last() =~= s.subrange(0, i));
        assert(digits_value(s.subrange(0, i + 1)) == digits_value(s.subrange(0, i)) * 10
            + digit_value(s.subrange(0, i + 1).last()));
        lemma_digits_value_prefix(s, i + 1);
    }
}

/// Parse `s` as a `u32`, accepting exactly what `u32::from_str`
/// accepts: an optional leading `'+'`, then one or more ASCII digits,
/// with no other characters, and a value no greater than `u32::MAX`.
pub fn parse_u32(s: &str) -> (r: Option<u32>)
    ensures
        is_u32_numeral(s@) ==> r == Some(numeral_value(s@) as u32),
        !is_u32_numeral(s@) ==> r is None,
{
    let n = s.unicode_len();
    let start: usize = if n > 0 && s.get_char(0) == '+' {
        1
    } else {
        0
    };
    proof {
        assert(digits_of(s@) =~= s@.subrange(start as int, n as int));
    }
    if start == n {
        return None;
    }
    let ghost d = digits_of(s@);
    let mut acc: u32 = 0;
    let mut i: usize = start;
    while i < n
        invariant
            start <= i <= n,
            n == s@.len(),
            d == digits_of(s@),
            d =~= s@.subrange(start as int, n as int),
            all_digits(d.subrange(0, i - start)),
            acc == digits_value(d.subrange(0, i - start)),
        decreases n - i,
    {
        let c = s.get_char(i);
        let cv = c as u32;
        proof {
            assert(d[i - start] == s@[i as int]);
        }
        if cv < 48 || cv > 57 {
            assert(!is_digit_char(d[i - start]));
            return None;
        }
        let dv = cv - 48;
        proof {
            assert(d.subrange(0, i - start + 1).drop_last() =~= d.subrange(0, i - start));
            assert(d.subrange(0, i - start + 1).last() == d[i - start]);
        }
        if acc > (u32::MAX - dv) / 10 {
            proof {
                assert(digits_value(d.subrange(0, i - start + 1)) > u32::MAX) by (nonlinear_arith)
                    requires
                        digits_value(d.subrange(0, i - start + 1)) == acc * 10 + dv,
                        acc > (u32::MAX - dv) / 10,
                        dv <= 9,
                ;
                lemma_digits_value_prefix(d, i - start + 1);
            }
            return None;
        }
        acc = acc * 10 + dv;
        i = i + 1;
    }
    proof {
        assert(d.subrange(0, n - start) =~= d);
    }
    Some(acc)
}

/// Relies on `<T as core::str::FromStr>::from_str`: parses a full
/// string as `T`; which strings succeed is `T`'s own business, so
/// nothing is claimed of the result.
#[verifier::external_body]
fn from_text<T: core::str::FromStr>(s: &str) -> Option<T> {
    T::from_str(s).ok()
}

/// Find the first occurrence of `c` in `s`.
fn find_char(s: &str, c: char) -> (r: Option<usize>)
    ensures
        match r {
            Some(i) => has_char(s@, c) && i == first_index_of(s@, c) && is_first_index_of(
                s@,
                c,
                i as int,
            ),
            None => !has_char(s@, c),
        },
{
    let n = s.unicode_len();
    let mut i: usize = 0;
    while i < n
        invariant
            0 <= i <= n,
            n == s@.len(),
            forall|j: int| 0 <= j < i ==> s@[j] != c,
        decreases n - i,
    {
        if s.get_char(i) == c {
            proof {
                assert(is_first_index_of(s@, c, i as int));
                lemma_first_index_of(s@, c);
            }
            return Some(i);
        }
        i = i + 1;
    }
    None
}

/// Parse the string `s` as a coordinate pair, like `"400x600"` or
/// `"1.0,0.5"`.
///
/// `s` must have the form `<left><sep><right>`, where `<sep>` is the
/// character given by `separator` and both sides parse in full by
/// `T::from_str`.  Whether a side parses is `T`'s business; what is
/// guaranteed here is the split structure: without the separator there
/// is no pair, and the sides handed to `T` are exactly the text before
/// and after the separator's first occurrence.
pub fn parse_pair<T: core::str::FromStr>(s: &str, separator: char) -> (r: Option<(T, T)>)
    ensures
        r is Some ==> has_char(s@, separator),
        !has_char(s@, separator) ==> r is None,
{
    match find_char(s, separator) {
        None => None,
        Some(index) => {
            let n = s.unicode_len();
            let left = s.substring_char(0, index);
            let right = s.substring_char(index + 1, n);
            match (from_text::<T>(left), from_text::<T>(right)) {
                (Some(l), Some(r)) => Some((l, r)),
                _ => None,
            }
        },
    }
}

/// Both sides of `s` around the first `sep` are `u32` numerals.
pub open spec fn is_u32_pair(s: Seq<char>, sep: char) -> bool {
    has_char(s, sep) && is_u32_numeral(left_of(s, sep)) && is_u32_numeral(right_of(s, sep))
}

/// Parse `s` as a pair of `u32` values split at the first occurrence
/// of `separator`, with the exact `u32::from_str` grammar on each side.
pub fn parse_u32_pair(s: &str, separator: char) -> (r: Option<(u32, u32)>)
    ensures
        is_u32_pair(s@, separator) ==> r == Some(
            (
                numeral_value(left_of(s@, separator)) as u32,
                numeral_value(right_of(s@, separator)) as u32,
            ),
        ),
        !is_u32_pair(s@, separator) ==> r is None,
{
    match find_char(s, separator) {
        None => None,
        Some(index) => {
            let n = s.unicode_len();
            let left = s.substring_char(0, index);
            let right = s.substring_char(index + 1, n);
            match (parse_u32(left), parse_u32(right)) {
                (Some(l), Some(r)) => Some((l, r)),
                _ => None,
            }
        },
    }
}

} // verus!
