//! Labels of polynomials, read as byte strings.
//!
//! A label names a polynomial and, for the polynomials of a circuit, the
//! circuit and the instance: `g_1`, or `circuit_<id>_<name>` followed, for a
//! witness polynomial, by `_<instance>`.

use vstd::prelude::*;

verus! {

/// The label `g_1`.
pub open spec fn g_1_label() -> Seq<u8> {
    seq![0x67u8, 0x5fu8, 0x31u8]
}

/// The text `z_b_`.
pub open spec fn z_b_marker() -> Seq<u8> {
    seq![0x7au8, 0x5fu8, 0x62u8, 0x5fu8]
}

/// The text `g_a`.
pub open spec fn g_a_marker() -> Seq<u8> {
    seq![0x67u8, 0x5fu8, 0x61u8]
}

/// The text `g_b`.
pub open spec fn g_b_marker() -> Seq<u8> {
    seq![0x67u8, 0x5fu8, 0x62u8]
}

/// The text `g_c`.
pub open spec fn g_c_marker() -> Seq<u8> {
    seq![0x67u8, 0x5fu8, 0x63u8]
}

/// Whether `needle` stands in `haystack` at position `at`.
pub open spec fn occurs_at(haystack: Seq<u8>, needle: Seq<u8>, at: int) -> bool {
    &&& 0 <= at
    &&& at + needle.len() <= haystack.len()
    &&& haystack.subrange(at, at + needle.len()) == needle
}

/// The first position at or behind `from` at which `needle` stands in
/// `haystack`, if there is one.
pub open spec fn find_from(haystack: Seq<u8>, needle: Seq<u8>, from: int) -> Option<int>
    decreases haystack.len() + 1 - from,
{
    if from < 0 || from + needle.len() > haystack.len() {
        None
    } else if occurs_at(haystack, needle, from) {
        Some(from)
    } else {
        find_from(haystack, needle, from + 1)
    }
}

/// The first position at which `needle` stands in `haystack`, if there is
/// one.
pub open spec fn find_spec(haystack: Seq<u8>, needle: Seq<u8>) -> Option<int> {
    find_from(haystack, needle, 0)
}

/// Whether `needle` stands somewhere in `haystack`.
pub open spec fn contains_spec(haystack: Seq<u8>, needle: Seq<u8>) -> bool {
    find_spec(haystack, needle) is Some
}

/// What `find_from` finds is the first occurrence from `from` on, and it
/// finds nothing only where there is none.
pub proof fn lemma_find_from(haystack: Seq<u8>, needle: Seq<u8>, from: int)
    requires
        0 <= from,
    ensures
        match find_from(haystack, needle, from) {
            Some(at) => from <= at && occurs_at(haystack, needle, at) && forall|i: int|
                from <= i < at ==> !occurs_at(haystack, needle, i),
            None => forall|i: int| from <= i ==> !occurs_at(haystack, needle, i),
        },
    decreases haystack.len() + 1 - from,
{
    if from + needle.len() <= haystack.len() && !occurs_at(haystack, needle, from) {
        lemma_find_from(haystack, needle, from + 1);
    }
}

/// Whether `needle` stands in `haystack` at position `at`.
fn matches_at(haystack: &[u8], needle: &[u8], at: usize) -> (found: bool)
    requires
        at + needle@.len() <= haystack@.len(),
    ensures
        found == occurs_at(haystack@, needle@, at as int),
{
    let length = haystack.len();
    let mut j: usize = 0;
    while j < needle.len()
        invariant
            j <= needle@.len(),
            length == haystack@.len(),
            at + needle@.len() <= haystack@.len(),
            forall|k: int| 0 <= k < j ==> haystack@[at + k] == needle@[k],
        decreases needle@.len() - j,
    {
        if haystack[at + j] != needle[j] {
            assert(haystack@.subrange(at as int, at + needle@.len())[j as int] != needle@[j as int]);
            return false;
        }
        j += 1;
    }
    assert(haystack@.subrange(at as int, at + needle@.len()) =~= needle@);
    true
}

/// Finds the first position at which `needle` stands in `haystack`.
pub fn find(haystack: &[u8], needle: &[u8]) -> (position: Option<usize>)
    ensures
        match position {
            Some(at) => find_spec(haystack@, needle@) == Some(at as int),
            None => find_spec(haystack@, needle@) is None,
        },
{
    if needle.len() > haystack.len() {
        return None;
    }
    let last = haystack.len() - needle.len();
    let mut at: usize = 0;
    loop
        invariant
            last == haystack@.len() - needle@.len(),
            at <= last,
            find_spec(haystack@, needle@) == find_from(haystack@, needle@, at as int),
        decreases last - at,
    {
        if matches_at(haystack, needle, at) {
            return Some(at);
        }
        if at == last {
            assert(find_from(haystack@, needle@, at + 1) is None);
            return None;
        }
        at += 1;
    }
}

/// Whether `needle` stands somewhere in `haystack`.
pub fn contains(haystack: &[u8], needle: &[u8]) -> (found: bool)
    ensures
        found == contains_spec(haystack@, needle@),
{
    find(haystack, needle).is_some()
}

/// Whether a byte is a decimal digit.
pub open spec fn is_digit(byte: u8) -> bool {
    0x30 <= byte <= 0x39
}

/// The number that a string of decimal digits stands for.
pub open spec fn decimal_value(digits: Seq<u8>) -> int
    decreases digits.len(),
{
    if digits.len() == 0 {
        0
    } else {
        10 * decimal_value(digits.drop_last()) + (digits.last() - 0x30)
    }
}

/// The digits of a number as it is written: without the plus sign that may
/// stand in front.
pub open spec fn unsigned_part(text: Seq<u8>) -> Seq<u8> {
    if text.len() > 0 && text[0] == 0x2bu8 {
        text.skip(1)
    } else {
        text
    }
}

/// The number that `text` stands for: decimal digits, at least one, with at
/// most one plus sign in front, and a value that fits into `usize`. `None`
/// for any other text.
pub open spec fn parse_usize_spec(text: Seq<u8>) -> Option<usize> {
    let digits = unsigned_part(text);
    if digits.len() > 0 && (forall|i: int| 0 <= i < digits.len() ==> is_digit(digits[i]))
        && decimal_value(digits) <= usize::MAX {
        Some(decimal_value(digits) as usize)
    } else {
        None
    }
}

/// A string of digits stands for at least what any of its beginnings
/// stands for.
pub proof fn lemma_decimal_value_grows(digits: Seq<u8>, n: int)
    requires
        0 <= n <= digits.len(),
        forall|i: int| 0 <= i < digits.len() ==> is_digit(digits[i]),
    ensures
        0 <= decimal_value(digits.take(n)) <= decimal_value(digits),
    decreases digits.len() - n,
{
    if n < digits.len() {
        lemma_decimal_value_grows(digits, n + 1);
        assert(digits.take(n + 1).drop_last() == digits.take(n));
        lemma_decimal_value_nonnegative(digits.take(n));
    } else {
        assert(digits.take(n) == digits);
        lemma_decimal_value_nonnegative(digits);
    }
}

/// A string of digits stands for no negative number.
pub proof fn lemma_decimal_value_nonnegative(digits: Seq<u8>)
    requires
        forall|i: int| 0 <= i < digits.len() ==> is_digit(digits[i]),
    ensures
        0 <= decimal_value(digits),
    decreases digits.len(),
{
    if digits.len() > 0 {
        lemma_decimal_value_nonnegative(digits.drop_last());
    }
}

/// Reads a number as `parse_usize_spec` says.
pub fn parse_usize(text: &[u8]) -> (number: Option<usize>)
    ensures
        number == parse_usize_spec(text@),
{
    let start: usize = if text.len() > 0 && text[0] == 0x2b {
        1
    } else {
        0
    };
    let ghost digits = unsigned_part(text@);
    assert(digits == text@.skip(start as int));
    if start == text.len() {
        return None;
    }
    let mut value: usize = 0;
    let mut i: usize = start;
    while i < text.len()
        invariant
            start <= i <= text@.len(),
            digits == unsigned_part(text@),
            digits == text@.skip(start as int),
            digits.len() > 0,
            forall|k: int| 0 <= k < i - start ==> is_digit(digits[k]),
            value == decimal_value(digits.take(i - start)),
        decreases text@.len() - i,
    {
        let byte = text[i];
        assert(digits[i - start] == byte);
        if byte < 0x30 || byte > 0x39 {
            assert(!is_digit(digits[i - start]));
            return None;
        }
        proof {
            assert(digits.take(i - start + 1).drop_last() == digits.take(i - start));
            assert(digits.take(i - start + 1).last() == byte);
        }
        let ghost next = 10 * value + (byte - 0x30);
        assert(next == decimal_value(digits.take(i - start + 1)));
        let grown = match value.checked_mul(10) {
            Some(tenfold) => tenfold.checked_add((byte - 0x30) as usize),
            None => None,
        };
        value = match grown {
            Some(v) => v,
            None => {
                proof {
                    assert(next > usize::MAX);
                    if forall|k: int| 0 <= k < digits.len() ==> is_digit(digits[k]) {
                        lemma_decimal_value_grows(digits, i - start + 1);
                        assert(decimal_value(digits) > usize::MAX);
                    }
                    assert(parse_usize_spec(text@) is None);
                }
                return None;
            },
        };
        i += 1;
    }
    assert(digits.take(digits.len() as int) == digits);
    Some(value)
}

} // verus!
