//! Small character and comparison helpers.
use vstd::prelude::*;
use vstd::std_specs::cmp::PartialOrdSpec;

verus! {

/// The ASCII upper-case form of a lower-case ASCII letter.
pub open spec fn upper_spec(c: u8) -> u8 {
    if 97 <= c && c <= 122 {
        (c - 32) as u8
    } else {
        c
    }
}

/// Whether `c` is an ASCII letter or digit.
pub open spec fn alphanumeric_spec(c: char) -> bool {
    ('a' <= c && c <= 'z') || ('A' <= c && c <= 'Z') || ('0' <= c && c <= '9')
}

/// Upper-cases an ASCII letter given as a byte; other bytes are returned as they are.
pub fn _uppercase2(c: u8) -> (r: u8)
    ensures
        r == upper_spec(c),
{
    match c {
        97u8..=122u8 => c - 32,
        _ => c,
    }
}

/// Upper-cases an ASCII letter given as a byte; other bytes are returned as they are.
pub fn uppercase(c: u8) -> (r: u8)
    ensures
        r == upper_spec(c),
{
    if 97 <= c && c <= 122 {
        c - 32
    } else {
        c
    }
}

/// Whether `c` is an ASCII letter or an ASCII digit.
pub fn is_alphanumeric(c: char) -> (r: bool)
    ensures
        r == alphanumeric_spec(c),
{
    match c {
        'a'..='z' | 'A'..='Z' | '0'..='9' => true,
        _ => false,
    }
}

/// The greater of two values: `a` when it compares greater than `b`, else `b`.
pub fn max<T: PartialOrd>(a: T, b: T) -> (r: T)
    ensures
        T::obeys_partial_cmp_spec() ==> r == (if a.partial_cmp_spec(&b) == Some(
            core::cmp::Ordering::Greater,
        ) {
            a
        } else {
            b
        }),
{
    if a > b {
        a
    } else {
        b
    }
}

} // verus!
