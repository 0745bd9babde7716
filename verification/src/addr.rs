//! Dotted-quad parsing: the textual form of an IPv4 address as four decimal
//! octets separated by dots, each at most 255 and without leading zeros.

use vstd::prelude::*;
use vstd::slice::slice_index_get;

use crate::codec::{address_of, decode_address};

verus! {

/// ASCII decimal digit.
pub open spec fn is_digit(c: u8) -> bool {
    0x30 <= c <= 0x39
}

/// The index of the first non-digit at or after `i`, or the length of `s`.
pub open spec fn digits_end(s: Seq<u8>, i: int) -> int
    decreases s.len() - i when 0 <= i <= s.len()
{
    if i < s.len() && is_digit(s[i]) {
        digits_end(s, i + 1)
    } else {
        i
    }
}

/// The value of the decimal digit run `s[i..j]`, most significant first.
pub open spec fn digits_val(s: Seq<u8>, i: int, j: int) -> int
    decreases j - i when i <= j
{
    if j <= i {
        0
    } else {
        digits_val(s, i, j - 1) * 10 + (s[j - 1] - 0x30)
    }
}

/// The digit run `s[i..j]` is a well-formed octet: one to three digits,
/// no leading zero unless it is exactly `0`, and value at most 255.
pub open spec fn octet_ok(s: Seq<u8>, i: int, j: int) -> bool {
    &&& i < j <= s.len()
    &&& j - i <= 3
    &&& (s[i] == 0x30 ==> j == i + 1)
    &&& digits_val(s, i, j) <= 255
}

/// The address a byte string denotes as a dotted quad, if it does: four
/// well-formed octets separated by single dots, with nothing before, after
/// or between them.
pub open spec fn quad_of(s: Seq<u8>) -> Option<u32> {
    let j0 = digits_end(s, 0);
    let j1 = digits_end(s, j0 + 1);
    let j2 = digits_end(s, j1 + 1);
    let j3 = digits_end(s, j2 + 1);
    if octet_ok(s, 0, j0) && j0 < s.len() && s[j0] == 0x2e && octet_ok(s, j0 + 1, j1) && j1
        < s.len() && s[j1] == 0x2e && octet_ok(s, j1 + 1, j2) && j2 < s.len() && s[j2] == 0x2e
        && octet_ok(s, j2 + 1, j3) && j3 == s.len() {
        Some(
            address_of(
                digits_val(s, 0, j0) as u8,
                digits_val(s, j0 + 1, j1) as u8,
                digits_val(s, j1 + 1, j2) as u8,
                digits_val(s, j2 + 1, j3) as u8,
            ),
        )
    } else {
        None
    }
}

/// A run of one to three digits has a small non-negative value.
proof fn lemma_digits_val_bound(s: Seq<u8>, i: int, j: int)
    requires
        0 <= i <= j <= s.len(),
        forall|k: int| i <= k < j ==> is_digit(s[k]),
    ensures
        0 <= digits_val(s, i, j),
        j - i == 1 ==> digits_val(s, i, j) <= 9,
        j - i == 2 ==> digits_val(s, i, j) <= 99,
        j - i == 3 ==> digits_val(s, i, j) <= 999,
    decreases j - i,
{
    if j > i {
        lemma_digits_val_bound(s, i, j - 1);
    }
}

/// The index of the first non-digit at or after `i`, computed.
fn scan_digits(s: &[u8], i: usize) -> (r: usize)
    requires
        i <= s@.len(),
    ensures
        r == digits_end(s@, i as int),
        i <= r <= s@.len(),
        forall|k: int| i <= k < r ==> is_digit(s@[k]),
{
    let mut j = i;
    while j < s.len() && *slice_index_get(s, j) >= 0x30 && *slice_index_get(s, j) <= 0x39
        invariant
            i <= j <= s@.len(),
            digits_end(s@, i as int) == digits_end(s@, j as int),
            forall|k: int| i <= k < j ==> is_digit(s@[k]),
        decreases s@.len() - j,
    {
        j = j + 1;
    }
    j
}

/// Parses the digit run `s[i..j]` as one octet; `None` exactly when the run
/// is not a well-formed octet.
fn parse_octet(s: &[u8], i: usize, j: usize) -> (r: Option<u8>)
    requires
        i <= j <= s@.len(),
        forall|k: int| i <= k < j ==> is_digit(s@[k]),
    ensures
        match r {
            Some(v) => octet_ok(s@, i as int, j as int) && v == digits_val(s@, i as int, j as int),
            None => !octet_ok(s@, i as int, j as int),
        },
{
    if i >= j || j - i > 3 {
        return None;
    }
    if *slice_index_get(s, i) == 0x30 && j - i > 1 {
        return None;
    }
    let mut v: u32 = 0;
    let mut k = i;
    proof {
        lemma_digits_val_bound(s@, i as int, j as int);
    }
    while k < j
        invariant
            i <= k <= j <= s@.len(),
            j - i <= 3,
            forall|m: int| i <= m < j ==> is_digit(s@[m]),
            v == digits_val(s@, i as int, k as int),
            v <= 999,
        decreases j - k,
    {
        proof {
            lemma_digits_val_bound(s@, i as int, k as int);
            lemma_digits_val_bound(s@, i as int, (k + 1) as int);
        }
        v = v * 10 + ((*slice_index_get(s, k)) - 0x30) as u32;
        k = k + 1;
    }
    if v > 255 {
        return None;
    }
    Some(v as u8)
}

/// Parses a byte string as a dotted-quad IPv4 address; `None` exactly when
/// the string is not one.
pub fn parse_quad(s: &[u8]) -> (r: Option<u32>)
    ensures
        r == quad_of(s@),
{
    let j0 = scan_digits(s, 0);
    let o0 = match parse_octet(s, 0, j0) {
        Some(v) => v,
        None => {
            return None;
        },
    };
    if j0 >= s.len() || *slice_index_get(s, j0) != 0x2e {
        return None;
    }
    let j1 = scan_digits(s, j0 + 1);
    let o1 = match parse_octet(s, j0 + 1, j1) {
        Some(v) => v,
        None => {
            return None;
        },
    };
    if j1 >= s.len() || *slice_index_get(s, j1) != 0x2e {
        return None;
    }
    let j2 = scan_digits(s, j1 + 1);
    let o2 = match parse_octet(s, j1 + 1, j2) {
        Some(v) => v,
        None => {
            return None;
        },
    };
    if j2 >= s.len() || *slice_index_get(s, j2) != 0x2e {
        return None;
    }
    let j3 = scan_digits(s, j2 + 1);
    let o3 = match parse_octet(s, j2 + 1, j3) {
        Some(v) => v,
        None => {
            return None;
        },
    };
    if j3 != s.len() {
        return None;
    }
    Some(decode_address(o0, o1, o2, o3))
}

} // verus!
