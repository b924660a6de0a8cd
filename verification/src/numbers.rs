//! Integers of 64 bits read as signed or unsigned, and sums that stop at the
//! ends of their range.

use vstd::prelude::*;

verus! {

/// An unsigned integer as the signed integer of the same 64 bits.
pub open spec fn signed(n: u64) -> i64 {
    if n <= i64::MAX {
        n as i64
    } else {
        (n - 0x1_0000_0000_0000_0000) as i64
    }
}

/// A signed integer as the unsigned integer of the same 64 bits.
pub open spec fn unsigned(n: i64) -> u64 {
    if n >= 0 {
        n as u64
    } else {
        (n + 0x1_0000_0000_0000_0000) as u64
    }
}

/// The signed integer of the same 64 bits.
pub fn to_signed(n: u64) -> (r: i64)
    ensures
        r == signed(n),
{
    assert(n > 0x7fff_ffff_ffff_ffff ==> (n as i64) as int == n - 0x1_0000_0000_0000_0000int)
        by (bit_vector);
    n as i64
}

/// The unsigned integer of the same 64 bits.
pub fn to_unsigned(n: i64) -> (r: u64)
    ensures
        r == unsigned(n),
{
    assert(n < 0 ==> (n as u64) as int == n + 0x1_0000_0000_0000_0000int) by (bit_vector);
    n as u64
}

/// Reading the 64 bits as signed and back changes nothing.
pub proof fn signed_and_back(n: u64)
    ensures
        unsigned(signed(n)) == n,
{
}

/// The sum, or the nearest integer of 64 signed bits.
pub open spec fn bounded_sum(a: i64, b: i64) -> i64 {
    if a + b > i64::MAX {
        i64::MAX
    } else if a + b < i64::MIN {
        i64::MIN
    } else {
        (a + b) as i64
    }
}

/// The sum, or the nearest integer of 64 signed bits.
pub fn sum_bounded(a: i64, b: i64) -> (r: i64)
    ensures
        r == bounded_sum(a, b),
{
    match a.checked_add(b) {
        Some(sum) => sum,
        None => if b >= 0 {
            i64::MAX
        } else {
            i64::MIN
        },
    }
}

/// The lesser of two integers.
pub open spec fn lesser(a: i64, b: i64) -> i64 {
    if b < a {
        b
    } else {
        a
    }
}

/// The lesser of two integers.
pub fn lesser_of(a: i64, b: i64) -> (r: i64)
    ensures
        r == lesser(a, b),
{
    if b < a {
        b
    } else {
        a
    }
}

} // verus!
