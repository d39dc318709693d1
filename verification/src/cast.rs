//! Conversions between integer types that keep the low bits.
use vstd::prelude::*;

verus! {

/// The number of 32 bits, signed, that has the same low bits as `n`.
pub open spec fn low_i32(n: int) -> i32 {
    let low = n % 0x1_0000_0000;
    if low >= 0x8000_0000 {
        (low - 0x1_0000_0000) as i32
    } else {
        low as i32
    }
}

/// The number of 64 bits, unsigned, that has the same bits as `n`.
pub open spec fn bits_u64(n: i64) -> u64 {
    if n >= 0 {
        n as u64
    } else {
        (n + 0x1_0000_0000_0000_0000) as u64
    }
}

/// What is cut off are whole multiples of what the type can tell apart, and a number that the type
/// holds stays as it is.
pub proof fn law_low_bits_stay(n: int, m: i64)
    ensures
        (n - low_i32(n)) % 0x1_0000_0000 == 0,
        i32::MIN <= n <= i32::MAX ==> low_i32(n) == n,
        (bits_u64(m) - m) % 0x1_0000_0000_0000_0000 == 0,
        m >= 0 ==> bits_u64(m) == m,
        m < 0 ==> bits_u64(m) > i64::MAX,
{
}

/// Computes [`low_i32`] of a size.
pub fn size_to_i32(n: usize) -> (r: i32)
    ensures
        r == low_i32(n as int),
        n <= i32::MAX ==> r == n,
{
    let low: i64 = (n as u64 % 0x1_0000_0000) as i64;
    if low >= 0x8000_0000 {
        (low - 0x1_0000_0000) as i32
    } else {
        low as i32
    }
}

/// Computes [`low_i32`] of a dimension.
pub fn dim_to_i32(n: i64) -> (r: i32)
    ensures
        r == low_i32(n as int),
        i32::MIN <= n <= i32::MAX ==> r == n,
{
    let low: i64 = ((n as i128 + 0x1_0000_0000_0000_0000) % 0x1_0000_0000) as i64;
    if low >= 0x8000_0000 {
        (low - 0x1_0000_0000) as i32
    } else {
        low as i32
    }
}

/// Computes [`bits_u64`].
pub fn to_bits_u64(n: i64) -> (r: u64)
    ensures
        r == bits_u64(n),
{
    if n >= 0 {
        n as u64
    } else {
        (n as i128 + 0x1_0000_0000_0000_0000) as u64
    }
}

} // verus!
