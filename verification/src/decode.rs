//! Decoding of the packed integer scheme that hides an extension's numeric id
//! and an enum offset inside ordinary enum constant values.
//!
//! The convention: an extension-scoped enum constant carries the value
//! `1_000_000_000 + extension_id * 1000 + offset`, so decoding subtracts the
//! base and splits the rest with division and remainder by 1000.

use vstd::prelude::*;

verus! {

/// The fixed base that extension-scoped enum constant values are offset by.
pub const ENUM_VALUE_BASE: i64 = 1_000_000_000;

/// Truncating (round-toward-zero) integer division, the way `/` behaves on
/// `i64`. Intended for a positive divisor.
pub open spec fn trunc_div(a: int, b: int) -> int {
    if a >= 0 {
        a / b
    } else {
        -((-a) / b)
    }
}

/// The remainder matching [`trunc_div`], the way `%` behaves on `i64`.
pub open spec fn trunc_rem(a: int, b: int) -> int {
    a - b * trunc_div(a, b)
}

/// The extension id packed into the enum constant value `v`.
pub open spec fn spec_extension_id(v: int) -> int {
    trunc_div(v - ENUM_VALUE_BASE as int, 1000)
}

/// The within-extension offset packed into the enum constant value `v`.
pub open spec fn spec_extension_offset(v: int) -> int {
    trunc_rem(v - ENUM_VALUE_BASE as int, 1000)
}

/// Splits an enum constant value into `(extension id, offset)` per the
/// base-1,000,000,000 convention.
pub fn decode_enum_value(v: i64) -> (r: (i64, i64))
    ensures
        r.0 as int == spec_extension_id(v as int),
        r.1 as int == spec_extension_offset(v as int),
{
    if v >= ENUM_VALUE_BASE {
        let n: u64 = (v - ENUM_VALUE_BASE) as u64;
        let e: u64 = n / 1000;
        let o: u64 = n % 1000;
        proof {
            vstd::arithmetic::div_mod::lemma_fundamental_div_mod(n as int, 1000);
            vstd::arithmetic::div_mod::lemma_mod_division_less_than_divisor(n as int, 1000);
        }
        (e as i64, o as i64)
    } else {
        let m: u64 = ((ENUM_VALUE_BASE as i128) - (v as i128)) as u64;
        let e: u64 = m / 1000;
        let o: u64 = m % 1000;
        proof {
            vstd::arithmetic::div_mod::lemma_fundamental_div_mod(m as int, 1000);
            vstd::arithmetic::div_mod::lemma_mod_division_less_than_divisor(m as int, 1000);
        }
        (-(e as i64), -(o as i64))
    }
}

/// Law: decoding an enum constant value and re-encoding the parts as
/// `extension_id * 1000 + offset + 1_000_000_000` reconstructs the value
/// exactly, for every value at or above the base.
pub proof fn lemma_decode_encode_round_trip(v: int)
    requires
        v >= ENUM_VALUE_BASE as int,
    ensures
        spec_extension_id(v) * 1000 + spec_extension_offset(v) + ENUM_VALUE_BASE as int == v,
{
    vstd::arithmetic::div_mod::lemma_fundamental_div_mod(v - ENUM_VALUE_BASE as int, 1000);
}

} // verus!
