use vstd::prelude::*;
use crate::ieee::{
    is_finite, float_ge, float_gt, float_le, is_nan, is_infinite, bits_is_finite, bits_is_nan,
    bits_is_infinite, bits_ge, bits_gt, bits_le, NAN_BITS, MINUS_ONE_BITS, SIX_BITS, EIGHT_BITS,
    FOURTEEN_BITS, FIFTEEN_BITS, THIRTY_FIVE_BITS, round_to_i32, round_to_i32_spec,
};

verus! {

// The pH rules that sit around the float arithmetic of a reading: which raw
// voltages count, how far the temperature correction goes and in which
// direction, and which results count as a pH at all.

/// A millivolt reading as reported: NaN and the infinities become the NaN marker.
pub open spec fn normalized_mv_spec(mv: u32) -> u32 {
    if is_nan(mv) || is_infinite(mv) {
        NAN_BITS
    } else {
        mv
    }
}

/// A pH result as reported: anything outside `(0, 14]`, NaN and the infinities
/// become the invalid-reading marker `-1.0`.
pub open spec fn validated_ph_spec(ph: u32) -> u32 {
    if is_finite(ph) && float_gt(ph, 0) && float_le(ph, FOURTEEN_BITS) {
        ph
    } else {
        MINUS_ONE_BITS
    }
}

/// The correction runs against the drift of alkaline readings when hot and of
/// acidic readings when cold.
pub open spec fn correction_is_negative_spec(ph: u32, temp: u32) -> bool {
    (float_ge(ph, EIGHT_BITS) && float_ge(temp, THIRTY_FIVE_BITS)) || (float_le(ph, SIX_BITS)
        && float_le(temp, FIFTEEN_BITS))
}

pub open spec fn abs_int(x: int) -> int {
    if x < 0 {
        -x
    } else {
        x
    }
}

/// Whole pH units between the rounded reading and neutral 7.
pub open spec fn distance_from_7_spec(ph_rounded: int) -> int {
    abs_int(7 - ph_rounded)
}

/// Whole tens of degrees between the rounded temperature and 25 C.
pub open spec fn distance_from_25_spec(temp_rounded: int) -> int {
    abs_int(25 - temp_rounded) / 10
}

/// The number of correction factors (0.03 pH each) that a reading receives.
pub open spec fn correction_steps_spec(ph_rounded: int, temp_rounded: int) -> int {
    distance_from_25_spec(temp_rounded) * distance_from_7_spec(ph_rounded)
}

/// The temperature correction of a pH reading, before it is scaled by the
/// correction factor.
#[derive(Clone, Copy, Debug, PartialEq, Eq, Structural)]
pub enum Correction {
    /// The pH or the temperature is not a finite number: the corrected reading
    /// is not a number either.
    Undefined,
    /// Add `steps` times the correction factor, or subtract it when `negative`.
    Offset { steps: u64, negative: bool },
}

pub fn normalized_mv(mv: u32) -> (r: u32)
    ensures
        r == normalized_mv_spec(mv),
{
    if bits_is_nan(mv) || bits_is_infinite(mv) {
        NAN_BITS
    } else {
        mv
    }
}

pub fn validated_ph(ph: u32) -> (r: u32)
    ensures
        r == validated_ph_spec(ph),
        !is_finite(ph) ==> r == MINUS_ONE_BITS,
        float_le(ph, 0) ==> r == MINUS_ONE_BITS,
        float_gt(ph, FOURTEEN_BITS) ==> r == MINUS_ONE_BITS,
        float_gt(ph, 0) && float_le(ph, FOURTEEN_BITS) ==> r == ph,
{
    if bits_is_finite(ph) && bits_gt(ph, 0) && bits_le(ph, FOURTEEN_BITS) {
        ph
    } else {
        MINUS_ONE_BITS
    }
}

pub fn correction_is_negative(ph: u32, temp: u32) -> (r: bool)
    ensures
        r == correction_is_negative_spec(ph, temp),
{
    (bits_ge(ph, EIGHT_BITS) && bits_ge(temp, THIRTY_FIVE_BITS)) || (bits_le(ph, SIX_BITS)
        && bits_le(temp, FIFTEEN_BITS))
}

pub fn distance_from_7(ph_rounded: i32) -> (r: u64)
    ensures
        r == distance_from_7_spec(ph_rounded as int),
{
    let d: i64 = 7 - ph_rounded as i64;
    if d < 0 {
        (-d) as u64
    } else {
        d as u64
    }
}

pub fn distance_from_25(temp_rounded: i32) -> (r: u64)
    ensures
        r == distance_from_25_spec(temp_rounded as int),
        r <= 214748368,
{
    let d: i64 = 25 - temp_rounded as i64;
    let a: u64 = if d < 0 {
        (-d) as u64
    } else {
        d as u64
    };
    a / 10
}

/// The temperature correction for a reading `ph` taken at `temp` (both as float
/// patterns).
pub fn temperature_correction(ph: u32, temp: u32) -> (r: Correction)
    ensures
        !is_finite(ph) || !is_finite(temp) ==> r == Correction::Undefined,
        is_finite(ph) && is_finite(temp) ==> r == (Correction::Offset {
            steps: correction_steps_spec(round_to_i32_spec(ph), round_to_i32_spec(temp)) as u64,
            negative: correction_is_negative_spec(ph, temp),
        }),
        is_finite(ph) && is_finite(temp) ==> 0 <= correction_steps_spec(
            round_to_i32_spec(ph),
            round_to_i32_spec(temp),
        ) <= u64::MAX,
{
    if !bits_is_finite(ph) || !bits_is_finite(temp) {
        return Correction::Undefined;
    }
    let d7 = distance_from_7(round_to_i32(ph));
    let d25 = distance_from_25(round_to_i32(temp));
    assert(d25 * d7 <= 214748368 * 2147483655) by (nonlinear_arith)
        requires
            d25 <= 214748368,
            d7 <= 2147483655,
    ;
    Correction::Offset { steps: d25 * d7, negative: correction_is_negative(ph, temp) }
}

} // verus!
