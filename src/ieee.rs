use vstd::prelude::*;
use vstd::arithmetic::power2::{pow2, lemma_pow2_adds, lemma2_to64, lemma_pow2_pos, lemma_pow2_strictly_increases};
use vstd::arithmetic::div_mod::{lemma_fundamental_div_mod_converse, lemma_fundamental_div_mod, lemma_div_denominator};

verus! {

// A 32-bit float is carried as its IEEE-754 single-precision bit pattern:
// one sign bit, eight exponent bits, twenty-three mantissa bits.

/// The bit pattern of the quiet not-a-number that marks an undefined value.
pub const NAN_BITS: u32 = 0x7fc0_0000;

/// The bit pattern of `-1.0`, the marker of an invalid pH reading.
pub const MINUS_ONE_BITS: u32 = 0xbf80_0000;

/// The bit pattern of `1.0`.
pub const ONE_BITS: u32 = 0x3f80_0000;

/// The bit pattern of `6.0`.
pub const SIX_BITS: u32 = 0x40c0_0000;

/// The bit pattern of `8.0`.
pub const EIGHT_BITS: u32 = 0x4100_0000;

/// The bit pattern of `14.0`.
pub const FOURTEEN_BITS: u32 = 0x4160_0000;

/// The bit pattern of `15.0`.
pub const FIFTEEN_BITS: u32 = 0x4170_0000;

/// The bit pattern of `35.0`.
pub const THIRTY_FIVE_BITS: u32 = 0x420c_0000;

/// The sign bit: 1 for negative patterns.
pub open spec fn sign_of(b: u32) -> int {
    b as int / 0x8000_0000
}

/// The eight biased exponent bits.
pub open spec fn exponent_of(b: u32) -> int {
    (b as int / 0x80_0000) % 256
}

/// The twenty-three fraction bits.
pub open spec fn mantissa_of(b: u32) -> int {
    b as int % 0x80_0000
}

/// Not a number: all exponent bits set and a non-zero fraction.
pub open spec fn is_nan(b: u32) -> bool {
    exponent_of(b) == 255 && mantissa_of(b) != 0
}

/// An infinity of either sign: all exponent bits set and a zero fraction.
pub open spec fn is_infinite(b: u32) -> bool {
    exponent_of(b) == 255 && mantissa_of(b) == 0
}

/// Zero, subnormal or normal: not all exponent bits set.
pub open spec fn is_finite(b: u32) -> bool {
    exponent_of(b) != 255
}

/// A key whose integer order is the order of the floats, for every pattern that
/// is not a NaN: the magnitude bits, negated when the sign bit is set (so that
/// both zeros get key 0).
pub open spec fn order_key(b: u32) -> int {
    if sign_of(b) == 1 {
        -(b as int % 0x8000_0000)
    } else {
        b as int
    }
}

/// `a >= c` between floats: false when either is a NaN.
pub open spec fn float_ge(a: u32, c: u32) -> bool {
    !is_nan(a) && !is_nan(c) && order_key(a) >= order_key(c)
}

/// `a <= c` between floats: false when either is a NaN.
pub open spec fn float_le(a: u32, c: u32) -> bool {
    !is_nan(a) && !is_nan(c) && order_key(a) <= order_key(c)
}

/// `a > c` between floats: false when either is a NaN.
pub open spec fn float_gt(a: u32, c: u32) -> bool {
    !is_nan(a) && !is_nan(c) && order_key(a) > order_key(c)
}

/// The pattern `b` holds exactly the integer `n`: zero is the positive zero, any
/// other integer is a normal number whose value
/// `(2^23 + mantissa) * 2^(exponent - 150)` has the magnitude of `n`.
pub open spec fn encodes_int(b: u32, n: int) -> bool {
    if n == 0 {
        b == 0
    } else {
        &&& sign_of(b) == (if n < 0 { 1int } else { 0int })
        &&& 1 <= exponent_of(b) <= 254
        &&& (0x80_0000 + mantissa_of(b)) * pow2(exponent_of(b) as nat) == (if n < 0 { -n } else {
            n
        }) * pow2(150)
    }
}

/// The pattern of a positive integer below 2^24 whose highest set bit is bit `k`.
pub open spec fn positive_int_bits(n: int, k: nat) -> int {
    (127 + k) * 0x80_0000 + (n - pow2(k)) * pow2((23 - k) as nat)
}

/// `positive_int_bits` holds the integer `n`.
pub proof fn lemma_positive_int_bits(n: int, k: nat)
    requires
        k <= 23,
        pow2(k) <= n < pow2(k + 1),
    ensures
        0 < positive_int_bits(n, k) < 0x8000_0000,
        encodes_int(positive_int_bits(n, k) as u32, n),
{
    let p = pow2(k) as int;
    let q = pow2((23 - k) as nat) as int;
    let b = positive_int_bits(n, k);
    lemma_pow2_adds(k, (23 - k) as nat);
    lemma_pow2_adds(k, 1);
    lemma2_to64();
    lemma_pow2_pos(k);
    lemma_pow2_pos((23 - k) as nat);
    assert(p * q == 0x80_0000);
    assert(pow2(k + 1) == p * 2);
    let m = (n - p) * q;
    assert(0 <= m < 0x80_0000) by (nonlinear_arith)
        requires
            m == (n - p) * q,
            0 <= n - p < p,
            p * q == 0x80_0000,
            q > 0,
    ;
    lemma_fundamental_div_mod_converse(b, 0x80_0000, 127 + k as int, m);
    assert(b / 0x8000_0000 == 0);
    assert(b as u32 as int == b);
    assert(exponent_of(b as u32) == 127 + k);
    assert(mantissa_of(b as u32) == m);
    assert(0x80_0000 + m == n * q) by (nonlinear_arith)
        requires
            m == (n - p) * q,
            p * q == 0x80_0000,
    ;
    lemma_pow2_adds((23 - k) as nat, (127 + k) as nat);
    assert((n * q) * pow2((127 + k) as nat) == n * pow2(150)) by (nonlinear_arith)
        requires
            q * pow2((127 + k) as nat) == pow2(150),
    ;
}

/// A pattern is fixed by its sign, exponent and mantissa.
proof fn lemma_fields_determine(b1: u32, b2: u32)
    requires
        sign_of(b1) == sign_of(b2),
        exponent_of(b1) == exponent_of(b2),
        mantissa_of(b1) == mantissa_of(b2),
    ensures
        b1 == b2,
{
    let (x1, x2) = (b1 as int, b2 as int);
    lemma_fundamental_div_mod(x1, 0x80_0000);
    lemma_fundamental_div_mod(x2, 0x80_0000);
    lemma_fundamental_div_mod(x1 / 0x80_0000, 256);
    lemma_fundamental_div_mod(x2 / 0x80_0000, 256);
    lemma_div_denominator(x1, 0x80_0000, 256);
    lemma_div_denominator(x2, 0x80_0000, 256);
}

/// Two patterns that hold the same integer are the same pattern.
pub proof fn lemma_encodes_int_unique(b1: u32, b2: u32, n: int)
    requires
        encodes_int(b1, n),
        encodes_int(b2, n),
    ensures
        b1 == b2,
{
    if n != 0 {
        let (e1, e2) = (exponent_of(b1), exponent_of(b2));
        let (m1, m2) = (mantissa_of(b1), mantissa_of(b2));
        if e1 != e2 {
            let (lo, hi, mlo, mhi) = if e1 < e2 {
                (e1, e2, m1, m2)
            } else {
                (e2, e1, m2, m1)
            };
            let d = (hi - lo) as nat;
            lemma_pow2_adds(lo as nat, d);
            lemma_pow2_pos(lo as nat);
            lemma_pow2_pos(d);
            if d == 0 {
            } else {
                lemma_pow2_adds(1, (d - 1) as nat);
                lemma_pow2_pos((d - 1) as nat);
                lemma2_to64();
            }
            assert(pow2(d) >= 2);
            let pl = pow2(lo as nat) as int;
            let pd = pow2(d) as int;
            assert((0x80_0000 + mlo) * pl == (0x80_0000 + mhi) * (pl * pd));
            assert(false) by (nonlinear_arith)
                requires
                    (0x80_0000 + mlo) * pl == (0x80_0000 + mhi) * (pl * pd),
                    pl > 0,
                    pd >= 2,
                    0 <= mlo < 0x80_0000,
                    0 <= mhi,
            ;
        }
        lemma_pow2_pos(e1 as nat);
        assert(m1 == m2) by (nonlinear_arith)
            requires
                (0x80_0000 + m1) * pow2(e1 as nat) == (0x80_0000 + m2) * pow2(e1 as nat),
                pow2(e1 as nat) > 0,
        ;
        lemma_fields_determine(b1, b2);
    }
}

/// The patterns named in this module hold the numbers that their names say.
pub proof fn lemma_named_patterns()
    ensures
        encodes_int(ONE_BITS, 1),
        encodes_int(SIX_BITS, 6),
        encodes_int(EIGHT_BITS, 8),
        encodes_int(FOURTEEN_BITS, 14),
        encodes_int(FIFTEEN_BITS, 15),
        encodes_int(THIRTY_FIVE_BITS, 35),
        encodes_int(MINUS_ONE_BITS, -1),
        is_nan(NAN_BITS),
{
    lemma2_to64();
    lemma_positive_int_bits(1, 0);
    lemma_positive_int_bits(6, 2);
    lemma_positive_int_bits(8, 3);
    lemma_positive_int_bits(14, 3);
    lemma_positive_int_bits(15, 3);
    lemma_positive_int_bits(35, 5);
    assert(encodes_int(MINUS_ONE_BITS, -1));
}

/// Whether `b` is a NaN (`f32::is_nan`).
pub fn bits_is_nan(b: u32) -> (r: bool)
    ensures
        r == is_nan(b),
{
    (b / 0x80_0000) % 256 == 255 && b % 0x80_0000 != 0
}

/// Whether `b` is an infinity (`f32::is_infinite`).
pub fn bits_is_infinite(b: u32) -> (r: bool)
    ensures
        r == is_infinite(b),
{
    (b / 0x80_0000) % 256 == 255 && b % 0x80_0000 == 0
}

/// Whether `b` is neither a NaN nor an infinity (`f32::is_finite`).
pub fn bits_is_finite(b: u32) -> (r: bool)
    ensures
        r == is_finite(b),
{
    (b / 0x80_0000) % 256 != 255
}

fn key(b: u32) -> (r: i64)
    ensures
        r == order_key(b),
{
    if b >= 0x8000_0000 {
        -((b % 0x8000_0000) as i64)
    } else {
        b as i64
    }
}

/// `a >= c` on the floats that the patterns hold.
pub fn bits_ge(a: u32, c: u32) -> (r: bool)
    ensures
        r == float_ge(a, c),
{
    !bits_is_nan(a) && !bits_is_nan(c) && key(a) >= key(c)
}

/// `a <= c` on the floats that the patterns hold.
pub fn bits_le(a: u32, c: u32) -> (r: bool)
    ensures
        r == float_le(a, c),
{
    !bits_is_nan(a) && !bits_is_nan(c) && key(a) <= key(c)
}

/// `a > c` on the floats that the patterns hold.
pub fn bits_gt(a: u32, c: u32) -> (r: bool)
    ensures
        r == float_gt(a, c),
{
    !bits_is_nan(a) && !bits_is_nan(c) && key(a) > key(c)
}

/// The pattern of `n` as a float (`n as f32`); every byte value is exact.
pub fn byte_to_float_bits(n: u8) -> (r: u32)
    ensures
        encodes_int(r, n as int),
{
    if n == 0 {
        return 0;
    }
    let mut k: u32 = 0;
    let mut p: u32 = 1;
    let mut q: u32 = 0x80_0000;
    proof {
        lemma2_to64();
    }
    while p <= n as u32 / 2
        invariant
            k <= 7,
            p == pow2(k as nat),
            q == pow2((23 - k) as nat),
            1 <= p <= n,
            1 <= n <= 255,
        decreases 255 - p,
    {
        proof {
            lemma_pow2_adds(k as nat, 1);
            lemma_pow2_adds((22 - k) as nat, 1);
            lemma2_to64();
            if k >= 7 {
                assert(p >= 128);
                assert(false);
            }
        }
        p = p * 2;
        q = q / 2;
        k = k + 1;
    }
    proof {
        lemma_pow2_adds(k as nat, 1);
        lemma_pow2_adds(k as nat, (23 - k) as nat);
        lemma2_to64();
        lemma_positive_int_bits(n as int, k as nat);
        assert(p * q == 0x80_0000);
        assert((n - p) * q < 0x80_0000) by (nonlinear_arith)
            requires
                n - p < p,
                p * q == 0x80_0000,
                q > 0,
        ;
    }
    (127 + k) * 0x80_0000 + (n as u32 - p) * q
}

/// The significand of a finite pattern: the value is
/// `significand * 2^(scale - 150)`.
pub open spec fn significand_of(b: u32) -> int {
    if exponent_of(b) == 0 {
        mantissa_of(b)
    } else {
        0x80_0000 + mantissa_of(b)
    }
}

/// The exponent that scales the significand; subnormals share the smallest
/// normal one.
pub open spec fn scale_of(b: u32) -> int {
    if exponent_of(b) == 0 {
        1
    } else {
        exponent_of(b)
    }
}

/// The magnitude of a finite pattern rounded to the nearest integer, halfway
/// cases away from zero: `floor(|x| + 1/2)`.
pub open spec fn rounded_magnitude(b: u32) -> int {
    let sig = significand_of(b);
    let e = scale_of(b);
    if e >= 150 {
        sig * pow2((e - 150) as nat)
    } else {
        (sig + pow2((149 - e) as nat)) / (pow2((150 - e) as nat) as int)
    }
}

/// `x` clamped to the range of `i32`.
pub open spec fn saturate_i32(x: int) -> int {
    if x < i32::MIN {
        i32::MIN as int
    } else if x > i32::MAX {
        i32::MAX as int
    } else {
        x
    }
}

/// A float rounded to the nearest integer (halfway cases away from zero) and
/// then converted to `i32` as Rust's `as` does: saturating at both ends, NaN
/// giving 0.
pub open spec fn round_to_i32_spec(b: u32) -> int {
    if is_nan(b) {
        0
    } else if is_infinite(b) {
        if sign_of(b) == 1 {
            i32::MIN as int
        } else {
            i32::MAX as int
        }
    } else if sign_of(b) == 1 {
        saturate_i32(-rounded_magnitude(b))
    } else {
        saturate_i32(rounded_magnitude(b))
    }
}

/// `2^k`.
fn pow2_u64(k: u32) -> (r: u64)
    requires
        k < 64,
    ensures
        r == pow2(k as nat),
{
    let mut r: u64 = 1;
    let mut i: u32 = 0;
    proof {
        lemma2_to64();
    }
    while i < k
        invariant
            i <= k < 64,
            r == pow2(i as nat),
        decreases k - i,
    {
        proof {
            lemma_pow2_adds(i as nat, 1);
            lemma2_to64();
            lemma_pow2_strictly_increases((i + 1) as nat, 64);
        }
        r = r * 2;
        i = i + 1;
    }
    r
}

/// `b` rounded to the nearest integer and converted to `i32`
/// (`x.round() as i32`).
pub fn round_to_i32(b: u32) -> (r: i32)
    ensures
        r == round_to_i32_spec(b),
{
    let negative = b >= 0x8000_0000;
    if bits_is_nan(b) {
        return 0;
    }
    if bits_is_infinite(b) {
        return if negative {
            i32::MIN
        } else {
            i32::MAX
        };
    }
    let exp = (b / 0x80_0000) % 256;
    let man = (b % 0x80_0000) as u64;
    let sig: u64 = if exp == 0 {
        man
    } else {
        0x80_0000 + man
    };
    let e: u32 = if exp == 0 {
        1
    } else {
        exp
    };
    proof {
        lemma2_to64();
    }
    let mag: u64;
    if e >= 158 {
        proof {
            lemma_pow2_adds(8, (e - 158) as nat);
            lemma_pow2_pos((e - 158) as nat);
            assert(sig * pow2((e - 150) as nat) >= 0x80_0000 * 256) by (nonlinear_arith)
                requires
                    sig >= 0x80_0000,
                    pow2((e - 150) as nat) == 256 * pow2((e - 158) as nat),
                    pow2((e - 158) as nat) >= 1,
            ;
        }
        return if negative {
            i32::MIN
        } else {
            i32::MAX
        };
    } else if e >= 150 {
        let p = pow2_u64(e - 150);
        proof {
            if e < 157 {
                lemma_pow2_strictly_increases((e - 150) as nat, 7);
            }
            assert(sig * p < 0x100_0000 * 128) by (nonlinear_arith)
                requires
                    sig < 0x100_0000,
                    p <= 128,
            ;
        }
        mag = sig * p;
    } else if e < 125 {
        proof {
            lemma_pow2_adds(1, (149 - e) as nat);
            if e < 124 {
                lemma_pow2_strictly_increases(24, (149 - e) as nat);
            }
            assert(pow2((150 - e) as nat) == 2 * pow2((149 - e) as nat));
            assert(sig + pow2((149 - e) as nat) < pow2((150 - e) as nat));
            vstd::arithmetic::div_mod::lemma_basic_div(
                sig + pow2((149 - e) as nat),
                pow2((150 - e) as nat) as int,
            );
        }
        mag = 0;
    } else {
        let half = pow2_u64(149 - e);
        let whole = pow2_u64(150 - e);
        proof {
            if e > 125 {
                lemma_pow2_strictly_increases((149 - e) as nat, 24);
            }
        }
        mag = (sig + half) / whole;
        proof {
            lemma_pow2_pos((150 - e) as nat);
            assert(mag <= sig + half);
        }
    }
    if negative {
        (-(mag as i64)) as i32
    } else {
        mag as i32
    }
}

} // verus!
