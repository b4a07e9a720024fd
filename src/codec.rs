use vstd::prelude::*;
use byteorder::ByteOrder;

verus! {

/// The number that four bytes stand for, least significant byte first.
pub open spec fn le_value(b: Seq<u8>) -> int {
    b[0] as int + 256 * (b[1] as int) + 65536 * (b[2] as int) + 16777216 * (b[3] as int)
}

/// The four bytes of `n`, least significant byte first.
pub open spec fn le_bytes(n: u32) -> Seq<u8> {
    seq![
        (n % 256) as u8,
        ((n / 256) % 256) as u8,
        ((n / 65536) % 256) as u8,
        ((n / 16777216) % 256) as u8,
    ]
}

/// Relies on byteorder's `LittleEndian::read_u32`: the first four bytes, least
/// significant first.
#[verifier::external_body]
fn read_le_u32(buf: &[u8; 4]) -> (r: u32)
    ensures
        r as int == le_value(buf@),
{
    byteorder::LittleEndian::read_u32(buf)
}

/// Relies on byteorder's `LittleEndian::write_u32`: the four bytes of `n`, least
/// significant first, written over the buffer.
#[verifier::external_body]
fn write_le_u32(n: u32) -> (r: [u8; 4])
    ensures
        r@ == le_bytes(n),
{
    let mut buf = [0u8; 4];
    byteorder::LittleEndian::write_u32(&mut buf, n);
    buf
}

/// The wire bytes of a float register value, in the order in which they go to
/// the four consecutive registers.
pub fn encode_float_bits(bits: u32) -> (r: [u8; 4])
    ensures
        r@ == le_bytes(bits),
        le_value(r@) == bits,
{
    let r = write_le_u32(bits);
    proof {
        lemma_le_value_of_bytes(bits);
    }
    r
}

/// The float register value that four wire bytes carry.
pub fn decode_float_bits(bytes: &[u8; 4]) -> (r: u32)
    ensures
        r as int == le_value(bytes@),
        le_bytes(r) == bytes@,
{
    let r = read_le_u32(bytes);
    proof {
        lemma_bytes_of_le_value(bytes@);
    }
    r
}

/// Reading back the bytes of `n` gives `n`.
pub proof fn lemma_le_value_of_bytes(n: u32)
    ensures
        le_value(le_bytes(n)) == n,
{
    let x = n as int;
    assert(le_value(le_bytes(n)) == x % 256 + 256 * ((x / 256) % 256) + 65536 * ((x / 65536) % 256)
        + 16777216 * ((x / 16777216) % 256));
    assert(x % 256 + 256 * ((x / 256) % 256) + 65536 * ((x / 65536) % 256) + 16777216 * ((x
        / 16777216) % 256) == x) by (nonlinear_arith)
        requires
            0 <= x < 4294967296,
    {
        vstd::arithmetic::div_mod::lemma_fundamental_div_mod(x, 256);
        vstd::arithmetic::div_mod::lemma_fundamental_div_mod(x / 256, 256);
        vstd::arithmetic::div_mod::lemma_fundamental_div_mod(x / 65536, 256);
        vstd::arithmetic::div_mod::lemma_div_denominator(x, 256, 256);
        vstd::arithmetic::div_mod::lemma_div_denominator(x, 65536, 256);
    }
}

/// Writing out the number that four bytes stand for gives the same bytes.
pub proof fn lemma_bytes_of_le_value(b: Seq<u8>)
    requires
        b.len() == 4,
    ensures
        0 <= le_value(b) < 4294967296,
        le_bytes(le_value(b) as u32) == b,
{
    let (b0, b1, b2, b3) = (b[0] as int, b[1] as int, b[2] as int, b[3] as int);
    let x = le_value(b);
    assert(0 <= x < 4294967296);
    assert(x % 256 == b0 && (x / 256) % 256 == b1 && (x / 65536) % 256 == b2 && (x / 16777216)
        % 256 == b3) by (nonlinear_arith)
        requires
            x == b0 + 256 * b1 + 65536 * b2 + 16777216 * b3,
            0 <= b0 < 256,
            0 <= b1 < 256,
            0 <= b2 < 256,
            0 <= b3 < 256,
    {
        vstd::arithmetic::div_mod::lemma_div_multiples_vanish_fancy(b1 + 256 * b2 + 65536 * b3, b0, 256);
    }
    assert(le_bytes(x as u32) =~= b);
}

} // verus!
