//! Little-endian integers and their byte encodings, stated arithmetically.
use vstd::prelude::*;

verus! {

/// The two little-endian bytes of `x`.
pub open spec fn le16(x: u16) -> Seq<u8> {
    seq![(x % 256) as u8, (x / 256) as u8]
}

/// The four little-endian bytes of `x`.
pub open spec fn le32(x: u32) -> Seq<u8> {
    seq![
        (x % 256) as u8,
        ((x / 256) % 256) as u8,
        ((x / 65536) % 256) as u8,
        (x / 16777216) as u8,
    ]
}

/// The eight little-endian bytes of `x`.
pub open spec fn le64(x: u64) -> Seq<u8> {
    le32((x % 0x1_0000_0000) as u32) + le32((x / 0x1_0000_0000) as u32)
}

/// The unsigned value of two little-endian bytes.
pub open spec fn u16_of(s: Seq<u8>) -> u16 {
    (s[0] + 256 * s[1]) as u16
}

/// The unsigned value of four little-endian bytes.
pub open spec fn u32_of(s: Seq<u8>) -> u32 {
    (s[0] + 256 * s[1] + 65536 * s[2] + 16777216 * s[3]) as u32
}

/// The unsigned value of eight little-endian bytes.
pub open spec fn u64_of(s: Seq<u8>) -> u64 {
    (u32_of(s.subrange(0, 4)) + 0x1_0000_0000 * u32_of(s.subrange(4, 8))) as u64
}

/// The value of three little-endian bytes, sign-extended from bit 23.
pub open spec fn i24_of(s: Seq<u8>) -> i32 {
    let v = s[0] + 256 * s[1] + 65536 * s[2];
    if s[2] >= 128 {
        (v - 0x100_0000) as i32
    } else {
        v as i32
    }
}

/// The two's complement bits of `x`.
pub open spec fn bits32(x: i32) -> u32 {
    if x < 0 {
        (x + 0x1_0000_0000) as u32
    } else {
        x as u32
    }
}

/// The signed value of 32 two's complement bits.
pub open spec fn signed32(u: u32) -> i32 {
    if u >= 0x8000_0000 {
        (u - 0x1_0000_0000) as i32
    } else {
        u as i32
    }
}

/// The signed value of 16 two's complement bits.
pub open spec fn signed16(u: u16) -> i32 {
    if u >= 0x8000 {
        (u - 0x1_0000) as i32
    } else {
        u as i32
    }
}

/// The low three little-endian bytes of `x`.
pub open spec fn le24(x: i32) -> Seq<u8> {
    le32(bits32(x)).subrange(0, 3)
}

pub proof fn lemma_u16_round_trip(x: u16)
    ensures
        le16(x).len() == 2,
        u16_of(le16(x)) == x,
{
}

pub proof fn lemma_u32_round_trip(x: u32)
    ensures
        le32(x).len() == 4,
        u32_of(le32(x)) == x,
{
    assert(x % 256 + 256 * ((x / 256) % 256) + 65536 * ((x / 65536) % 256) + 16777216 * (x / 16777216) == x)
        by (bit_vector);
}

/// Sixteen bits of two's complement give back any value of that width.
pub proof fn lemma_i16_round_trip(x: i32)
    requires
        -0x8000 <= x < 0x8000,
    ensures
        signed16((bits32(x) % 0x1_0000) as u16) == x,
{
    if x < 0 {
        vstd::arithmetic::div_mod::lemma_mod_multiples_vanish(0x1_0000, x + 0x1_0000, 0x1_0000);
    }
}

/// Eight bits of two's complement, rebased by 128, give back any value of
/// that width.
pub proof fn lemma_i8_round_trip(x: i32)
    requires
        -128 <= x < 128,
    ensures
        ((bits32(x) + 128) % 256) as u8 - 128 == x,
{
    if x < 0 {
        vstd::arithmetic::div_mod::lemma_mod_multiples_vanish(0x100_0000, x + 128, 256);
    }
}

pub proof fn lemma_u64_round_trip(x: u64)
    ensures
        le64(x).len() == 8,
        u64_of(le64(x)) == x,
{
    let lo = (x % 0x1_0000_0000) as u32;
    let hi = (x / 0x1_0000_0000) as u32;
    lemma_u32_round_trip(lo);
    lemma_u32_round_trip(hi);
    assert(le64(x).subrange(0, 4) =~= le32(lo));
    assert(le64(x).subrange(4, 8) =~= le32(hi));
}

/// Three bytes read back sign-extended give any value of 24 signed bits.
pub proof fn lemma_i24_round_trip(x: i32)
    requires
        -0x80_0000 <= x < 0x80_0000,
    ensures
        le24(x).len() == 3,
        i24_of(le24(x)) == x,
{
    let u = bits32(x);
    assert(u % 256 + 256 * ((u / 256) % 256) + 65536 * ((u / 65536) % 256) == u % 0x100_0000)
        by (bit_vector);
    assert(x < 0 ==> u % 0x100_0000 == x + 0x100_0000) by {
        if x < 0 {
            vstd::arithmetic::div_mod::lemma_mod_multiples_vanish(256, x + 0x100_0000, 0x100_0000);
        }
    }
    assert(((u / 65536) % 256 >= 128) == (x < 0)) by {
        assert(u / 65536 % 256 == (u % 0x100_0000) / 65536) by (bit_vector);
    }
}

/// Decodes two little-endian bytes.
pub fn u16_from_le(b0: u8, b1: u8) -> (r: u16)
    ensures
        r == u16_of(seq![b0, b1]),
{
    b0 as u16 + 256 * (b1 as u16)
}

/// Decodes four little-endian bytes.
pub fn u32_from_le(b0: u8, b1: u8, b2: u8, b3: u8) -> (r: u32)
    ensures
        r == u32_of(seq![b0, b1, b2, b3]),
{
    b0 as u32 + 256 * (b1 as u32) + 65536 * (b2 as u32) + 16777216 * (b3 as u32)
}

/// Decodes three little-endian bytes as a signed 24-bit value.
pub fn i24_from_le(b0: u8, b1: u8, b2: u8) -> (r: i32)
    ensures
        r == i24_of(seq![b0, b1, b2]),
{
    let v: i32 = b0 as i32 + 256 * (b1 as i32) + 65536 * (b2 as i32);
    if b2 >= 128 {
        v - 0x100_0000
    } else {
        v
    }
}

/// Encodes a 16-bit value as two little-endian bytes.
pub fn u16_to_le(x: u16) -> (r: [u8; 2])
    ensures
        r@ == le16(x),
{
    let r = [(x % 256) as u8, (x / 256) as u8];
    assert(r@ =~= le16(x));
    r
}

/// Encodes a 32-bit value as four little-endian bytes.
pub fn u32_to_le(x: u32) -> (r: [u8; 4])
    ensures
        r@ == le32(x),
{
    let r = [(x % 256) as u8, ((x / 256) % 256) as u8, ((x / 65536) % 256) as u8, (x / 16777216) as u8];
    assert(r@ =~= le32(x));
    r
}

/// Appends `b`.
pub fn push_all(out: &mut Vec<u8>, b: &[u8])
    ensures
        final(out)@ == old(out)@ + b@,
{
    let ghost before = out@;
    let mut i: usize = 0;
    while i < b.len()
        invariant
            i <= b@.len(),
            out@ == before + b@.subrange(0, i as int),
        decreases b@.len() - i,
    {
        out.push(b[i]);
        i = i + 1;
        assert(out@ =~= before + b@.subrange(0, i as int));
    }
    assert(b@.subrange(0, i as int) =~= b@);
}

} // verus!
