//! Numbers as the class file spells them: big-endian, two's complement.

use vstd::prelude::*;

verus! {

/// The number that four bytes spell, most significant byte first.
pub open spec fn be_u32(b: Seq<u8>) -> int
    recommends
        b.len() == 4,
{
    b[0] as int * 0x100_0000 + b[1] as int * 0x1_0000 + b[2] as int * 0x100 + b[3] as int
}

/// The number that eight bytes spell, most significant byte first.
pub open spec fn be_u64(b: Seq<u8>) -> int
    recommends
        b.len() == 8,
{
    be_u32(b.subrange(0, 4)) * 0x1_0000_0000 + be_u32(b.subrange(4, 8))
}

/// A 32-bit pattern read as a two's-complement number.
pub open spec fn signed32(u: int) -> int {
    if u >= 0x8000_0000 {
        u - 0x1_0000_0000
    } else {
        u
    }
}

/// A 64-bit pattern read as a two's-complement number.
pub open spec fn signed64(u: int) -> int {
    if u >= 0x8000_0000_0000_0000 {
        u - 0x1_0000_0000_0000_0000
    } else {
        u
    }
}

/// The signed number that four big-endian bytes spell.
pub open spec fn be_i32(b: Seq<u8>) -> int {
    signed32(be_u32(b))
}

/// The signed number that eight big-endian bytes spell.
pub open spec fn be_i64(b: Seq<u8>) -> int {
    signed64(be_u64(b))
}

/// The four bytes that spell a 32-bit pattern, most significant first.
pub open spec fn u32_be_bytes(v: u32) -> Seq<u8> {
    seq![
        (v / 0x100_0000) as u8,
        (v / 0x1_0000 % 0x100) as u8,
        (v / 0x100 % 0x100) as u8,
        (v % 0x100) as u8,
    ]
}

/// The eight bytes that spell a 64-bit pattern, most significant first.
pub open spec fn u64_be_bytes(v: u64) -> Seq<u8> {
    u32_be_bytes((v / 0x1_0000_0000) as u32) + u32_be_bytes((v % 0x1_0000_0000) as u32)
}

/// The 32-bit two's-complement pattern of a number.
pub open spec fn bits32(v: i32) -> u32 {
    if v < 0 {
        (v + 0x1_0000_0000) as u32
    } else {
        v as u32
    }
}

/// The 64-bit two's-complement pattern of a number.
pub open spec fn bits64(v: i64) -> u64 {
    if v < 0 {
        (v + 0x1_0000_0000_0000_0000) as u64
    } else {
        v as u64
    }
}

/// The four bytes that spell a signed number, most significant first.
pub open spec fn i32_be_bytes(v: i32) -> Seq<u8> {
    u32_be_bytes(bits32(v))
}

/// The eight bytes that spell a signed number, most significant first.
pub open spec fn i64_be_bytes(v: i64) -> Seq<u8> {
    u64_be_bytes(bits64(v))
}

/// Reading back what was spelled gives the number: 32 bits, unsigned.
pub proof fn lemma_u32_round_trip(v: u32)
    ensures
        be_u32(u32_be_bytes(v)) == v,
        u32_be_bytes(v).len() == 4,
{
    let b = u32_be_bytes(v);
    assert(b[0] == v / 0x100_0000 && b[1] == v / 0x1_0000 % 0x100 && b[2] == v / 0x100 % 0x100
        && b[3] == v % 0x100) by {
        assert(v / 0x100_0000 < 0x100);
    }
    assert(v == (v / 0x100_0000) * 0x100_0000 + (v / 0x1_0000 % 0x100) * 0x1_0000 + (v / 0x100
        % 0x100) * 0x100 + v % 0x100) by (bit_vector);
}

/// Reading back what was spelled gives the number: 64 bits, unsigned.
pub proof fn lemma_u64_round_trip(v: u64)
    ensures
        be_u64(u64_be_bytes(v)) == v,
        u64_be_bytes(v).len() == 8,
{
    let hi = (v / 0x1_0000_0000) as u32;
    let lo = (v % 0x1_0000_0000) as u32;
    lemma_u32_round_trip(hi);
    lemma_u32_round_trip(lo);
    let b = u64_be_bytes(v);
    assert(b.subrange(0, 4) =~= u32_be_bytes(hi));
    assert(b.subrange(4, 8) =~= u32_be_bytes(lo));
    assert(v / 0x1_0000_0000 < 0x1_0000_0000);
}

/// Reading back what was spelled gives the number: 32 bits, signed.
pub proof fn lemma_i32_round_trip(v: i32)
    ensures
        be_i32(i32_be_bytes(v)) == v,
        i32_be_bytes(v).len() == 4,
{
    lemma_u32_round_trip(bits32(v));
}

/// Reading back what was spelled gives the number: 64 bits, signed.
pub proof fn lemma_i64_round_trip(v: i64)
    ensures
        be_i64(i64_be_bytes(v)) == v,
        i64_be_bytes(v).len() == 8,
{
    lemma_u64_round_trip(bits64(v));
}

/// Reads four big-endian bytes as an unsigned number.
pub fn u32_from_be_bytes(b: &[u8; 4]) -> (r: u32)
    ensures
        r == be_u32(b@),
{
    let b0: u32 = b[0] as u32;
    let b1: u32 = b[1] as u32;
    let b2: u32 = b[2] as u32;
    let b3: u32 = b[3] as u32;
    let r: u32 = (b0 << 24) | (b1 << 16) | (b2 << 8) | b3;
    assert(r == b0 * 0x100_0000 + b1 * 0x1_0000 + b2 * 0x100 + b3) by (bit_vector)
        requires
            r == (b0 << 24) | (b1 << 16) | (b2 << 8) | b3,
            b0 < 256,
            b1 < 256,
            b2 < 256,
            b3 < 256,
    ;
    r
}

/// Reads eight big-endian bytes as an unsigned number.
pub fn u64_from_be_bytes(b: &[u8; 8]) -> (r: u64)
    ensures
        r == be_u64(b@),
{
    let hi: [u8; 4] = [b[0], b[1], b[2], b[3]];
    let lo: [u8; 4] = [b[4], b[5], b[6], b[7]];
    assert(hi@ =~= b@.subrange(0, 4));
    assert(lo@ =~= b@.subrange(4, 8));
    let h: u64 = u32_from_be_bytes(&hi) as u64;
    let l: u64 = u32_from_be_bytes(&lo) as u64;
    let r: u64 = (h << 32) | l;
    assert(r == h * 0x1_0000_0000 + l) by (bit_vector)
        requires
            r == (h << 32) | l,
            h < 0x1_0000_0000,
            l < 0x1_0000_0000,
    ;
    r
}

/// Reads a 32-bit pattern as a two's-complement number.
pub fn i32_from_bits(u: u32) -> (r: i32)
    ensures
        r == signed32(u as int),
{
    if u >= 0x8000_0000 {
        let wide: i64 = u as i64 - 0x1_0000_0000;
        wide as i32
    } else {
        u as i32
    }
}

/// Reads a 64-bit pattern as a two's-complement number.
pub fn i64_from_bits(u: u64) -> (r: i64)
    ensures
        r == signed64(u as int),
{
    if u >= 0x8000_0000_0000_0000 {
        let wide: i128 = u as i128 - 0x1_0000_0000_0000_0000;
        wide as i64
    } else {
        u as i64
    }
}

/// The two's-complement pattern of a 32-bit number.
pub fn i32_to_bits(v: i32) -> (r: u32)
    ensures
        r == bits32(v),
        signed32(r as int) == v,
{
    if v < 0 {
        let wide: i64 = v as i64 + 0x1_0000_0000;
        wide as u32
    } else {
        v as u32
    }
}

/// The two's-complement pattern of a 64-bit number.
pub fn i64_to_bits(v: i64) -> (r: u64)
    ensures
        r == bits64(v),
        signed64(r as int) == v,
{
    if v < 0 {
        let wide: i128 = v as i128 + 0x1_0000_0000_0000_0000;
        wide as u64
    } else {
        v as u64
    }
}

/// Reads four big-endian bytes as a signed number.
pub fn i32_from_be_bytes(b: &[u8; 4]) -> (r: i32)
    ensures
        r == be_i32(b@),
{
    i32_from_bits(u32_from_be_bytes(b))
}

/// Reads eight big-endian bytes as a signed number.
pub fn i64_from_be_bytes(b: &[u8; 8]) -> (r: i64)
    ensures
        r == be_i64(b@),
{
    i64_from_bits(u64_from_be_bytes(b))
}

/// Spells an unsigned number as four bytes, most significant first.
pub fn u32_to_be_bytes(v: u32) -> (r: [u8; 4])
    ensures
        r@ == u32_be_bytes(v),
        be_u32(r@) == v,
{
    let b0: u8 = (v >> 24) as u8;
    let b1: u8 = ((v >> 16) & 0xff) as u8;
    let b2: u8 = ((v >> 8) & 0xff) as u8;
    let b3: u8 = (v & 0xff) as u8;
    assert(b0 == (v / 0x100_0000) as u8 && b1 == (v / 0x1_0000 % 0x100) as u8 && b2 == (v / 0x100
        % 0x100) as u8 && b3 == (v % 0x100) as u8) by (bit_vector)
        requires
            b0 == (v >> 24) as u8,
            b1 == ((v >> 16) & 0xff) as u8,
            b2 == ((v >> 8) & 0xff) as u8,
            b3 == (v & 0xff) as u8,
    ;
    let r: [u8; 4] = [b0, b1, b2, b3];
    proof {
        assert(r@ =~= u32_be_bytes(v));
        lemma_u32_round_trip(v);
    }
    r
}

/// Spells an unsigned number as eight bytes, most significant first.
pub fn u64_to_be_bytes(v: u64) -> (r: [u8; 8])
    ensures
        r@ == u64_be_bytes(v),
        be_u64(r@) == v,
{
    let h: u32 = (v >> 32) as u32;
    let l: u32 = (v & 0xffff_ffff) as u32;
    assert(h == (v / 0x1_0000_0000) as u32 && l == (v % 0x1_0000_0000) as u32) by (bit_vector)
        requires
            h == (v >> 32) as u32,
            l == (v & 0xffff_ffff) as u32,
    ;
    let hi = u32_to_be_bytes(h);
    let lo = u32_to_be_bytes(l);
    let r: [u8; 8] = [hi[0], hi[1], hi[2], hi[3], lo[0], lo[1], lo[2], lo[3]];
    proof {
        assert(r@ =~= u64_be_bytes(v));
        lemma_u64_round_trip(v);
    }
    r
}

/// Spells a signed number as four big-endian bytes.
pub fn i32_to_be_bytes(v: i32) -> (r: [u8; 4])
    ensures
        r@ == i32_be_bytes(v),
        be_i32(r@) == v,
{
    u32_to_be_bytes(i32_to_bits(v))
}

/// Spells a signed number as eight big-endian bytes.
pub fn i64_to_be_bytes(v: i64) -> (r: [u8; 8])
    ensures
        r@ == i64_be_bytes(v),
        be_i64(r@) == v,
{
    u64_to_be_bytes(i64_to_bits(v))
}

} // verus!
