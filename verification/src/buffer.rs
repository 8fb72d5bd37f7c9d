//! Byte-buffer helpers for the marshalling session: zero-filled scratch
//! buffers, and alignment-tolerant stores and loads of small byte runs at
//! arbitrary offsets.

use vstd::prelude::*;

verus! {

/// The byte sequence `s` with `b` written over its bytes starting at `loc`.
pub open spec fn splice_bytes(s: Seq<u8>, loc: int, b: Seq<u8>) -> Seq<u8> {
    s.take(loc) + b + s.skip(loc + b.len())
}

/// A zero-filled buffer of `n` bytes.
pub fn zero_vec(n: usize) -> (v: Vec<u8>)
    ensures
        v@.len() == n,
        forall|i: int| 0 <= i < n ==> v@[i] == 0u8,
{
    let mut v: Vec<u8> = Vec::new();
    while v.len() < n
        invariant
            v@.len() <= n,
            forall|i: int| 0 <= i < v@.len() ==> v@[i] == 0u8,
        decreases n - v@.len(),
    {
        v.push(0u8);
    }
    v
}

/// Writes `bytes` into `buf` at byte offset `loc`, leaving the rest alone.
pub fn store_bytes(buf: &mut Vec<u8>, loc: usize, bytes: &Vec<u8>)
    requires
        loc + bytes@.len() <= old(buf)@.len(),
    ensures
        final(buf)@ == splice_bytes(old(buf)@, loc as int, bytes@),
{
    let n = bytes.len();
    let blen = buf.len();
    for i in 0..n
        invariant
            n == bytes@.len(),
            loc + n <= blen,
            blen == buf@.len(),
            buf@.len() == old(buf)@.len(),
            forall|j: int| 0 <= j < i ==> buf@[loc + j] == bytes@[j],
            forall|j: int|
                0 <= j < buf@.len() && !(loc <= j < loc + i) ==> buf@[j] == old(buf)@[j],
    {
        buf[loc + i] = bytes[i];
    }
    proof {
        assert(buf@ =~= splice_bytes(old(buf)@, loc as int, bytes@));
    }
}

/// Reads `n` bytes out of `buf` starting at byte offset `loc`.
pub fn load_bytes(buf: &Vec<u8>, loc: usize, n: usize) -> (r: Vec<u8>)
    requires
        loc + n <= buf@.len(),
    ensures
        r@ == buf@.subrange(loc as int, loc + n),
{
    let mut r: Vec<u8> = Vec::new();
    let blen = buf.len();
    for i in 0..n
        invariant
            loc + n <= blen,
            blen == buf@.len(),
            r@ == buf@.subrange(loc as int, loc + i),
    {
        r.push(buf[loc + i]);
        proof {
            assert(r@ =~= buf@.subrange(loc as int, loc + i + 1));
        }
    }
    r
}

/// Two's-complement bit pattern of an 8-bit signed value.
pub open spec fn spec_u8_of_i8(v: i8) -> u8 {
    if v >= 0 {
        v as u8
    } else {
        ((v as i16) + 0x100i16) as u8
    }
}

/// Signed reading of an 8-bit pattern.
pub open spec fn spec_i8_of_u8(u: u8) -> i8 {
    if u < 0x80 {
        u as i8
    } else {
        ((u as i16) - 0x100i16) as i8
    }
}

/// Two's-complement bit pattern of a 16-bit signed value.
pub open spec fn spec_u16_of_i16(v: i16) -> u16 {
    if v >= 0 {
        v as u16
    } else {
        ((v as i32) + 0x10000i32) as u16
    }
}

/// Signed reading of a 16-bit pattern.
pub open spec fn spec_i16_of_u16(u: u16) -> i16 {
    if u < 0x8000 {
        u as i16
    } else {
        ((u as i32) - 0x10000i32) as i16
    }
}

/// Two's-complement bit pattern of a 32-bit signed value.
pub open spec fn spec_u32_of_i32(v: i32) -> u32 {
    if v >= 0 {
        v as u32
    } else {
        ((v as i64) + 0x1_0000_0000i64) as u32
    }
}

/// Signed reading of a 32-bit pattern.
pub open spec fn spec_i32_of_u32(u: u32) -> i32 {
    if u < 0x8000_0000 {
        u as i32
    } else {
        ((u as i64) - 0x1_0000_0000i64) as i32
    }
}

/// Two's-complement bit pattern of a 64-bit signed value.
pub open spec fn spec_u64_of_i64(v: i64) -> u64 {
    if v >= 0 {
        v as u64
    } else {
        ((v as int) + 0x1_0000_0000_0000_0000int) as u64
    }
}

/// Signed reading of a 64-bit pattern.
pub open spec fn spec_i64_of_u64(u: u64) -> i64 {
    if u < 0x8000_0000_0000_0000 {
        u as i64
    } else {
        ((u as int) - 0x1_0000_0000_0000_0000int) as i64
    }
}

pub fn u8_of_i8(v: i8) -> (r: u8)
    ensures
        r == spec_u8_of_i8(v),
{
    if v >= 0 {
        v as u8
    } else {
        ((v as i16) + 0x100i16) as u8
    }
}

pub fn i8_of_u8(u: u8) -> (r: i8)
    ensures
        r == spec_i8_of_u8(u),
{
    if u < 0x80 {
        u as i8
    } else {
        ((u as i16) - 0x100i16) as i8
    }
}

pub fn u16_of_i16(v: i16) -> (r: u16)
    ensures
        r == spec_u16_of_i16(v),
{
    if v >= 0 {
        v as u16
    } else {
        ((v as i32) + 0x10000i32) as u16
    }
}

pub fn i16_of_u16(u: u16) -> (r: i16)
    ensures
        r == spec_i16_of_u16(u),
{
    if u < 0x8000 {
        u as i16
    } else {
        ((u as i32) - 0x10000i32) as i16
    }
}

pub fn u32_of_i32(v: i32) -> (r: u32)
    ensures
        r == spec_u32_of_i32(v),
{
    if v >= 0 {
        v as u32
    } else {
        ((v as i64) + 0x1_0000_0000i64) as u32
    }
}

pub fn i32_of_u32(u: u32) -> (r: i32)
    ensures
        r == spec_i32_of_u32(u),
{
    if u < 0x8000_0000 {
        u as i32
    } else {
        ((u as i64) - 0x1_0000_0000i64) as i32
    }
}

pub fn u64_of_i64(v: i64) -> (r: u64)
    ensures
        r == spec_u64_of_i64(v),
{
    if v >= 0 {
        v as u64
    } else {
        ((v as i128) + 0x1_0000_0000_0000_0000i128) as u64
    }
}

pub fn i64_of_u64(u: u64) -> (r: i64)
    ensures
        r == spec_i64_of_u64(u),
{
    if u < 0x8000_0000_0000_0000 {
        u as i64
    } else {
        ((u as i128) - 0x1_0000_0000_0000_0000i128) as i64
    }
}

/// Round trips of the signed/unsigned reinterpretations: reading a pattern
/// back as signed recovers the value, at every width.
pub proof fn lemma_signed_round_trip(a: i8, b: i16, c: i32, d: i64)
    ensures
        spec_i8_of_u8(spec_u8_of_i8(a)) == a,
        spec_i16_of_u16(spec_u16_of_i16(b)) == b,
        spec_i32_of_u32(spec_u32_of_i32(c)) == c,
        spec_i64_of_u64(spec_u64_of_i64(d)) == d,
{
}

/// A copy of a vector of plainly copyable values.
pub fn copy_vec<T: Copy>(src: &Vec<T>) -> (r: Vec<T>)
    ensures
        r@ == src@,
{
    let mut r: Vec<T> = Vec::new();
    let n = src.len();
    for i in 0..n
        invariant
            n == src@.len(),
            r@ == src@.take(i as int),
    {
        r.push(src[i]);
        proof {
            assert(r@ =~= src@.take(i + 1));
        }
    }
    proof {
        assert(r@ =~= src@);
    }
    r
}

} // verus!
