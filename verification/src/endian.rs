//! Little-endian integers as byte sequences, and the calls that read and write them.

use byteorder::ByteOrder;
use byteorder::LittleEndian;
use vstd::prelude::*;

verus! {

/// The unsigned 16 bit integer whose little-endian bytes stand in `s` at `at`.
pub open spec fn le_u16(s: Seq<u8>, at: int) -> u16 {
    (s[at] as int + 0x100 * (s[at + 1] as int)) as u16
}

/// The unsigned 32 bit integer whose little-endian bytes stand in `s` at `at`.
pub open spec fn le_u32(s: Seq<u8>, at: int) -> u32 {
    (s[at] as int + 0x100 * (s[at + 1] as int) + 0x1_0000 * (s[at + 2] as int) + 0x100_0000 * (s[at
        + 3] as int)) as u32
}

/// The unsigned 64 bit integer whose little-endian bytes stand in `s` at `at`.
pub open spec fn le_u64(s: Seq<u8>, at: int) -> u64 {
    (le_u32(s, at) as int + 0x1_0000_0000 * (le_u32(s, at + 4) as int)) as u64
}

/// The two little-endian bytes of `v`.
pub open spec fn u16_le(v: u16) -> Seq<u8> {
    seq![(v % 0x100) as u8, (v / 0x100) as u8]
}

/// The four little-endian bytes of `v`.
pub open spec fn u32_le(v: u32) -> Seq<u8> {
    seq![
        (v % 0x100) as u8,
        (v / 0x100 % 0x100) as u8,
        (v / 0x100 / 0x100 % 0x100) as u8,
        (v / 0x100 / 0x100 / 0x100) as u8,
    ]
}

/// The eight little-endian bytes of `v`.
pub open spec fn u64_le(v: u64) -> Seq<u8> {
    u32_le((v % 0x1_0000_0000) as u32) + u32_le((v / 0x1_0000_0000) as u32)
}

/// The signed reading of an 8 bit pattern (two's complement).
pub open spec fn signed8(u: u8) -> i8 {
    if u < 0x80 {
        u as i8
    } else {
        (u - 0x100) as i8
    }
}

/// The signed reading of a 16 bit pattern (two's complement).
pub open spec fn signed16(u: u16) -> i16 {
    if u < 0x8000 {
        u as i16
    } else {
        (u - 0x1_0000) as i16
    }
}

/// The signed reading of a 32 bit pattern (two's complement).
pub open spec fn signed32(u: u32) -> i32 {
    if u < 0x8000_0000 {
        u as i32
    } else {
        (u - 0x1_0000_0000) as i32
    }
}

/// The signed reading of a 64 bit pattern (two's complement).
pub open spec fn signed64(u: u64) -> i64 {
    if u < 0x8000_0000_0000_0000 {
        u as i64
    } else {
        (u - 0x1_0000_0000_0000_0000) as i64
    }
}

/// The 8 bit pattern of a signed value (two's complement).
pub open spec fn unsigned8(v: i8) -> u8 {
    if v >= 0 {
        v as u8
    } else {
        (v + 0x100) as u8
    }
}

/// The 16 bit pattern of a signed value (two's complement).
pub open spec fn unsigned16(v: i16) -> u16 {
    if v >= 0 {
        v as u16
    } else {
        (v + 0x1_0000) as u16
    }
}

/// The 32 bit pattern of a signed value (two's complement).
pub open spec fn unsigned32(v: i32) -> u32 {
    if v >= 0 {
        v as u32
    } else {
        (v + 0x1_0000_0000) as u32
    }
}

/// The 64 bit pattern of a signed value (two's complement).
pub open spec fn unsigned64(v: i64) -> u64 {
    if v >= 0 {
        v as u64
    } else {
        (v + 0x1_0000_0000_0000_0000) as u64
    }
}

/// Reading the two bytes written for `v` gives `v` back.
pub proof fn lemma_u16_le(v: u16, s: Seq<u8>, at: int)
    requires
        0 <= at,
        at + 2 <= s.len(),
        s.subrange(at, at + 2) == u16_le(v),
    ensures
        le_u16(s, at) == v,
{
    let w = s.subrange(at, at + 2);
    assert(w[0] == s[at] && w[1] == s[at + 1]);
}

/// Reading the four bytes written for `v` gives `v` back.
pub proof fn lemma_u32_le(v: u32, s: Seq<u8>, at: int)
    requires
        0 <= at,
        at + 4 <= s.len(),
        s.subrange(at, at + 4) == u32_le(v),
    ensures
        le_u32(s, at) == v,
{
    let w = s.subrange(at, at + 4);
    assert(w[0] == s[at] && w[1] == s[at + 1] && w[2] == s[at + 2] && w[3] == s[at + 3]);
}

/// Reading the eight bytes written for `v` gives `v` back.
pub proof fn lemma_u64_le(v: u64, s: Seq<u8>, at: int)
    requires
        0 <= at,
        at + 8 <= s.len(),
        s.subrange(at, at + 8) == u64_le(v),
    ensures
        le_u64(s, at) == v,
{
    let lo = (v % 0x1_0000_0000) as u32;
    let hi = (v / 0x1_0000_0000) as u32;
    let w = s.subrange(at, at + 8);
    assert(u32_le(lo).len() == 4 && u32_le(hi).len() == 4);
    assert forall|i: int| 0 <= i < 4 implies s[at + i] == u32_le(lo)[i] && s[at + 4 + i] == u32_le(
        hi,
    )[i] by {
        assert(w[i] == s[at + i]);
        assert(w[4 + i] == s[at + 4 + i]);
    }
    assert(s.subrange(at, at + 4) =~= u32_le(lo));
    assert(s.subrange(at + 4, at + 8) =~= u32_le(hi));
    lemma_u32_le(lo, s, at);
    lemma_u32_le(hi, s, at + 4);
}

/// `byteorder::LittleEndian::read_u16`: the value of the first two bytes of
/// `buf`, least significant byte first. It panics on a shorter `buf`.
#[verifier::external_body]
pub(crate) fn read_u16(buf: &[u8]) -> (r: u16)
    requires
        buf@.len() >= 2,
    ensures
        r == le_u16(buf@, 0),
{
    LittleEndian::read_u16(buf)
}

/// `byteorder::LittleEndian::read_u32`: the value of the first four bytes of
/// `buf`, least significant byte first. It panics on a shorter `buf`.
#[verifier::external_body]
pub(crate) fn read_u32(buf: &[u8]) -> (r: u32)
    requires
        buf@.len() >= 4,
    ensures
        r == le_u32(buf@, 0),
{
    LittleEndian::read_u32(buf)
}

/// `byteorder::LittleEndian::read_u64`: the value of the first eight bytes of
/// `buf`, least significant byte first. It panics on a shorter `buf`.
#[verifier::external_body]
pub(crate) fn read_u64(buf: &[u8]) -> (r: u64)
    requires
        buf@.len() >= 8,
    ensures
        r == le_u64(buf@, 0),
{
    LittleEndian::read_u64(buf)
}

/// `byteorder::LittleEndian::read_i16`: what `read_u16` gives, read as a
/// two's complement number. It panics on a `buf` shorter than two bytes.
#[verifier::external_body]
pub(crate) fn read_i16(buf: &[u8]) -> (r: i16)
    requires
        buf@.len() >= 2,
    ensures
        r == signed16(le_u16(buf@, 0)),
{
    LittleEndian::read_i16(buf)
}

/// `byteorder::LittleEndian::read_i32`: what `read_u32` gives, read as a
/// two's complement number. It panics on a `buf` shorter than four bytes.
#[verifier::external_body]
pub(crate) fn read_i32(buf: &[u8]) -> (r: i32)
    requires
        buf@.len() >= 4,
    ensures
        r == signed32(le_u32(buf@, 0)),
{
    LittleEndian::read_i32(buf)
}

/// `byteorder::LittleEndian::read_i64`: what `read_u64` gives, read as a
/// two's complement number. It panics on a `buf` shorter than eight bytes.
#[verifier::external_body]
pub(crate) fn read_i64(buf: &[u8]) -> (r: i64)
    requires
        buf@.len() >= 8,
    ensures
        r == signed64(le_u64(buf@, 0)),
{
    LittleEndian::read_i64(buf)
}

/// `byteorder::LittleEndian::write_u16` on a buffer of two bytes: the bytes
/// of `n`, least significant first.
#[verifier::external_body]
pub(crate) fn write_u16(n: u16) -> (r: [u8; 2])
    ensures
        r@ == u16_le(n),
{
    let mut buf = [0u8; 2];
    LittleEndian::write_u16(&mut buf, n);
    buf
}

/// `byteorder::LittleEndian::write_u32` on a buffer of four bytes: the bytes
/// of `n`, least significant first.
#[verifier::external_body]
pub(crate) fn write_u32(n: u32) -> (r: [u8; 4])
    ensures
        r@ == u32_le(n),
{
    let mut buf = [0u8; 4];
    LittleEndian::write_u32(&mut buf, n);
    buf
}

/// `byteorder::LittleEndian::write_u64` on a buffer of eight bytes: the bytes
/// of `n`, least significant first.
#[verifier::external_body]
pub(crate) fn write_u64(n: u64) -> (r: [u8; 8])
    ensures
        r@ == u64_le(n),
{
    let mut buf = [0u8; 8];
    LittleEndian::write_u64(&mut buf, n);
    buf
}

/// `byteorder::LittleEndian::write_i16` on a buffer of two bytes: the bytes
/// of the two's complement pattern of `n`, least significant first.
#[verifier::external_body]
pub(crate) fn write_i16(n: i16) -> (r: [u8; 2])
    ensures
        r@ == u16_le(unsigned16(n)),
{
    let mut buf = [0u8; 2];
    LittleEndian::write_i16(&mut buf, n);
    buf
}

/// `byteorder::LittleEndian::write_i32` on a buffer of four bytes: the bytes
/// of the two's complement pattern of `n`, least significant first.
#[verifier::external_body]
pub(crate) fn write_i32(n: i32) -> (r: [u8; 4])
    ensures
        r@ == u32_le(unsigned32(n)),
{
    let mut buf = [0u8; 4];
    LittleEndian::write_i32(&mut buf, n);
    buf
}

/// `byteorder::LittleEndian::write_i64` on a buffer of eight bytes: the bytes
/// of the two's complement pattern of `n`, least significant first.
#[verifier::external_body]
pub(crate) fn write_i64(n: i64) -> (r: [u8; 8])
    ensures
        r@ == u64_le(unsigned64(n)),
{
    let mut buf = [0u8; 8];
    LittleEndian::write_i64(&mut buf, n);
    buf
}

} // verus!
