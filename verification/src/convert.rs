//! Decoding and encoding of the wire format's values.
//!
//! Every value has a mathematical model, its deep view: an integer is its own
//! model, a string is its sequence of characters, a blob its sequence of bytes
//! and a group the sequence of the models of its elements. `FromBytes::parse`
//! says which model a byte sequence decodes to from a given offset on, and
//! `ToBytes::wire` says which bytes a model is written as.

use crate::endian::{
    le_u16, le_u32, le_u64, lemma_u16_le, lemma_u32_le, lemma_u64_le, read_i16, read_i32,
    read_i64, read_u16, read_u32, read_u64, signed16, signed32, signed64, signed8, u16_le,
    u32_le, u64_le, unsigned16, unsigned32, unsigned64, unsigned8, write_i16, write_i32,
    write_i64, write_u16, write_u32, write_u64,
};
use crate::errors::DecodeError;
use crate::errors::EncodeError;
use crate::errors::Failure;
use crate::errors::Stop;
use crate::protocol::transport::MessageHeader;
use std::string::FromUtf8Error;
use vstd::prelude::*;
use vstd::slice::slice_subrange;
use vstd::slice::slice_to_vec;
use vstd::std_specs::convert::FromSpecImpl;
use vstd::utf8::{decode_utf8, encode_utf8, valid_utf8};

verus! {

broadcast use {
    vstd::utf8::encode_utf8_valid_utf8,
    vstd::utf8::encode_utf8_decode_utf8,
    vstd::utf8::decode_utf8_encode_utf8,
};

/// The offset in `data` at which a read from `position` starts: the position,
/// or the end of the data where the position lies behind it.
pub open spec fn offset_of(position: u64, data: Seq<u8>) -> int {
    if position <= data.len() {
        position as int
    } else {
        data.len() as int
    }
}

/// A byte buffer with a read position.
///
/// The position may lie behind the end of the data; nothing can be read there.
#[derive(Debug, PartialEq, Eq)]
pub struct Cursor {
    pub data: Vec<u8>,
    pub position: u64,
}

impl Cursor {
    /// The offset in the data at which the next read starts: the position, or
    /// the end of the data where the position lies behind it.
    pub open spec fn start(&self) -> int {
        offset_of(self.position, self.data@)
    }

    /// A cursor at the start of `data`.
    pub fn new(data: Vec<u8>) -> (r: Self)
        ensures
            r.data == data,
            r.position == 0,
    {
        Cursor { data, position: 0 }
    }

    /// The read position.
    pub fn position(&self) -> (r: u64)
        ensures
            r == self.position,
    {
        self.position
    }

    /// Moves the read position.
    pub fn set_position(&mut self, position: u64)
        ensures
            final(self).position == position,
            final(self).data == old(self).data,
    {
        self.position = position;
    }

    /// The data.
    pub fn get_ref(&self) -> (r: &Vec<u8>)
        ensures
            r == self.data,
    {
        &self.data
    }

    /// The data, giving up the cursor.
    pub fn into_inner(self) -> (r: Vec<u8>)
        ensures
            r == self.data,
    {
        self.data
    }

    /// The number of bytes from the read position to the end of the data.
    pub fn remaining(&self) -> (r: usize)
        ensures
            r == self.data@.len() - self.start(),
    {
        self.data.len() - self.offset()
    }

    /// The offset in the data at which the next read starts.
    pub fn offset(&self) -> (r: usize)
        ensures
            r == self.start(),
    {
        let len = self.data.len();
        if self.position <= len as u64 {
            self.position as usize
        } else {
            len
        }
    }
}

/// A value that can be decoded from its wire bytes.
pub trait FromBytes: Sized + DeepView {
    /// What the bytes of `s` from offset `at` on decode to: the model of the
    /// value and the offset behind its last byte, or the reason why there is
    /// no value and the offset at which the decoding stops. A decoding that
    /// runs out of input stops where the part begins that is not all there;
    /// one that finds bytes that are no value stops behind those bytes.
    spec fn parse(s: Seq<u8>, at: int) -> Result<(Self::V, int), Failure>;

    /// Decodes the value that starts in `buf` at `at`, and returns it with the
    /// offset behind it, or the error with the offset at which the decoding
    /// stopped.
    fn read_at(buf: &[u8], at: usize) -> (r: Result<(Self, usize), Stop>)
        ensures
            match Self::parse(buf@, at as int) {
                Ok((m, next)) => r matches Ok((v, n)) && v.deep_view() == m && n == next,
                Err((e, stop)) => r matches Err((x, p)) && x == e && p == stop,
            },
            r matches Ok((_, n)) ==> (at <= n && (n <= buf@.len() || n == at)),
            r matches Err((_, p)) ==> (at <= p && (p <= buf@.len() || p == at)),
    ;

    /// Decodes the value that starts in `buf` at `at`, and returns it with the
    /// offset behind it.
    fn decode(buf: &[u8], at: usize) -> (r: Result<(Self, usize), DecodeError>)
        ensures
            match Self::parse(buf@, at as int) {
                Ok((m, next)) => r matches Ok((v, n)) && v.deep_view() == m && n == next,
                Err((e, _)) => r matches Err(x) && x == e,
            },
            r matches Ok((_, n)) ==> (at <= n && (n <= buf@.len() || n == at)),
    {
        match Self::read_at(buf, at) {
            Ok(found) => Ok(found),
            Err((e, _)) => Err(e),
        }
    }

    /// Decodes the value at the read position and moves the position behind
    /// what was read. Where the input ends before the value does, the cursor
    /// stays as it was, so that the decoding can be tried again when more
    /// input has arrived. Where the bytes are no value, the position is behind
    /// the last byte that was read.
    fn from_bytes(reader: &mut Cursor) -> (r: Result<Self, DecodeError>)
        ensures
            final(reader).data == old(reader).data,
            match Self::parse(old(reader).data@, old(reader).start()) {
                Ok((m, next)) => {
                    &&& r matches Ok(v) && v.deep_view() == m
                    &&& final(reader).position == old(reader).position + (next - old(
                        reader,
                    ).start())
                },
                Err((e, stop)) => {
                    &&& r matches Err(x) && x == e
                    &&& final(reader).position == if e == DecodeError::UnexpectedEof {
                        old(reader).position as int
                    } else {
                        old(reader).position + (stop - old(reader).start())
                    }
                },
            },
    {
        let at = reader.offset();
        match Self::read_at(reader.data.as_slice(), at) {
            Ok((v, next)) => {
                if next > at {
                    reader.position = next as u64;
                }
                Ok(v)
            },
            Err((e, stop)) => {
                match e {
                    DecodeError::UnexpectedEof => {},
                    _ => {
                        if stop > at {
                            reader.position = stop as u64;
                        }
                    },
                }
                Err(e)
            },
        }
    }
}

/// A value that can be encoded.
pub trait ToBytes: FromBytes {
    /// The bytes that a value with model `m` is written as.
    spec fn wire(m: Self::V) -> Seq<u8>;

    /// Whether the format can hold a value with model `m`: every length fits
    /// its prefix.
    spec fn encodable(m: Self::V) -> bool;

    /// Decoding what was encoded gives the value back: wherever the bytes of
    /// an encodable value stand in a stream, decoding from their first byte
    /// yields the value and ends right behind them.
    proof fn lemma_round_trip(m: Self::V, s: Seq<u8>, at: int)
        requires
            Self::encodable(m),
            stands_at(s, at, Self::wire(m)),
        ensures
            Self::parse(s, at) == Ok::<(Self::V, int), Failure>(
                (m, at + Self::wire(m).len()),
            ),
    ;

    /// Whether the value can be encoded.
    fn is_encodable(&self) -> (r: bool)
        ensures
            r == Self::encodable(self.deep_view()),
    ;

    /// Appends the bytes of the value to `out`.
    fn write(&self, out: &mut Vec<u8>)
        requires
            Self::encodable(self.deep_view()),
        ensures
            final(out)@ == old(out)@ + Self::wire(self.deep_view()),
    ;

    /// Appends the bytes of the value to `out`, or leaves `out` as it was
    /// where the value cannot be encoded.
    fn to_bytes(&self, out: &mut Vec<u8>) -> (r: Result<(), EncodeError>)
        ensures
            Self::encodable(self.deep_view()) ==> (r is Ok && final(out)@ == old(out)@
                + Self::wire(self.deep_view())),
            !Self::encodable(self.deep_view()) ==> (r == Err::<(), EncodeError>(
                EncodeError::Unrepresentable,
            ) && final(out)@ == old(out)@),
    {
        if self.is_encodable() {
            self.write(out);
            Ok(())
        } else {
            Err(EncodeError::Unrepresentable)
        }
    }
}

/// A type whose values start with a block of fixed length.
pub trait BlockLength {
    /// The number of bytes of the fixed part: for a fixed-width primitive its
    /// width, for an enumeration the width of its discriminant, for a string,
    /// a blob or a group zero, and for a struct the sum over its fields.
    spec fn fixed_length() -> nat;

    /// The number of bytes of the fixed part.
    fn block_length() -> (n: u16)
        ensures
            n == Self::fixed_length(),
    ;

    /// Moves the read position over one fixed part and returns the new
    /// position. Where fewer bytes are left the cursor stays as it was.
    fn skip_block(buffer: &mut Cursor) -> (r: Result<u64, DecodeError>)
        ensures
            final(buffer).data == old(buffer).data,
            old(buffer).start() + Self::fixed_length() <= old(buffer).data@.len() ==> {
                &&& final(buffer).position == old(buffer).start() + Self::fixed_length()
                &&& r == Ok::<u64, DecodeError>(final(buffer).position)
            },
            old(buffer).start() + Self::fixed_length() > old(buffer).data@.len() ==> {
                &&& final(buffer).position == old(buffer).position
                &&& r == Err::<u64, DecodeError>(DecodeError::UnexpectedEof)
            },
    {
        let length = Self::block_length() as usize;
        let at = buffer.offset();
        if buffer.data.len() - at < length {
            Err(DecodeError::UnexpectedEof)
        } else {
            buffer.position = (at + length) as u64;
            Ok(buffer.position)
        }
    }
}

/// A message type: the triple that names it on the wire.
pub trait Message {
    /// The id of the type within its schema family.
    spec fn spec_template_id() -> u16;

    /// The id of the schema family.
    spec fn spec_schema_id() -> u16;

    /// The version of the schema.
    spec fn spec_version() -> u16;

    /// The id of the type within its schema family.
    fn template_id() -> (r: u16)
        ensures
            r == Self::spec_template_id(),
    ;

    /// The id of the schema family.
    fn schema_id() -> (r: u16)
        ensures
            r == Self::spec_schema_id(),
    ;

    /// The version of the schema.
    fn version() -> (r: u16)
        ensures
            r == Self::spec_version(),
    ;
}

/// A type with a message header of its own.
pub trait ToMessageHeader {
    /// The header of every message of the type: its triple and the length of
    /// its fixed block.
    spec fn spec_message_header() -> MessageHeader;

    /// The header of every message of the type.
    fn message_header() -> (r: MessageHeader)
        ensures
            r == Self::spec_message_header(),
    ;
}

/// Whether `s` holds `n` bytes from offset `at` on.
pub open spec fn has_bytes(s: Seq<u8>, at: int, n: int) -> bool {
    0 <= at && at + n <= s.len()
}

/// Appends `bytes` to `out`.
pub fn append(out: &mut Vec<u8>, bytes: &[u8])
    ensures
        final(out)@ == old(out)@ + bytes@,
{
    out.extend_from_slice(bytes);
    assert(out@ =~= old(out)@ + bytes@);
}

/// The `n` bytes of `buf` from `at` on, where it holds as many.
fn window(buf: &[u8], at: usize, n: usize) -> (r: Option<&[u8]>)
    ensures
        has_bytes(buf@, at as int, n as int) ==> (r matches Some(w) && w@ == buf@.subrange(
            at as int,
            at + n,
        )),
        !has_bytes(buf@, at as int, n as int) ==> r is None,
        r is Some ==> at + n <= usize::MAX,
{
    if at > buf.len() || buf.len() - at < n {
        None
    } else {
        Some(slice_subrange(buf, at, at + n))
    }
}

/// Whether the bytes `w` stand in `s` from offset `at` on.
pub open spec fn stands_at(s: Seq<u8>, at: int, w: Seq<u8>) -> bool {
    0 <= at && at + w.len() <= s.len() && s.subrange(at, at + w.len()) == w
}

/// Concatenation is associative.
pub proof fn lemma_concat_assoc(a: Seq<u8>, b: Seq<u8>, c: Seq<u8>)
    ensures
        (a + b) + c == a + (b + c),
{
    assert((a + b) + c =~= a + (b + c));
}

/// Where bytes stand in a stream, their first part stands at the same offset.
pub proof fn lemma_first_stands(s: Seq<u8>, at: int, w: Seq<u8>, b: Seq<u8>)
    requires
        stands_at(s, at, w + b),
    ensures
        stands_at(s, at, w),
{
    let whole = s.subrange(at, at + (w + b).len());
    assert forall|i: int| 0 <= i < w.len() implies s[at + i] == w[i] by {
        assert(whole[i] == s[at + i]);
    }
    assert(s.subrange(at, at + w.len()) =~= w);
}

/// Where bytes stand in a stream, a part in their middle stands behind the
/// part before it.
pub proof fn lemma_part_stands(s: Seq<u8>, at: int, a: Seq<u8>, w: Seq<u8>, b: Seq<u8>)
    requires
        stands_at(s, at, a + w + b),
    ensures
        stands_at(s, at + a.len(), w),
{
    let whole = s.subrange(at, at + (a + w + b).len());
    assert forall|i: int| 0 <= i < w.len() implies s[at + a.len() + i] == w[i] by {
        assert(whole[a.len() + i] == s[at + a.len() + i]);
    }
    assert(s.subrange(at + a.len(), at + a.len() + w.len()) =~= w);
}

/// Where bytes stand in a stream, their last part stands behind the part
/// before it.
pub proof fn lemma_last_stands(s: Seq<u8>, at: int, a: Seq<u8>, w: Seq<u8>)
    requires
        stands_at(s, at, a + w),
    ensures
        stands_at(s, at + a.len(), w),
{
    let whole = s.subrange(at, at + (a + w).len());
    assert forall|i: int| 0 <= i < w.len() implies s[at + a.len() + i] == w[i] by {
        assert(whole[a.len() + i] == s[at + a.len() + i]);
    }
    assert(s.subrange(at + a.len(), at + a.len() + w.len()) =~= w);
}

/// The only byte of a part of one byte.
proof fn lemma_byte_stands(s: Seq<u8>, at: int, b: u8)
    requires
        stands_at(s, at, seq![b]),
    ensures
        0 <= at < s.len(),
        s[at] == b,
{
    assert(s.subrange(at, at + 1)[0] == s[at]);
}

impl FromBytes for u8 {
    open spec fn parse(s: Seq<u8>, at: int) -> Result<(u8, int), Failure> {
        if has_bytes(s, at, 1) {
            Ok((s[at], at + 1))
        } else {
            Err((DecodeError::UnexpectedEof, at))
        }
    }

    fn read_at(buf: &[u8], at: usize) -> (r: Result<(Self, usize), Stop>) {
        if at >= buf.len() {
            return Err((DecodeError::UnexpectedEof, at));
        }
        Ok((buf[at], at + 1))
    }
}

impl ToBytes for u8 {
    open spec fn wire(m: u8) -> Seq<u8> {
        seq![m]
    }

    open spec fn encodable(m: u8) -> bool {
        true
    }

    proof fn lemma_round_trip(m: u8, s: Seq<u8>, at: int) {
        lemma_byte_stands(s, at, Self::wire(m)[0]);
    }

    fn is_encodable(&self) -> (r: bool) {
        true
    }

    fn write(&self, out: &mut Vec<u8>) {
        out.push(*self);
    }
}

impl BlockLength for u8 {
    open spec fn fixed_length() -> nat {
        1
    }

    fn block_length() -> (n: u16) {
        1
    }
}

impl FromBytes for i8 {
    open spec fn parse(s: Seq<u8>, at: int) -> Result<(i8, int), Failure> {
        if has_bytes(s, at, 1) {
            Ok((signed8(s[at]), at + 1))
        } else {
            Err((DecodeError::UnexpectedEof, at))
        }
    }

    fn read_at(buf: &[u8], at: usize) -> (r: Result<(Self, usize), Stop>) {
        if at >= buf.len() {
            return Err((DecodeError::UnexpectedEof, at));
        }
        let b = buf[at];
        let v: i8 = if b < 0x80 {
            b as i8
        } else {
            (b as i16 - 0x100) as i8
        };
        Ok((v, at + 1))
    }
}

impl ToBytes for i8 {
    open spec fn wire(m: i8) -> Seq<u8> {
        seq![unsigned8(m)]
    }

    open spec fn encodable(m: i8) -> bool {
        true
    }

    proof fn lemma_round_trip(m: i8, s: Seq<u8>, at: int) {
        lemma_byte_stands(s, at, Self::wire(m)[0]);
    }

    fn is_encodable(&self) -> (r: bool) {
        true
    }

    fn write(&self, out: &mut Vec<u8>) {
        let v = *self;
        let b: u8 = if v >= 0 {
            v as u8
        } else {
            (v as i16 + 0x100) as u8
        };
        out.push(b);
    }
}

impl BlockLength for i8 {
    open spec fn fixed_length() -> nat {
        1
    }

    fn block_length() -> (n: u16) {
        1
    }
}

impl FromBytes for u16 {
    open spec fn parse(s: Seq<u8>, at: int) -> Result<(u16, int), Failure> {
        if has_bytes(s, at, 2) {
            Ok((le_u16(s, at), at + 2))
        } else {
            Err((DecodeError::UnexpectedEof, at))
        }
    }

    fn read_at(buf: &[u8], at: usize) -> (r: Result<(Self, usize), Stop>) {
        match window(buf, at, 2) {
            None => Err((DecodeError::UnexpectedEof, at)),
            Some(w) => Ok((read_u16(w), at + 2)),
        }
    }
}

impl ToBytes for u16 {
    open spec fn wire(m: u16) -> Seq<u8> {
        u16_le(m)
    }

    open spec fn encodable(m: u16) -> bool {
        true
    }

    proof fn lemma_round_trip(m: u16, s: Seq<u8>, at: int) {
        lemma_u16_le(m, s, at);
    }

    fn is_encodable(&self) -> (r: bool) {
        true
    }

    fn write(&self, out: &mut Vec<u8>) {
        let bytes = write_u16(*self);
        append(out, bytes.as_slice());
    }
}

impl BlockLength for u16 {
    open spec fn fixed_length() -> nat {
        2
    }

    fn block_length() -> (n: u16) {
        2
    }
}

impl FromBytes for i16 {
    open spec fn parse(s: Seq<u8>, at: int) -> Result<(i16, int), Failure> {
        if has_bytes(s, at, 2) {
            Ok((signed16(le_u16(s, at)), at + 2))
        } else {
            Err((DecodeError::UnexpectedEof, at))
        }
    }

    fn read_at(buf: &[u8], at: usize) -> (r: Result<(Self, usize), Stop>) {
        match window(buf, at, 2) {
            None => Err((DecodeError::UnexpectedEof, at)),
            Some(w) => Ok((read_i16(w), at + 2)),
        }
    }
}

impl ToBytes for i16 {
    open spec fn wire(m: i16) -> Seq<u8> {
        u16_le(unsigned16(m))
    }

    open spec fn encodable(m: i16) -> bool {
        true
    }

    proof fn lemma_round_trip(m: i16, s: Seq<u8>, at: int) {
        lemma_u16_le(unsigned16(m), s, at);
    }

    fn is_encodable(&self) -> (r: bool) {
        true
    }

    fn write(&self, out: &mut Vec<u8>) {
        let bytes = write_i16(*self);
        append(out, bytes.as_slice());
    }
}

impl BlockLength for i16 {
    open spec fn fixed_length() -> nat {
        2
    }

    fn block_length() -> (n: u16) {
        2
    }
}

impl FromBytes for u32 {
    open spec fn parse(s: Seq<u8>, at: int) -> Result<(u32, int), Failure> {
        if has_bytes(s, at, 4) {
            Ok((le_u32(s, at), at + 4))
        } else {
            Err((DecodeError::UnexpectedEof, at))
        }
    }

    fn read_at(buf: &[u8], at: usize) -> (r: Result<(Self, usize), Stop>) {
        match window(buf, at, 4) {
            None => Err((DecodeError::UnexpectedEof, at)),
            Some(w) => Ok((read_u32(w), at + 4)),
        }
    }
}

impl ToBytes for u32 {
    open spec fn wire(m: u32) -> Seq<u8> {
        u32_le(m)
    }

    open spec fn encodable(m: u32) -> bool {
        true
    }

    proof fn lemma_round_trip(m: u32, s: Seq<u8>, at: int) {
        lemma_u32_le(m, s, at);
    }

    fn is_encodable(&self) -> (r: bool) {
        true
    }

    fn write(&self, out: &mut Vec<u8>) {
        let bytes = write_u32(*self);
        append(out, bytes.as_slice());
    }
}

impl BlockLength for u32 {
    open spec fn fixed_length() -> nat {
        4
    }

    fn block_length() -> (n: u16) {
        4
    }
}

impl FromBytes for i32 {
    open spec fn parse(s: Seq<u8>, at: int) -> Result<(i32, int), Failure> {
        if has_bytes(s, at, 4) {
            Ok((signed32(le_u32(s, at)), at + 4))
        } else {
            Err((DecodeError::UnexpectedEof, at))
        }
    }

    fn read_at(buf: &[u8], at: usize) -> (r: Result<(Self, usize), Stop>) {
        match window(buf, at, 4) {
            None => Err((DecodeError::UnexpectedEof, at)),
            Some(w) => Ok((read_i32(w), at + 4)),
        }
    }
}

impl ToBytes for i32 {
    open spec fn wire(m: i32) -> Seq<u8> {
        u32_le(unsigned32(m))
    }

    open spec fn encodable(m: i32) -> bool {
        true
    }

    proof fn lemma_round_trip(m: i32, s: Seq<u8>, at: int) {
        lemma_u32_le(unsigned32(m), s, at);
    }

    fn is_encodable(&self) -> (r: bool) {
        true
    }

    fn write(&self, out: &mut Vec<u8>) {
        let bytes = write_i32(*self);
        append(out, bytes.as_slice());
    }
}

impl BlockLength for i32 {
    open spec fn fixed_length() -> nat {
        4
    }

    fn block_length() -> (n: u16) {
        4
    }
}

impl FromBytes for u64 {
    open spec fn parse(s: Seq<u8>, at: int) -> Result<(u64, int), Failure> {
        if has_bytes(s, at, 8) {
            Ok((le_u64(s, at), at + 8))
        } else {
            Err((DecodeError::UnexpectedEof, at))
        }
    }

    fn read_at(buf: &[u8], at: usize) -> (r: Result<(Self, usize), Stop>) {
        match window(buf, at, 8) {
            None => Err((DecodeError::UnexpectedEof, at)),
            Some(w) => Ok((read_u64(w), at + 8)),
        }
    }
}

impl ToBytes for u64 {
    open spec fn wire(m: u64) -> Seq<u8> {
        u64_le(m)
    }

    open spec fn encodable(m: u64) -> bool {
        true
    }

    proof fn lemma_round_trip(m: u64, s: Seq<u8>, at: int) {
        lemma_u64_le(m, s, at);
    }

    fn is_encodable(&self) -> (r: bool) {
        true
    }

    fn write(&self, out: &mut Vec<u8>) {
        let bytes = write_u64(*self);
        append(out, bytes.as_slice());
    }
}

impl BlockLength for u64 {
    open spec fn fixed_length() -> nat {
        8
    }

    fn block_length() -> (n: u16) {
        8
    }
}

impl FromBytes for i64 {
    open spec fn parse(s: Seq<u8>, at: int) -> Result<(i64, int), Failure> {
        if has_bytes(s, at, 8) {
            Ok((signed64(le_u64(s, at)), at + 8))
        } else {
            Err((DecodeError::UnexpectedEof, at))
        }
    }

    fn read_at(buf: &[u8], at: usize) -> (r: Result<(Self, usize), Stop>) {
        match window(buf, at, 8) {
            None => Err((DecodeError::UnexpectedEof, at)),
            Some(w) => Ok((read_i64(w), at + 8)),
        }
    }
}

impl ToBytes for i64 {
    open spec fn wire(m: i64) -> Seq<u8> {
        u64_le(unsigned64(m))
    }

    open spec fn encodable(m: i64) -> bool {
        true
    }

    proof fn lemma_round_trip(m: i64, s: Seq<u8>, at: int) {
        lemma_u64_le(unsigned64(m), s, at);
    }

    fn is_encodable(&self) -> (r: bool) {
        true
    }

    fn write(&self, out: &mut Vec<u8>) {
        let bytes = write_i64(*self);
        append(out, bytes.as_slice());
    }
}

impl BlockLength for i64 {
    open spec fn fixed_length() -> nat {
        8
    }

    fn block_length() -> (n: u16) {
        8
    }
}

impl FromBytes for bool {
    /// A boolean is one byte: 0 is false, 1 is true, and no other byte is a
    /// boolean.
    open spec fn parse(s: Seq<u8>, at: int) -> Result<(bool, int), Failure> {
        if !has_bytes(s, at, 1) {
            Err((DecodeError::UnexpectedEof, at))
        } else if s[at] == 0 {
            Ok((false, at + 1))
        } else if s[at] == 1 {
            Ok((true, at + 1))
        } else {
            Err((DecodeError::InvalidBoolean(s[at]), at + 1))
        }
    }

    fn read_at(buf: &[u8], at: usize) -> (r: Result<(Self, usize), Stop>) {
        if at >= buf.len() {
            return Err((DecodeError::UnexpectedEof, at));
        }
        let b = buf[at];
        if b == 0 {
            Ok((false, at + 1))
        } else if b == 1 {
            Ok((true, at + 1))
        } else {
            Err((DecodeError::InvalidBoolean(b), at + 1))
        }
    }
}

impl ToBytes for bool {
    open spec fn wire(m: bool) -> Seq<u8> {
        seq![if m { 1u8 } else { 0u8 }]
    }

    open spec fn encodable(m: bool) -> bool {
        true
    }

    proof fn lemma_round_trip(m: bool, s: Seq<u8>, at: int) {
        lemma_byte_stands(s, at, Self::wire(m)[0]);
    }

    fn is_encodable(&self) -> (r: bool) {
        true
    }

    fn write(&self, out: &mut Vec<u8>) {
        out.push(if *self { 1 } else { 0 });
    }
}

impl BlockLength for bool {
    open spec fn fixed_length() -> nat {
        1
    }

    fn block_length() -> (n: u16) {
        1
    }
}

/// What `T::parse` gives. A proof about many types at once keeps it folded,
/// and unfolds it for one type at a time by `lemma_parse_as`.
#[verifier::opaque]
pub open spec fn parse_as<T: FromBytes>(s: Seq<u8>, at: int) -> Result<(T::V, int), Failure> {
    T::parse(s, at)
}

/// `parse_as` is `parse`.
pub proof fn lemma_parse_as<T: FromBytes>(s: Seq<u8>, at: int)
    ensures
        parse_as::<T>(s, at) == T::parse(s, at),
{
    reveal(parse_as);
}

/// `T::read_at`, with its result stated over `parse_as`.
pub fn read_as<T: FromBytes>(buf: &[u8], at: usize) -> (r: Result<(T, usize), Stop>)
    ensures
        match parse_as::<T>(buf@, at as int) {
            Ok((m, next)) => r matches Ok((v, n)) && v.deep_view() == m && n == next,
            Err((e, stop)) => r matches Err((x, p)) && x == e && p == stop,
        },
        r matches Ok((_, n)) ==> (at <= n && (n <= buf@.len() || n == at)),
        r matches Err((_, p)) ==> (at <= p && (p <= buf@.len() || p == at)),
{
    proof {
        lemma_parse_as::<T>(buf@, at as int);
    }
    T::read_at(buf, at)
}

/// The round trip of `T`, stated over `parse_as`.
pub proof fn lemma_round_trip_as<T: ToBytes>(m: T::V, s: Seq<u8>, at: int)
    requires
        T::encodable(m),
        stands_at(s, at, T::wire(m)),
    ensures
        parse_as::<T>(s, at) == Ok::<(T::V, int), Failure>((m, at + T::wire(m).len())),
{
    lemma_parse_as::<T>(s, at);
    T::lemma_round_trip(m, s, at);
}

/// Decoding what was encoded gives the value back: the bytes of an encodable
/// value, with whatever bytes in front of them and behind them, decode from
/// their first byte on to that value, and the decoding ends where they end.
pub proof fn lemma_decode_encode<T: ToBytes>(m: T::V, pre: Seq<u8>, post: Seq<u8>)
    requires
        T::encodable(m),
    ensures
        T::parse(pre + T::wire(m) + post, pre.len() as int) == Ok::<(T::V, int), Failure>(
            (m, (pre.len() + T::wire(m).len()) as int),
        ),
{
    let s = pre + T::wire(m) + post;
    lemma_concat_assoc(pre, T::wire(m), post);
    assert(s.subrange(0, s.len() as int) =~= s);
    lemma_last_stands(s, 0, pre, T::wire(m) + post);
    lemma_first_stands(s, pre.len() as int, T::wire(m), post);
    T::lemma_round_trip(m, s, pre.len() as int);
}

/// An opaque blob of bytes.
#[derive(Debug, PartialEq, Eq, Default)]
pub struct Data(pub Vec<u8>);

impl Clone for Data {
    fn clone(&self) -> (r: Self)
        ensures
            r.deep_view() == self.deep_view(),
    {
        Data(self.0.clone())
    }
}

impl DeepView for Data {
    type V = Seq<u8>;

    open spec fn deep_view(&self) -> Seq<u8> {
        self.0@
    }
}

impl std::ops::Deref for Data {
    type Target = Vec<u8>;

    fn deref(&self) -> (r: &Vec<u8>)
        ensures
            r == &self.0,
    {
        &self.0
    }
}

impl From<Data> for Vec<u8> {
    fn from(data: Data) -> (r: Self) {
        data.0
    }
}

impl FromSpecImpl<Data> for Vec<u8> {
    open spec fn obeys_from_spec() -> bool {
        true
    }

    open spec fn from_spec(data: Data) -> Vec<u8> {
        data.0
    }
}

impl Data {
    /// The number of bytes.
    pub fn len(&self) -> (r: usize)
        ensures
            r == self.deep_view().len(),
    {
        self.0.len()
    }

    /// Whether there is no byte.
    pub fn is_empty(&self) -> (r: bool)
        ensures
            r == (self.deep_view().len() == 0),
    {
        self.0.len() == 0
    }

    /// The bytes.
    pub fn to_vec(&self) -> (r: Vec<u8>)
        ensures
            r@ == self.deep_view(),
    {
        slice_to_vec(self.0.as_slice())
    }
}

impl FromBytes for Data {
    /// A blob is a 16 bit length and then as many bytes.
    open spec fn parse(s: Seq<u8>, at: int) -> Result<(Seq<u8>, int), Failure> {
        match u16::parse(s, at) {
            Err(e) => Err(e),
            Ok((length, start)) => if start + length <= s.len() {
                Ok((s.subrange(start, start + length), start + length))
            } else {
                Err((DecodeError::UnexpectedEof, start))
            },
        }
    }

    fn read_at(buf: &[u8], at: usize) -> (r: Result<(Self, usize), Stop>) {
        let (length, start) = u16::read_at(buf, at)?;
        match window(buf, start, length as usize) {
            None => Err((DecodeError::UnexpectedEof, start)),
            Some(w) => Ok((Data(slice_to_vec(w)), start + length as usize)),
        }
    }
}

impl ToBytes for Data {
    open spec fn wire(m: Seq<u8>) -> Seq<u8> {
        u16_le(m.len() as u16) + m
    }

    open spec fn encodable(m: Seq<u8>) -> bool {
        m.len() <= u16::MAX
    }

    proof fn lemma_round_trip(m: Seq<u8>, s: Seq<u8>, at: int) {
        let n = m.len() as u16;
        lemma_first_stands(s, at, u16_le(n), m);
        u16::lemma_round_trip(n, s, at);
        lemma_last_stands(s, at, u16_le(n), m);
    }

    fn is_encodable(&self) -> (r: bool) {
        self.0.len() <= 0xFFFF
    }

    fn write(&self, out: &mut Vec<u8>) {
        let n = self.0.len() as u16;
        n.write(out);
        append(out, self.0.as_slice());
        assert(out@ =~= old(out)@ + Self::wire(self.deep_view()));
    }
}

impl BlockLength for Data {
    open spec fn fixed_length() -> nat {
        0
    }

    fn block_length() -> (n: u16) {
        0
    }
}

/// `std::string::FromUtf8Error`: why bytes are no UTF-8. Nothing is known of
/// what is inside it.
#[verifier::external_type_specification]
#[verifier::external_body]
pub struct ExFromUtf8Error(FromUtf8Error);

/// `String::from_utf8` succeeds on the byte vectors that are UTF-8, and the
/// string it gives is made of those bytes.
pub assume_specification[ String::from_utf8 ](vec: Vec<u8>) -> (r: Result<String, FromUtf8Error>)
    ensures
        r is Ok <==> valid_utf8(vec@),
        r matches Ok(s) ==> encode_utf8(s@) == vec@,
;

/// The text that the bytes stand for in UTF-8, where they stand for one. The
/// definition is kept folded; a proof that needs it reveals it.
#[verifier::opaque]
pub open spec fn text_of(bytes: Seq<u8>) -> Option<Seq<char>> {
    if valid_utf8(bytes) {
        Some(decode_utf8(bytes))
    } else {
        None
    }
}

/// The bytes that stand for the text in UTF-8. The definition is kept
/// folded; a proof that needs it reveals it.
#[verifier::opaque]
pub open spec fn bytes_of(text: Seq<char>) -> Seq<u8> {
    encode_utf8(text)
}

/// The bytes of a text stand for that text.
pub proof fn lemma_text_of_bytes(text: Seq<char>)
    ensures
        text_of(bytes_of(text)) == Some(text),
{
    reveal(text_of);
    reveal(bytes_of);
}

/// The string that the bytes stand for in UTF-8, where they stand for one.
pub fn text_from(bytes: Vec<u8>) -> (r: Option<String>)
    ensures
        match text_of(bytes@) {
            Some(text) => r matches Some(x) && x@ == text,
            None => r is None,
        },
{
    proof {
        reveal(text_of);
    }
    match String::from_utf8(bytes) {
        Ok(text) => Some(text),
        Err(_) => None,
    }
}

impl FromBytes for String {
    /// A string is a blob whose bytes are UTF-8.
    open spec fn parse(s: Seq<u8>, at: int) -> Result<(Seq<char>, int), Failure> {
        match Data::parse(s, at) {
            Err(e) => Err(e),
            Ok((bytes, next)) => match text_of(bytes) {
                Some(text) => Ok((text, next)),
                None => Err((DecodeError::InvalidUtf8, next)),
            },
        }
    }

    fn read_at(buf: &[u8], at: usize) -> (r: Result<(Self, usize), Stop>) {
        let (data, next) = Data::read_at(buf, at)?;
        match text_from(data.0) {
            Some(text) => Ok((text, next)),
            None => Err((DecodeError::InvalidUtf8, next)),
        }
    }
}

impl ToBytes for String {
    open spec fn wire(m: Seq<char>) -> Seq<u8> {
        Data::wire(bytes_of(m))
    }

    open spec fn encodable(m: Seq<char>) -> bool {
        Data::encodable(bytes_of(m))
    }

    proof fn lemma_round_trip(m: Seq<char>, s: Seq<u8>, at: int) {
        Data::lemma_round_trip(bytes_of(m), s, at);
        lemma_text_of_bytes(m);
    }

    fn is_encodable(&self) -> (r: bool) {
        proof {
            reveal(bytes_of);
        }
        self.as_str().as_bytes().len() <= 0xFFFF
    }

    fn write(&self, out: &mut Vec<u8>) {
        proof {
            reveal(bytes_of);
        }
        let bytes = self.as_str().as_bytes();
        let n = bytes.len() as u16;
        n.write(out);
        append(out, bytes);
        assert(out@ =~= old(out)@ + Self::wire(self.deep_view()));
    }
}

impl BlockLength for String {
    open spec fn fixed_length() -> nat {
        0
    }

    fn block_length() -> (n: u16) {
        0
    }
}

/// What the bytes of `s` from `at` on decode to as `count` values of `T` in a
/// row: the first `count - 1` of them, then one more.
pub open spec fn parse_elements<T: FromBytes>(s: Seq<u8>, at: int, count: nat) -> Result<
    (Seq<T::V>, int),
    Failure,
>
    decreases count,
{
    if count == 0 {
        Ok((Seq::empty(), at))
    } else {
        match parse_elements::<T>(s, at, (count - 1) as nat) {
            Err(e) => Err(e),
            Ok((init, mid)) => match T::parse(s, mid) {
                Err(e) => Err(e),
                Ok((last, end)) => Ok((init.push(last), end)),
            },
        }
    }
}

/// The bytes of the elements of a group, one after the other.
pub open spec fn wire_elements<T: ToBytes>(m: Seq<T::V>) -> Seq<u8>
    decreases m.len(),
{
    if m.len() == 0 {
        Seq::empty()
    } else {
        wire_elements::<T>(m.drop_last()) + T::wire(m.last())
    }
}

/// Whether every element of a group can be encoded.
pub open spec fn all_encodable<T: ToBytes>(m: Seq<T::V>) -> bool {
    forall|i: int| 0 <= i < m.len() ==> T::encodable(#[trigger] m[i])
}

/// Where the first elements of a group cannot be decoded, the group cannot.
proof fn lemma_elements_fail<T: FromBytes>(s: Seq<u8>, at: int, k: nat, count: nat)
    requires
        k <= count,
        parse_elements::<T>(s, at, k) is Err,
    ensures
        parse_elements::<T>(s, at, count) == parse_elements::<T>(s, at, k),
    decreases count,
{
    if k < count {
        lemma_elements_fail::<T>(s, at, k, (count - 1) as nat);
    }
}

/// Decoding the bytes written for the elements of a group gives them back.
proof fn lemma_elements_round_trip<T: ToBytes>(m: Seq<T::V>, s: Seq<u8>, at: int)
    requires
        all_encodable::<T>(m),
        stands_at(s, at, wire_elements::<T>(m)),
    ensures
        parse_elements::<T>(s, at, m.len()) == Ok::<(Seq<T::V>, int), Failure>(
            (m, at + wire_elements::<T>(m).len()),
        ),
    decreases m.len(),
{
    if m.len() == 0 {
        assert(m =~= Seq::<T::V>::empty());
    } else {
        let init = m.drop_last();
        let last = m.last();
        let w_init = wire_elements::<T>(init);
        assert forall|i: int| 0 <= i < init.len() implies T::encodable(#[trigger] init[i]) by {
            assert(T::encodable(m[i]));
        }
        assert(T::encodable(m[m.len() - 1]));
        lemma_first_stands(s, at, w_init, T::wire(last));
        lemma_elements_round_trip::<T>(init, s, at);
        lemma_last_stands(s, at, w_init, T::wire(last));
        T::lemma_round_trip(last, s, at + w_init.len());
        assert(init.push(last) =~= m);
        assert(init.len() == (m.len() - 1) as nat);
    }
}

impl<T: FromBytes> FromBytes for Vec<T> {
    /// A group is a 16 bit hint of the block length of one element, which
    /// decoding passes over, an 8 bit count, and then as many elements.
    open spec fn parse(s: Seq<u8>, at: int) -> Result<(Seq<T::V>, int), Failure> {
        if has_bytes(s, at, 3) {
            parse_elements::<T>(s, at + 3, s[at + 2] as nat)
        } else {
            Err((DecodeError::UnexpectedEof, at))
        }
    }

    fn read_at(buf: &[u8], at: usize) -> (r: Result<(Self, usize), Stop>) {
        if at > buf.len() || buf.len() - at < 3 {
            return Err((DecodeError::UnexpectedEof, at));
        }
        let count = buf[at + 2];
        let mut group: Vec<T> = Vec::with_capacity(count as usize);
        let mut cur = at + 3;
        let mut i: u8 = 0;
        assert(group.deep_view() =~= Seq::<T::V>::empty());
        while i < count
            invariant
                i <= count,
                count == buf@[at + 2],
                at + 3 <= cur <= buf@.len(),
                parse_elements::<T>(buf@, at + 3, i as nat) == Ok::<(Seq<T::V>, int), Failure>(
                    (group.deep_view(), cur as int),
                ),
            decreases count - i,
        {
            let ghost before = group.deep_view();
            match T::read_at(buf, cur) {
                Err((e, stop)) => {
                    proof {
                        assert(parse_elements::<T>(buf@, at + 3, (i + 1) as nat) == Err::<
                            (Seq<T::V>, int),
                            Failure,
                        >((e, stop as int)));
                        lemma_elements_fail::<T>(buf@, at + 3, (i + 1) as nat, count as nat);
                    }
                    return Err((e, stop));
                },
                Ok((v, next)) => {
                    group.push(v);
                    cur = next;
                    assert(group.deep_view() =~= before.push(v.deep_view()));
                },
            }
            i += 1;
        }
        Ok((group, cur))
    }
}

impl<T: ToBytes + BlockLength> ToBytes for Vec<T> {
    open spec fn wire(m: Seq<T::V>) -> Seq<u8> {
        u16_le(T::fixed_length() as u16) + seq![m.len() as u8] + wire_elements::<T>(m)
    }

    open spec fn encodable(m: Seq<T::V>) -> bool {
        m.len() <= u8::MAX && all_encodable::<T>(m)
    }

    proof fn lemma_round_trip(m: Seq<T::V>, s: Seq<u8>, at: int) {
        let hint = u16_le(T::fixed_length() as u16);
        let count = seq![m.len() as u8];
        lemma_part_stands(s, at, hint, count, wire_elements::<T>(m));
        lemma_byte_stands(s, at + 2, m.len() as u8);
        lemma_last_stands(s, at, hint + count, wire_elements::<T>(m));
        lemma_elements_round_trip::<T>(m, s, at + 3);
    }

    fn is_encodable(&self) -> (r: bool) {
        if self.len() > 0xFF {
            return false;
        }
        let mut i: usize = 0;
        while i < self.len()
            invariant
                i <= self@.len(),
                forall|j: int| 0 <= j < i ==> T::encodable(#[trigger] self.deep_view()[j]),
            decreases self@.len() - i,
        {
            assert(self.deep_view()[i as int] == self@[i as int].deep_view());
            if !self[i].is_encodable() {
                return false;
            }
            i += 1;
        }
        true
    }

    fn write(&self, out: &mut Vec<u8>) {
        let hint = T::block_length();
        hint.write(out);
        out.push(self.len() as u8);
        let ghost head = out@;
        let ghost m = self.deep_view();
        let mut i: usize = 0;
        while i < self.len()
            invariant
                i <= self@.len(),
                m == self.deep_view(),
                all_encodable::<T>(m),
                out@ == head + wire_elements::<T>(m.take(i as int)),
            decreases self@.len() - i,
        {
            assert(m[i as int] == self@[i as int].deep_view());
            self[i].write(out);
            proof {
                let part = m.take(i + 1);
                assert(part.drop_last() =~= m.take(i as int));
                assert(part.last() == m[i as int]);
                assert(out@ =~= head + wire_elements::<T>(part));
            }
            i += 1;
        }
        assert(m.take(i as int) =~= m);
        assert(out@ =~= old(out)@ + Self::wire(m));
    }
}

impl<T> BlockLength for Vec<T> {
    open spec fn fixed_length() -> nat {
        0
    }

    fn block_length() -> (n: u16) {
        0
    }
}

} // verus!
