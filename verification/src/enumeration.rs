//! Enumerations described by the discriminants of their variants.
//!
//! An enumeration on the wire is a number of a fixed width. Its variants are
//! declared one after the other, each with a discriminant of its own or
//! without one; a variant without one has its position as discriminant. A
//! number that is the discriminant of no variant stands for the variant
//! `Unknown`, which every enumeration has and which is declared nowhere.

use crate::convert::{Cursor, FromBytes};
use crate::errors::DecodeError;
use vstd::prelude::*;

verus! {

/// The type of the discriminant of an enumeration.
#[derive(Debug, Clone, Copy, PartialEq, Eq, Structural)]
pub enum Width {
    U8,
    U16,
    U32,
    U64,
}

impl Default for Width {
    /// An enumeration that names no type has discriminants of one byte.
    fn default() -> (r: Self)
        ensures
            r == Width::U8,
    {
        Width::U8
    }
}

impl Width {
    /// The number of bytes of a discriminant.
    pub open spec fn bytes(self) -> nat {
        match self {
            Width::U8 => 1,
            Width::U16 => 2,
            Width::U32 => 4,
            Width::U64 => 8,
        }
    }

    /// The block length of an enumeration with discriminants of this type.
    pub fn block_length(&self) -> (n: u16)
        ensures
            n == self.bytes(),
    {
        match self {
            Width::U8 => 1,
            Width::U16 => 2,
            Width::U32 => 4,
            Width::U64 => 8,
        }
    }

    /// The discriminant that the bytes of `s` from `at` on hold.
    pub open spec fn parse(self, s: Seq<u8>, at: int) -> Result<(u64, int), DecodeError> {
        match self {
            Width::U8 => match u8::parse(s, at) {
                Err((e, _)) => Err(e),
                Ok((v, next)) => Ok((v as u64, next)),
            },
            Width::U16 => match u16::parse(s, at) {
                Err((e, _)) => Err(e),
                Ok((v, next)) => Ok((v as u64, next)),
            },
            Width::U32 => match u32::parse(s, at) {
                Err((e, _)) => Err(e),
                Ok((v, next)) => Ok((v as u64, next)),
            },
            Width::U64 => match u64::parse(s, at) {
                Err((e, _)) => Err(e),
                Ok(found) => Ok(found),
            },
        }
    }

    /// Decodes the discriminant that starts in `buf` at `at`.
    pub fn decode(&self, buf: &[u8], at: usize) -> (r: Result<(u64, usize), DecodeError>)
        ensures
            match self.parse(buf@, at as int) {
                Ok((v, next)) => r matches Ok((x, n)) && x == v && n == next,
                Err(e) => r matches Err(x) && x == e,
            },
            r is Err ==> !(at + self.bytes() <= buf@.len()),
            r matches Ok((_, n)) ==> at < n <= buf@.len(),
    {
        match self {
            Width::U8 => {
                let (v, next) = u8::decode(buf, at)?;
                Ok((v as u64, next))
            },
            Width::U16 => {
                let (v, next) = u16::decode(buf, at)?;
                Ok((v as u64, next))
            },
            Width::U32 => {
                let (v, next) = u32::decode(buf, at)?;
                Ok((v as u64, next))
            },
            Width::U64 => u64::decode(buf, at),
        }
    }
}

/// The discriminant of the variant declared at position `i`: the one it was
/// declared with, or its position.
pub open spec fn discriminant_at(declared: Seq<Option<u64>>, i: int) -> u64 {
    match declared[i] {
        Some(value) => value,
        None => i as u64,
    }
}

/// The discriminants of the variants of an enumeration, in the order of their
/// declaration.
pub fn discriminants(declared: &[Option<u64>]) -> (table: Vec<u64>)
    ensures
        table@.len() == declared@.len(),
        forall|i: int| 0 <= i < declared@.len() ==> table@[i] == discriminant_at(declared@, i),
{
    let mut table: Vec<u64> = Vec::with_capacity(declared.len());
    let mut i: usize = 0;
    while i < declared.len()
        invariant
            i <= declared@.len(),
            table@.len() == i,
            forall|j: int| 0 <= j < i ==> table@[j] == discriminant_at(declared@, j),
        decreases declared@.len() - i,
    {
        let value = match declared[i] {
            Some(value) => value,
            None => i as u64,
        };
        table.push(value);
        i += 1;
    }
    table
}

/// The position of the variant that `value` stands for: the first one with
/// that discriminant at or behind position `from`. No position stands for
/// `Unknown`.
pub open spec fn variant_from(table: Seq<u64>, value: u64, from: int) -> Option<int>
    decreases table.len() - from,
{
    if from < 0 || from >= table.len() {
        None
    } else if table[from] == value {
        Some(from)
    } else {
        variant_from(table, value, from + 1)
    }
}

/// The position of the variant that `value` stands for. No position stands
/// for `Unknown`.
pub open spec fn variant(table: Seq<u64>, value: u64) -> Option<int> {
    variant_from(table, value, 0)
}

/// A number that is the discriminant of no variant stands for `Unknown`, and
/// any other number stands for a variant with that discriminant.
pub proof fn lemma_variant(table: Seq<u64>, value: u64, from: int)
    requires
        0 <= from,
    ensures
        match variant_from(table, value, from) {
            None => forall|i: int| from <= i < table.len() ==> table[i] != value,
            Some(i) => from <= i < table.len() && table[i] == value,
        },
    decreases table.len() - from,
{
    if from < table.len() && table[from] != value {
        lemma_variant(table, value, from + 1);
    }
}

/// Whether a position in executable code is the position `v`.
pub open spec fn same_variant(x: Option<usize>, v: Option<int>) -> bool {
    match (x, v) {
        (None, None) => true,
        (Some(a), Some(b)) => a == b,
        _ => false,
    }
}

/// The position of the variant that `value` stands for.
pub fn variant_of(table: &[u64], value: u64) -> (r: Option<usize>)
    ensures
        same_variant(r, variant(table@, value)),
{
    let mut i: usize = 0;
    while i < table.len()
        invariant
            i <= table@.len(),
            variant(table@, value) == variant_from(table@, value, i as int),
        decreases table@.len() - i,
    {
        if table[i] == value {
            return Some(i);
        }
        i += 1;
    }
    None
}

/// What the bytes of `s` from `at` on decode to as a value of the
/// enumeration with the discriminants `table` of type `width`: the position
/// of a variant, or no position for `Unknown`. Every discriminant decodes.
pub open spec fn parse_variant(table: Seq<u64>, width: Width, s: Seq<u8>, at: int) -> Result<
    (Option<int>, int),
    DecodeError,
> {
    match width.parse(s, at) {
        Err(e) => Err(e),
        Ok((value, next)) => Ok((variant(table, value), next)),
    }
}

/// Decodes the value of an enumeration that starts in `buf` at `at`.
pub fn decode_variant(table: &[u64], width: Width, buf: &[u8], at: usize) -> (r: Result<
    (Option<usize>, usize),
    DecodeError,
>)
    ensures
        match parse_variant(table@, width, buf@, at as int) {
            Ok((v, next)) => r matches Ok((x, n)) && same_variant(x, v) && n == next,
            Err(e) => r matches Err(x) && x == e,
        },
        r matches Ok((_, n)) ==> at < n <= buf@.len(),
        r is Err ==> !(at + width.bytes() <= buf@.len()),
{
    let (value, next) = width.decode(buf, at)?;
    Ok((variant_of(table, value), next))
}

/// Decodes the value of an enumeration at the read position and moves the
/// position behind it. Where the input ends before the discriminant does the
/// cursor stays as it was.
pub fn from_bytes_variant(table: &[u64], width: Width, reader: &mut Cursor) -> (r: Result<
    Option<usize>,
    DecodeError,
>)
    ensures
        final(reader).data == old(reader).data,
        match parse_variant(table@, width, old(reader).data@, old(reader).start()) {
            Ok((v, next)) => {
                &&& r matches Ok(x) && same_variant(x, v)
                &&& final(reader).position == next
            },
            Err(e) => {
                &&& r matches Err(x) && x == e
                &&& final(reader).position == old(reader).position
            },
        },
{
    let at = reader.offset();
    match decode_variant(table, width, reader.data.as_slice(), at) {
        Ok((v, next)) => {
            reader.position = next as u64;
            Ok(v)
        },
        Err(e) => Err(e),
    }
}

} // verus!
