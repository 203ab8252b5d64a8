//! The header of a log segment on disk, and the entries of the log.

use crate::convert::{
    has_bytes, parse_as, read_as, text_from, text_of, BlockLength, Data, FromBytes,
};
use crate::endian::{le_u16, le_u32, le_u64};
use crate::errors::{DecodeError, Failure, Stop};
use crate::protocol::client::BrokerEventMetadata;
use vstd::prelude::*;
use vstd::slice::slice_subrange;
use vstd::slice::slice_to_vec;

verus! {

/// The number of bytes that the header of a log segment takes on disk: its
/// fields, aligned to the size of a block.
pub const BLOCK_SIZE: u16 = 4096;

/// The number of bytes of padding between the capacity and the size of a log
/// segment: what is left of two cache lines.
pub const CACHE_LINE_PADDING: u16 = 124;

/// The number of bytes of a log entry in front of its topic name.
pub const ENTRY_HEAD: u16 = 40;

/// The header of a log segment on disk.
#[derive(Debug, Clone, Copy, PartialEq, Eq, Structural)]
pub struct FsLogSegment {
    pub id: u32,
    pub version: u16,
    pub capacity: u32,
    pub size: u32,
}

impl DeepView for FsLogSegment {
    type V = FsLogSegment;

    open spec fn deep_view(&self) -> FsLogSegment {
        *self
    }
}

impl BlockLength for FsLogSegment {
    open spec fn fixed_length() -> nat {
        BLOCK_SIZE as nat
    }

    fn block_length() -> (n: u16) {
        BLOCK_SIZE
    }
}

impl FromBytes for FsLogSegment {
    /// The header takes one block. The id stands at its start, the version
    /// behind the id, the capacity two unused bytes further, and the size
    /// behind the padding that follows the capacity.
    open spec fn parse(s: Seq<u8>, at: int) -> Result<(FsLogSegment, int), Failure> {
        if has_bytes(s, at, BLOCK_SIZE as int) {
            Ok(
                (
                    FsLogSegment {
                        id: le_u32(s, at),
                        version: le_u16(s, at + 4),
                        capacity: le_u32(s, at + 8),
                        size: le_u32(s, at + 12 + CACHE_LINE_PADDING),
                    },
                    at + BLOCK_SIZE,
                ),
            )
        } else {
            Err((DecodeError::UnexpectedEof, at))
        }
    }

    fn read_at(buf: &[u8], at: usize) -> (r: Result<(Self, usize), Stop>) {
        if at > buf.len() || buf.len() - at < BLOCK_SIZE as usize {
            return Err((DecodeError::UnexpectedEof, at));
        }
        let (id, next) = u32::read_at(buf, at)?;
        let (version, next) = u16::read_at(buf, next)?;
        // two bytes are not used
        let (capacity, next) = u32::read_at(buf, next + 2)?;
        let (size, _) = u32::read_at(buf, next + CACHE_LINE_PADDING as usize)?;
        Ok((FsLogSegment { id, version, capacity, size }, at + BLOCK_SIZE as usize))
    }
}

/// An entry of the log.
#[derive(Debug, PartialEq, Eq, Default)]
pub struct LogEntry {
    pub version: u16,
    pub position: u64,
    pub producer_id: u32,
    pub source_event_stream_partition_id: u32,
    pub source_event_position: u64,
    pub key: u64,
    pub topic_name: String,
    pub metadata: BrokerEventMetadata,
    pub value: Data,
}

/// The model of `LogEntry`.
pub struct LogEntryView {
    pub version: u16,
    pub position: u64,
    pub producer_id: u32,
    pub source_event_stream_partition_id: u32,
    pub source_event_position: u64,
    pub key: u64,
    pub topic_name: Seq<char>,
    pub metadata: BrokerEventMetadata,
    pub value: Seq<u8>,
}

impl DeepView for LogEntry {
    type V = LogEntryView;

    open spec fn deep_view(&self) -> LogEntryView {
        LogEntryView {
            version: self.version,
            position: self.position,
            producer_id: self.producer_id,
            source_event_stream_partition_id: self.source_event_stream_partition_id,
            source_event_position: self.source_event_position,
            key: self.key,
            topic_name: self.topic_name.deep_view(),
            metadata: self.metadata,
            value: self.value.deep_view(),
        }
    }
}

impl FromBytes for LogEntry {
    /// An entry is a head of fixed length, which ends with the lengths of the
    /// topic name and of the metadata, then the topic name, then the metadata,
    /// and then the value, which is all that is left of the input. The
    /// metadata is decoded from its own bytes alone. An entry that is cut
    /// short stops where the part begins that is not all there.
    open spec fn parse(s: Seq<u8>, at: int) -> Result<(LogEntryView, int), Failure> {
        if !has_bytes(s, at, ENTRY_HEAD as int) {
            Err((DecodeError::UnexpectedEof, at))
        } else {
            let name = at + ENTRY_HEAD;
            let metadata = name + le_u16(s, at + 36);
            let value = metadata + le_u16(s, at + 38);
            if metadata > s.len() {
                Err((DecodeError::UnexpectedEof, name))
            } else {
                match text_of(s.subrange(name, metadata)) {
                    None => Err((DecodeError::InvalidUtf8, metadata)),
                    Some(topic_name) => if value > s.len() {
                        Err((DecodeError::UnexpectedEof, metadata))
                    } else {
                        match parse_as::<BrokerEventMetadata>(s.subrange(metadata, value), 0) {
                            Err((e, stop)) => Err((e, metadata + stop)),
                            Ok((event_metadata, _)) => Ok(
                                (
                                    LogEntryView {
                                        version: le_u16(s, at),
                                        position: le_u64(s, at + 4),
                                        producer_id: le_u32(s, at + 12),
                                        source_event_stream_partition_id: le_u32(s, at + 16),
                                        source_event_position: le_u64(s, at + 20),
                                        key: le_u64(s, at + 28),
                                        topic_name,
                                        metadata: event_metadata,
                                        value: s.subrange(value, s.len() as int),
                                    },
                                    s.len() as int,
                                ),
                            ),
                        }
                    },
                }
            }
        }
    }

    fn read_at(buf: &[u8], at: usize) -> (r: Result<(Self, usize), Stop>) {
        if at > buf.len() || buf.len() - at < ENTRY_HEAD as usize {
            return Err((DecodeError::UnexpectedEof, at));
        }
        let (version, next) = u16::read_at(buf, at)?;
        // two bytes are reserved
        let (position, next) = u64::read_at(buf, next + 2)?;
        let (producer_id, next) = u32::read_at(buf, next)?;
        let (source_event_stream_partition_id, next) = u32::read_at(buf, next)?;
        let (source_event_position, next) = u64::read_at(buf, next)?;
        let (key, next) = u64::read_at(buf, next)?;
        let (topic_name_length, next) = u16::read_at(buf, next)?;
        let (metadata_length, name) = u16::read_at(buf, next)?;
        if buf.len() - name < topic_name_length as usize {
            return Err((DecodeError::UnexpectedEof, name));
        }
        let metadata = name + topic_name_length as usize;
        let topic_name = match text_from(slice_to_vec(slice_subrange(buf, name, metadata))) {
            Some(text) => text,
            None => {
                return Err((DecodeError::InvalidUtf8, metadata));
            },
        };
        if buf.len() - metadata < metadata_length as usize {
            return Err((DecodeError::UnexpectedEof, metadata));
        }
        let value = metadata + metadata_length as usize;
        let event_metadata = match read_as::<BrokerEventMetadata>(
            slice_subrange(buf, metadata, value),
            0,
        ) {
            Ok((found, _)) => found,
            Err((e, stop)) => {
                return Err((e, metadata + stop));
            },
        };
        let rest = slice_to_vec(slice_subrange(buf, value, buf.len()));
        Ok(
            (
                LogEntry {
                    version,
                    position,
                    producer_id,
                    source_event_stream_partition_id,
                    source_event_position,
                    key,
                    topic_name,
                    metadata: event_metadata,
                    value: Data(rest),
                },
                buf.len(),
            ),
        )
    }
}

} // verus!
