use unterflow::convert::{BlockLength, Cursor, Data, FromBytes};
use unterflow::errors::DecodeError;
use unterflow::protocol::client::EventType;
use unterflow::protocol::log::{FsLogSegment, LogEntry};
use unterflow::protocol::transport::{FrameHeader, FrameType};

/// The metadata of the recorded entry: a message header and the fields
/// behind it.
fn metadata() -> Vec<u8> {
    let mut bytes = vec![43, 0, 200, 0, 0, 0, 1, 0];
    bytes.extend_from_slice(&(-1i32).to_le_bytes());
    bytes.extend_from_slice(&u64::MAX.to_le_bytes());
    bytes.extend_from_slice(&u64::MAX.to_le_bytes());
    bytes.extend_from_slice(&0i32.to_le_bytes());
    bytes.extend_from_slice(&u64::MAX.to_le_bytes());
    bytes.extend_from_slice(&1u16.to_le_bytes());
    bytes.push(0);
    bytes.extend_from_slice(&u64::MAX.to_le_bytes());
    bytes
}

/// The head of a log entry, up to the lengths of the name and the metadata.
fn entry_head(topic_name_length: u16, metadata_length: u16) -> Vec<u8> {
    let mut bytes = Vec::new();
    bytes.extend_from_slice(&0u16.to_le_bytes());
    bytes.extend_from_slice(&[0, 0]); // reserved
    bytes.extend_from_slice(&4294967296u64.to_le_bytes());
    bytes.extend_from_slice(&u32::MAX.to_le_bytes());
    bytes.extend_from_slice(&u32::MAX.to_le_bytes());
    bytes.extend_from_slice(&u64::MAX.to_le_bytes());
    bytes.extend_from_slice(&4294967296u64.to_le_bytes());
    bytes.extend_from_slice(&topic_name_length.to_le_bytes());
    bytes.extend_from_slice(&metadata_length.to_le_bytes());
    bytes
}

/// The start of a recorded log segment: its header, and the frame of the
/// first entry.
fn segment() -> Vec<u8> {
    let mut bytes = Vec::new();
    bytes.extend_from_slice(&0u32.to_le_bytes());
    bytes.extend_from_slice(&0u16.to_le_bytes());
    bytes.extend_from_slice(&[0xEE, 0xEE]); // not used
    bytes.extend_from_slice(&536870912u32.to_le_bytes());
    bytes.extend_from_slice(&[0xDD; 124]); // padding
    bytes.extend_from_slice(&4864u32.to_le_bytes());
    bytes.resize(4096, 0);
    bytes.extend_from_slice(&92u32.to_le_bytes());
    bytes.extend_from_slice(&[0, 0, 0, 0]);
    bytes.extend_from_slice(&0u32.to_le_bytes());
    let metadata = metadata();
    bytes.extend(entry_head(0, metadata.len() as u16));
    bytes.extend(metadata);
    bytes
}

#[test]
fn test_decode_fs_log_segment() {
    let mut reader = Cursor::new(segment());

    let segment = FsLogSegment::from_bytes(&mut reader).unwrap();
    assert_eq!(segment.id, 0);
    assert_eq!(segment.version, 0);
    assert_eq!(segment.capacity, 536870912);
    assert_eq!(segment.size, 4864);

    assert_eq!(reader.position(), 4096);

    let frame = FrameHeader::from_bytes(&mut reader).unwrap();
    assert_eq!(frame.length, 92);
    assert_eq!(frame.version, 0);
    assert_eq!(frame.flags, 0);
    assert_eq!(frame.type_id, FrameType::Message);
    assert_eq!(frame.stream_id, 0);

    let entry = LogEntry::from_bytes(&mut reader).unwrap();
    assert_eq!(entry.version, 0);
    assert_eq!(entry.position, 4294967296);
    assert_eq!(entry.producer_id, u32::max_value());
    assert_eq!(entry.source_event_stream_partition_id, u32::max_value());
    assert_eq!(entry.source_event_position, u64::max_value());
    assert_eq!(entry.key, 4294967296);
    assert_eq!(entry.topic_name, String::new());
    // the metadata is read from its first byte on, message header included
    assert_eq!(entry.metadata.req_channel_id, 13107243);
    assert_eq!(entry.value, Data(Vec::new()));
}

#[test]
fn the_header_of_a_log_segment_takes_a_block() {
    assert_eq!(FsLogSegment::block_length(), 4096);
    let mut reader = Cursor::new(segment());
    assert_eq!(FsLogSegment::skip_block(&mut reader), Ok(4096));
    // less than a block is a short read
    let short = segment()[..4095].to_vec();
    assert_eq!(FsLogSegment::decode(&short, 0), Err(DecodeError::UnexpectedEof));
    assert_eq!(FsLogSegment::decode(&segment()[..4096], 1), Err(DecodeError::UnexpectedEof));
    assert!(FsLogSegment::decode(&segment(), 1).is_ok());
}

#[test]
fn a_log_entry_takes_all_that_is_left() {
    let mut bytes = vec![9, 9, 9];
    bytes.extend(entry_head(5, 43));
    bytes.extend_from_slice("topic".as_bytes());
    bytes.extend_from_slice(&metadata()[8..]);
    bytes.extend_from_slice(&[1, 2, 3, 4, 5]);
    let (entry, next) = LogEntry::decode(&bytes, 3).unwrap();
    assert_eq!(next, bytes.len());
    assert_eq!(entry.topic_name, "topic");
    assert_eq!(entry.metadata.req_channel_id, -1);
    assert_eq!(entry.metadata.req_connection_id, u64::MAX);
    assert_eq!(entry.metadata.raft_term_id, 0);
    assert_eq!(entry.metadata.protocol_version, 1);
    assert_eq!(entry.metadata.event_type, EventType::TaskEvent);
    assert_eq!(entry.value, Data(vec![1, 2, 3, 4, 5]));
}

#[test]
fn a_log_entry_that_is_cut_short_is_a_short_read() {
    let mut bytes = entry_head(5, 43);
    assert_eq!(LogEntry::decode(&bytes[..39], 0), Err(DecodeError::UnexpectedEof));
    // the name is not all there
    bytes.extend_from_slice("top".as_bytes());
    assert_eq!(LogEntry::decode(&bytes, 0), Err(DecodeError::UnexpectedEof));
    // the metadata is not all there
    bytes.extend_from_slice("ic".as_bytes());
    bytes.extend_from_slice(&metadata()[8..50]);
    assert_eq!(LogEntry::decode(&bytes, 0), Err(DecodeError::UnexpectedEof));
    bytes.push(0);
    assert!(LogEntry::decode(&bytes, 0).is_ok());

    // metadata of fewer bytes than its fields take
    let mut bytes = entry_head(0, 42);
    bytes.extend_from_slice(&metadata()[8..50]);
    assert_eq!(LogEntry::decode(&bytes, 0), Err(DecodeError::UnexpectedEof));

    // a name that is no text
    let mut bytes = entry_head(2, 43);
    bytes.extend_from_slice(&[0xFF, 0xFF]);
    bytes.extend_from_slice(&metadata()[8..]);
    assert_eq!(LogEntry::decode(&bytes, 0), Err(DecodeError::InvalidUtf8));
}
