use unterflow::convert::{BlockLength, Cursor, FromBytes, ToBytes};
use unterflow::errors::DecodeError;
use unterflow::protocol::transport::{
    FrameHeader, FrameType, MessageHeader, RequestResponseHeader, SingleMessageHeader,
    TransportHeader, TransportProtocol,
};

/// The headers that a recorded frame starts with.
fn headers(length: u32, frame_type: u16, stream_id: u32, connection_id: u64) -> Vec<u8> {
    let mut bytes = Vec::new();
    bytes.extend_from_slice(&length.to_le_bytes());
    bytes.push(0); // version
    bytes.push(0); // flags
    bytes.extend_from_slice(&frame_type.to_le_bytes());
    bytes.extend_from_slice(&stream_id.to_le_bytes());
    bytes.extend_from_slice(&0u16.to_le_bytes()); // request response
    bytes.extend_from_slice(&connection_id.to_le_bytes());
    bytes.extend_from_slice(&0u64.to_le_bytes()); // request id
    bytes
}

/// A recorded control frame: nothing but a frame header.
fn control(frame_type: u16) -> Vec<u8> {
    let mut bytes = vec![0, 0, 0, 0, 0, 0];
    bytes.extend_from_slice(&frame_type.to_le_bytes());
    bytes.extend_from_slice(&[0, 0, 0, 0]);
    bytes
}

#[test]
fn transport_test_block_length() {
    assert_eq!(FrameHeader::block_length(), 12);
    assert_eq!(FrameType::block_length(), 2);
    assert_eq!(TransportHeader::block_length(), 2);
    assert_eq!(RequestResponseHeader::block_length(), 16);
    assert_eq!(SingleMessageHeader::block_length(), 0);
}

#[test]
fn transport_test_decode_create_task_request() {
    let mut reader = Cursor::new(headers(147, 0, 2, 1));

    let header = FrameHeader::from_bytes(&mut reader).unwrap();
    assert_eq!(header.length, 147);
    assert_eq!(header.version, 0);
    assert_eq!(header.flags, 0);
    assert_eq!(header.type_id, FrameType::Message);
    assert_eq!(header.stream_id, 2);

    let header = TransportHeader::from_bytes(&mut reader).unwrap();
    assert_eq!(header.protocol_id, TransportProtocol::RequestResponse);

    let header = RequestResponseHeader::from_bytes(&mut reader).unwrap();
    assert_eq!(header.connection_id, 1);
    assert_eq!(header.request_id, 0);
}

#[test]
fn transport_test_decode_create_task_response() {
    let mut reader = Cursor::new(headers(269, 0, 2, 1));

    let header = FrameHeader::from_bytes(&mut reader).unwrap();
    assert_eq!(header.length, 269);
    assert_eq!(header.version, 0);
    assert_eq!(header.flags, 0);
    assert_eq!(header.type_id, FrameType::Message);
    assert_eq!(header.stream_id, 2);

    let header = TransportHeader::from_bytes(&mut reader).unwrap();
    assert_eq!(header.protocol_id, TransportProtocol::RequestResponse);

    let header = RequestResponseHeader::from_bytes(&mut reader).unwrap();
    assert_eq!(header.connection_id, 1);
    assert_eq!(header.request_id, 0);

    // an earlier record of the same exchange
    let mut reader = Cursor::new(headers(271, 0, 2, 1));

    let header = FrameHeader::from_bytes(&mut reader).unwrap();
    assert_eq!(header.length, 271);
    assert_eq!(header.version, 0);
    assert_eq!(header.flags, 0);
    assert_eq!(header.type_id, FrameType::Message);
    assert_eq!(header.stream_id, 2);

    let header = TransportHeader::from_bytes(&mut reader).unwrap();
    assert_eq!(header.protocol_id, TransportProtocol::RequestResponse);

    let header = RequestResponseHeader::from_bytes(&mut reader).unwrap();
    assert_eq!(header.connection_id, 1);
    assert_eq!(header.request_id, 0);
}

#[test]
fn transport_test_decode_close_subscription_request() {
    let mut reader = Cursor::new(headers(90, 0, 2, 2));

    let header = FrameHeader::from_bytes(&mut reader).unwrap();
    assert_eq!(header.length, 90);
    assert_eq!(header.version, 0);
    assert_eq!(header.flags, 0);
    assert_eq!(header.type_id, FrameType::Message);
    assert_eq!(header.stream_id, 2);

    let header = TransportHeader::from_bytes(&mut reader).unwrap();
    assert_eq!(header.protocol_id, TransportProtocol::RequestResponse);

    let header = RequestResponseHeader::from_bytes(&mut reader).unwrap();
    assert_eq!(header.connection_id, 2);
    assert_eq!(header.request_id, 0);
}

#[test]
fn transport_test_decode_close_subscription_response() {
    let mut reader = Cursor::new(headers(89, 0, 2, 2));

    let header = FrameHeader::from_bytes(&mut reader).unwrap();
    assert_eq!(header.length, 89);
    assert_eq!(header.version, 0);
    assert_eq!(header.flags, 0);
    assert_eq!(header.type_id, FrameType::Message);
    assert_eq!(header.stream_id, 2);

    let header = TransportHeader::from_bytes(&mut reader).unwrap();
    assert_eq!(header.protocol_id, TransportProtocol::RequestResponse);

    let header = RequestResponseHeader::from_bytes(&mut reader).unwrap();
    assert_eq!(header.connection_id, 2);
    assert_eq!(header.request_id, 0);
}

#[test]
fn transport_test_decode_close_channel() {
    let mut reader = Cursor::new(control(100));

    let header = FrameHeader::from_bytes(&mut reader).unwrap();
    assert_eq!(header.length, 0);
    assert_eq!(header.version, 0);
    assert_eq!(header.flags, 0);
    assert_eq!(header.type_id, FrameType::ControlClose);
    assert_eq!(header.stream_id, 0);
}

#[test]
fn transport_test_decode_end_of_stream() {
    let mut reader = Cursor::new(control(101));

    let header = FrameHeader::from_bytes(&mut reader).unwrap();
    assert_eq!(header.length, 0);
    assert_eq!(header.version, 0);
    assert_eq!(header.flags, 0);
    assert_eq!(header.type_id, FrameType::ControlEndOfStream);
    assert_eq!(header.stream_id, 0);
}

#[test]
fn frame_types_have_their_discriminants() {
    let cases = [
        (0u16, FrameType::Message),
        (1, FrameType::Padding),
        (100, FrameType::ControlClose),
        (101, FrameType::ControlEndOfStream),
        (102, FrameType::ControlKeepAlive),
        (103, FrameType::ProtocolControlFrame),
        (2, FrameType::Unknown),
        (99, FrameType::Unknown),
        (104, FrameType::Unknown),
        (256, FrameType::Unknown),
        (0xFFFF, FrameType::Unknown),
    ];
    for (value, expected) in cases {
        assert_eq!(FrameType::from_discriminant(value), expected);
        assert_eq!(FrameType::decode(&value.to_le_bytes(), 0), Ok((expected, 2)));
    }
    assert_eq!(FrameType::default(), FrameType::Unknown);
    assert_eq!(FrameType::ControlKeepAlive.to_discriminant(), 102);
    assert_eq!(FrameType::Unknown.to_discriminant(), 0xFFFF);
}

#[test]
fn transport_protocols_have_their_discriminants() {
    assert_eq!(
        TransportProtocol::decode(&[0, 0], 0),
        Ok((TransportProtocol::RequestResponse, 2))
    );
    assert_eq!(
        TransportProtocol::decode(&[1, 0], 0),
        Ok((TransportProtocol::FullDuplexSingleMessage, 2))
    );
    assert_eq!(TransportProtocol::decode(&[2, 0], 0), Ok((TransportProtocol::Unknown, 2)));
    assert_eq!(TransportProtocol::decode(&[0, 1], 0), Ok((TransportProtocol::Unknown, 2)));
    assert_eq!(TransportProtocol::decode(&[0], 0), Err(DecodeError::UnexpectedEof));
    assert_eq!(TransportProtocol::default(), TransportProtocol::Unknown);
}

#[test]
fn every_discriminant_of_a_frame_type_decodes() {
    for value in 0..=u16::MAX {
        let decoded = FrameType::from_discriminant(value);
        let known = [0, 1, 100, 101, 102, 103].contains(&value);
        assert_eq!(decoded == FrameType::Unknown, !known);
    }
}

#[test]
fn headers_are_written_as_they_are_read() {
    let frame = FrameHeader {
        length: 0x01020304,
        version: 5,
        flags: 6,
        type_id: FrameType::ControlKeepAlive,
        stream_id: 0x0708090A,
    };
    let mut out = Vec::new();
    frame.to_bytes(&mut out).unwrap();
    assert_eq!(out, vec![4, 3, 2, 1, 5, 6, 102, 0, 10, 9, 8, 7]);
    assert_eq!(FrameHeader::decode(&out, 0), Ok((frame, 12)));

    let header = MessageHeader { block_length: 11, template_id: 20, schema_id: 0, version: 1 };
    let mut out = Vec::new();
    header.to_bytes(&mut out).unwrap();
    assert_eq!(out, vec![11, 0, 20, 0, 0, 0, 1, 0]);
    assert_eq!(MessageHeader::decode(&out, 0), Ok((header, 8)));

    let header = RequestResponseHeader { connection_id: 1, request_id: u64::MAX };
    let mut out = Vec::new();
    header.to_bytes(&mut out).unwrap();
    assert_eq!(out, vec![1, 0, 0, 0, 0, 0, 0, 0, 255, 255, 255, 255, 255, 255, 255, 255]);
    assert_eq!(RequestResponseHeader::decode(&out, 0), Ok((header, 16)));

    let mut out = Vec::new();
    SingleMessageHeader {}.to_bytes(&mut out).unwrap();
    assert!(out.is_empty());
    assert_eq!(SingleMessageHeader::decode(&[], 3), Ok((SingleMessageHeader {}, 3)));
}

#[test]
fn a_frame_header_says_how_long_the_frame_is() {
    let frame = FrameHeader { length: 147, ..FrameHeader::default() };
    assert_eq!(frame.message_length(), 159);
    let frame = FrameHeader { length: u32::MAX, ..FrameHeader::default() };
    assert_eq!(frame.message_length(), 4294967307);
}
