use unterflow::convert::{Cursor, Data, FromBytes, ToBytes};
use unterflow::errors::{DecodeError, EncodeError};
use unterflow::frame::{Payload, Protocol, ProtocolHeader, TransportMessage};
use unterflow::protocol::client::{
    ControlMessageResponse, ErrorCode, ErrorResponse, EventType, ExecuteCommandRequest,
};
use unterflow::protocol::management::InvitationResponse;
use unterflow::protocol::message::MessageBody;
use unterflow::protocol::raft::{Member, JoinResponse, PollResponse, VoteResponse};
use unterflow::protocol::transport::{
    FrameHeader, FrameType, MessageHeader, RequestResponseHeader, SingleMessageHeader,
    TransportHeader, TransportProtocol,
};

fn create_task() -> ExecuteCommandRequest {
    ExecuteCommandRequest {
        partition_id: 0,
        key: u64::MAX,
        event_type: EventType::TaskEvent,
        topic_name: "default-topic".to_string(),
        command: Data((0..75).collect()),
    }
}

/// The bytes of a frame that carries the request to create a task.
fn create_task_frame(length: u32) -> Vec<u8> {
    let mut bytes = Vec::new();
    bytes.extend_from_slice(&length.to_le_bytes());
    bytes.extend_from_slice(&[0, 0, 0, 0]);
    bytes.extend_from_slice(&2u32.to_le_bytes());
    bytes.extend_from_slice(&[0, 0]);
    bytes.extend_from_slice(&1u64.to_le_bytes());
    bytes.extend_from_slice(&7u64.to_le_bytes());
    bytes.extend_from_slice(&[11, 0, 20, 0, 0, 0, 1, 0]);
    bytes.extend_from_slice(&[0, 0]);
    bytes.extend_from_slice(&[255; 8]);
    bytes.push(0);
    bytes.extend_from_slice(&[13, 0]);
    bytes.extend_from_slice("default-topic".as_bytes());
    bytes.extend_from_slice(&[75, 0]);
    bytes.extend(0..75u8);
    bytes
}

fn frame_header(length: u32, type_id: FrameType) -> FrameHeader {
    FrameHeader { length, version: 0, flags: 0, type_id, stream_id: 2 }
}

#[test]
fn a_message_frame_decodes_header_by_header() {
    let bytes = create_task_frame(129);
    assert_eq!(bytes.len(), 12 + 129);
    let (message, next) = TransportMessage::decode(&bytes, 0).unwrap();
    assert_eq!(next, bytes.len());
    assert_eq!(message.frame, frame_header(129, FrameType::Message));
    assert_eq!(message.request_id(), Some(7));
    assert_eq!(message.message(), Some(&MessageBody::ExecuteCommandRequest(create_task())));
    assert_eq!(
        message.payload,
        Some(Payload {
            protocol: ProtocolHeader::RequestResponse(RequestResponseHeader {
                connection_id: 1,
                request_id: 7,
            }),
            message: MessageBody::ExecuteCommandRequest(create_task()),
        })
    );
}

#[test]
fn the_length_of_a_frame_does_not_drive_the_decoding() {
    // the header announces more bytes than the message takes, or fewer
    for length in [0, 1, 129, 147, u32::MAX] {
        let mut bytes = create_task_frame(length);
        bytes.extend_from_slice(&[0; 18]);
        let (message, next) = TransportMessage::decode(&bytes, 0).unwrap();
        assert_eq!(next, 12 + 129);
        assert_eq!(message.frame.length, length);
        assert_eq!(message.message(), Some(&MessageBody::ExecuteCommandRequest(create_task())));
    }
}

#[test]
fn a_frame_is_written_as_it_is_read() {
    let bytes = create_task_frame(129);
    let (message, _) = TransportMessage::decode(&bytes, 0).unwrap();
    let mut out = vec![1, 2, 3];
    message.to_bytes(&mut out).unwrap();
    assert_eq!(&out[3..], &bytes[..]);
}

#[test]
fn a_control_frame_is_its_header() {
    for (value, type_id) in [
        (1u8, FrameType::Padding),
        (100, FrameType::ControlClose),
        (101, FrameType::ControlEndOfStream),
        (102, FrameType::ControlKeepAlive),
        (103, FrameType::ProtocolControlFrame),
    ] {
        let bytes = vec![0, 0, 0, 0, 0, 0, value, 0, 0, 0, 0, 0, 0xAA, 0xBB];
        let (message, next) = TransportMessage::decode(&bytes, 0).unwrap();
        assert_eq!(next, 12);
        assert_eq!(
            message.frame,
            FrameHeader { length: 0, version: 0, flags: 0, type_id, stream_id: 0 }
        );
        assert_eq!(message.payload, None);
        assert_eq!(message.request_id(), None);
        assert_eq!(message.message(), None);
        let mut out = Vec::new();
        message.to_bytes(&mut out).unwrap();
        assert_eq!(&out[..], &bytes[..12]);
    }
}

#[test]
fn a_frame_of_an_unknown_type_is_an_error() {
    let mut bytes = create_task_frame(129);
    bytes[6] = 2;
    assert_eq!(TransportMessage::decode(&bytes, 0), Err(DecodeError::UnknownFrameType));
    bytes[6] = 0;
    bytes[7] = 1;
    assert_eq!(TransportMessage::decode(&bytes, 0), Err(DecodeError::UnknownFrameType));
}

#[test]
fn an_unknown_transport_protocol_is_an_error() {
    let mut bytes = create_task_frame(129);
    bytes[12] = 2;
    assert_eq!(
        TransportMessage::decode(&bytes, 0),
        Err(DecodeError::UnknownTransportProtocol)
    );
    assert_eq!(ProtocolHeader::decode(&[9, 9], 0), Err(DecodeError::UnknownTransportProtocol));
}

#[test]
fn a_header_of_no_message_type_is_an_error() {
    let unknown = |block_length, template_id, schema_id, version| {
        DecodeError::UnknownMessage { block_length, template_id, schema_id, version }
    };
    // an unknown template
    let mut bytes = create_task_frame(129);
    bytes[32] = 22;
    assert_eq!(TransportMessage::decode(&bytes, 0), Err(unknown(11, 22, 0, 1)));
    // a known template with another block length
    let mut bytes = create_task_frame(129);
    bytes[30] = 12;
    assert_eq!(TransportMessage::decode(&bytes, 0), Err(unknown(12, 20, 0, 1)));
    // another schema
    let mut bytes = create_task_frame(129);
    bytes[34] = 1;
    assert_eq!(TransportMessage::decode(&bytes, 0), Err(unknown(11, 20, 1, 1)));
    // another version
    let mut bytes = create_task_frame(129);
    bytes[36] = 2;
    assert_eq!(TransportMessage::decode(&bytes, 0), Err(unknown(11, 20, 0, 2)));
    assert_eq!(MessageBody::decode(&[0, 0, 9, 0, 9, 0, 9, 0], 0), Err(unknown(0, 9, 9, 9)));
}

#[test]
fn a_frame_that_is_cut_short_is_a_short_read() {
    let bytes = create_task_frame(129);
    for end in 0..bytes.len() {
        assert_eq!(
            TransportMessage::decode(&bytes[..end], 0),
            Err(DecodeError::UnexpectedEof)
        );
    }
}

#[test]
fn a_single_message_has_an_empty_header() {
    let mut bytes = vec![10, 0, 0, 0, 0, 0, 0, 0, 5, 0, 0, 0];
    bytes.extend_from_slice(&[1, 0]);
    bytes.extend_from_slice(&[3, 0, 7, 0, 4, 0, 1, 0]);
    bytes.extend_from_slice(&[9, 0, 1]);
    let (message, next) = TransportMessage::decode(&bytes, 0).unwrap();
    assert_eq!(next, bytes.len());
    assert_eq!(message.request_id(), None);
    assert_eq!(
        message.payload,
        Some(Payload {
            protocol: ProtocolHeader::SingleMessage(SingleMessageHeader {}),
            message: MessageBody::PollResponse(PollResponse { term: 9, granted: true }),
        })
    );
    let mut out = Vec::new();
    message.to_bytes(&mut out).unwrap();
    assert_eq!(out, bytes);

    // a boolean that is none fails the message
    let last = bytes.len() - 1;
    bytes[last] = 2;
    assert_eq!(TransportMessage::decode(&bytes, 0), Err(DecodeError::InvalidBoolean(2)));
}

#[test]
fn messages_of_one_shape_are_told_apart_by_their_header() {
    let poll = MessageBody::PollResponse(PollResponse { term: 9, granted: false });
    let vote = MessageBody::VoteResponse(VoteResponse { term: 9, granted: false });
    let mut poll_bytes = Vec::new();
    poll.to_bytes(&mut poll_bytes).unwrap();
    let mut vote_bytes = Vec::new();
    vote.to_bytes(&mut vote_bytes).unwrap();
    assert_eq!(poll_bytes, vec![3, 0, 7, 0, 4, 0, 1, 0, 9, 0, 0]);
    assert_eq!(vote_bytes, vec![3, 0, 9, 0, 4, 0, 1, 0, 9, 0, 0]);
    assert_eq!(MessageBody::decode(&poll_bytes, 0), Ok((poll, 11)));
    assert_eq!(MessageBody::decode(&vote_bytes, 0), Ok((vote, 11)));
    let invitation = MessageBody::InvitationResponse(InvitationResponse { term: 9 });
    assert_eq!(
        invitation.header(),
        MessageHeader { block_length: 2, template_id: 1, schema_id: 5, version: 1 }
    );
    assert_eq!(MessageBody::decode(&[2, 0, 1, 0, 5, 0, 1, 0, 9, 0], 0), Ok((invitation, 10)));
}

#[test]
fn a_frame_whose_type_contradicts_its_payload_is_not_written() {
    let payload = || Payload {
        protocol: ProtocolHeader::SingleMessage(SingleMessageHeader {}),
        message: MessageBody::ControlMessageResponse(ControlMessageResponse {
            data: Data(vec![1]),
        }),
    };
    let mut out = vec![7];
    let message = TransportMessage {
        frame: frame_header(0, FrameType::ControlClose),
        payload: Some(payload()),
    };
    assert_eq!(message.to_bytes(&mut out), Err(EncodeError::Unrepresentable));
    let message = TransportMessage { frame: frame_header(0, FrameType::Message), payload: None };
    assert_eq!(message.to_bytes(&mut out), Err(EncodeError::Unrepresentable));
    let message = TransportMessage { frame: frame_header(0, FrameType::Unknown), payload: None };
    assert_eq!(message.to_bytes(&mut out), Err(EncodeError::Unrepresentable));
    let message = TransportMessage {
        frame: frame_header(0, FrameType::Unknown),
        payload: Some(payload()),
    };
    assert_eq!(message.to_bytes(&mut out), Err(EncodeError::Unrepresentable));
    // a message that cannot be encoded
    let message = TransportMessage {
        frame: frame_header(0, FrameType::Message),
        payload: Some(Payload {
            protocol: ProtocolHeader::SingleMessage(SingleMessageHeader {}),
            message: MessageBody::JoinResponse(JoinResponse {
                term: 0,
                succeeded: true,
                configuration_entry_position: 0,
                configuration_entry_term: 0,
                members: (0..256).map(|port| Member { port, host: String::new() }).collect(),
            }),
        }),
    };
    assert_eq!(message.to_bytes(&mut out), Err(EncodeError::Unrepresentable));
    assert_eq!(out, vec![7]);
    let message = TransportMessage {
        frame: frame_header(0, FrameType::Message),
        payload: Some(payload()),
    };
    assert_eq!(message.to_bytes(&mut out), Ok(()));
    assert_eq!(out.len(), 1 + 12 + 2 + 8 + 3);
}

#[test]
fn a_request_is_a_message_frame_on_its_stream() {
    let message = TransportMessage::request(2, MessageBody::ExecuteCommandRequest(create_task()));
    assert_eq!(message.frame, frame_header(0, FrameType::Message));
    assert_eq!(message.request_id(), Some(0));
    assert!(message.is_encodable());
    assert_eq!(
        ProtocolHeader::RequestResponse(RequestResponseHeader::default()).transport(),
        TransportHeader { protocol_id: TransportProtocol::RequestResponse }
    );
    assert_eq!(
        ProtocolHeader::SingleMessage(SingleMessageHeader {}).transport(),
        TransportHeader { protocol_id: TransportProtocol::FullDuplexSingleMessage }
    );
}

#[test]
fn a_packet_shows_its_frame() {
    let mut packet = vec![0xEE; 5];
    packet.extend(create_task_frame(147));
    packet.extend_from_slice(&[0; 18]);
    let mut reader = Cursor::new(packet);
    let shown = Protocol::parse(&mut reader, 5, true).unwrap();
    assert_eq!(reader.position(), 5 + 12 + 129);
    assert_eq!(shown.frame, Some(frame_header(147, FrameType::Message)));
    assert_eq!(
        shown.transport,
        Some(TransportHeader { protocol_id: TransportProtocol::RequestResponse })
    );
    assert_eq!(
        shown.protocol,
        Some(ProtocolHeader::RequestResponse(RequestResponseHeader {
            connection_id: 1,
            request_id: 7,
        }))
    );
    assert_eq!(
        shown.header,
        Some(MessageHeader { block_length: 11, template_id: 20, schema_id: 0, version: 1 })
    );
    assert_eq!(shown.message, Some(MessageBody::ExecuteCommandRequest(create_task())));
    assert!(shown.pretty);
    assert_eq!(shown.frame.unwrap().message_length(), 159);
}

#[test]
fn a_packet_without_a_whole_frame_header_shows_nothing() {
    let mut reader = Cursor::new(create_task_frame(129)[..11].to_vec());
    assert_eq!(
        Protocol::parse(&mut reader, 0, false),
        Ok(Protocol { pretty: false, ..Protocol::default() })
    );
    assert_eq!(reader.position(), 0);
    let mut reader = Cursor::new(create_task_frame(129));
    assert_eq!(
        Protocol::parse(&mut reader, 130, true),
        Ok(Protocol { pretty: true, ..Protocol::default() })
    );
    assert_eq!(reader.position(), 130);
    assert_eq!(
        Protocol::parse(&mut reader, 1000, true),
        Ok(Protocol { pretty: true, ..Protocol::default() })
    );
    assert_eq!(reader.position(), 1000);
}

#[test]
fn a_packet_shows_a_control_frame_by_its_header_alone() {
    let mut reader = Cursor::new(vec![0, 0, 0, 0, 0, 0, 100, 0, 0, 0, 0, 0]);
    let shown = Protocol::parse(&mut reader, 0, false).unwrap();
    assert_eq!(
        shown,
        Protocol {
            frame: Some(FrameHeader {
                length: 0,
                version: 0,
                flags: 0,
                type_id: FrameType::ControlClose,
                stream_id: 0,
            }),
            ..Protocol::default()
        }
    );
    assert_eq!(reader.position(), 12);
}

#[test]
fn a_packet_that_cannot_be_decoded_is_an_error() {
    let mut bytes = create_task_frame(129);
    bytes[6] = 9;
    let mut reader = Cursor::new(bytes);
    assert_eq!(Protocol::parse(&mut reader, 0, false), Err(DecodeError::UnknownFrameType));
    assert_eq!(reader.position(), 0);

    let mut bytes = create_task_frame(129);
    bytes[12] = 9;
    let mut reader = Cursor::new(bytes);
    reader.set_position(77);
    assert_eq!(
        Protocol::parse(&mut reader, 0, false),
        Err(DecodeError::UnknownTransportProtocol)
    );
    assert_eq!(reader.position(), 0);

    // a header of no message
    let mut bytes = create_task_frame(129);
    bytes[32] = 22;
    let mut reader = Cursor::new(bytes);
    assert_eq!(
        Protocol::parse(&mut reader, 0, false),
        Err(DecodeError::UnknownMessage {
            block_length: 11,
            template_id: 22,
            schema_id: 0,
            version: 1
        })
    );
}

#[test]
fn a_packet_with_a_frame_that_is_cut_short_shows_nothing_yet() {
    let frame = create_task_frame(129);
    // wherever the frame ends: in its header, in the headers behind it, in the message
    for end in 0..frame.len() {
        let mut reader = Cursor::new(frame[..end].to_vec());
        assert_eq!(
            Protocol::parse(&mut reader, 0, true),
            Ok(Protocol { pretty: true, ..Protocol::default() })
        );
        assert_eq!(reader.position(), 0);
        assert_eq!(
            Protocol::decode(&frame[..end], 0, false),
            Ok((Protocol::default(), 0))
        );
    }
    let mut reader = Cursor::new(frame);
    assert!(Protocol::parse(&mut reader, 0, true).unwrap().message.is_some());
    assert_eq!(reader.position(), 141);
}

#[test]
fn the_frames_of_a_packet_are_shown_one_by_one() {
    let frame = create_task_frame(129);
    let close = vec![0, 0, 0, 0, 0, 0, 100, 0, 0, 0, 0, 0];
    let mut packet = frame.clone();
    packet.extend_from_slice(&close);
    packet.extend_from_slice(&frame);
    let (frames, error) = Protocol::parse_all(&packet, false);
    assert_eq!(error, None);
    assert_eq!(frames.len(), 3);
    assert_eq!(frames[0].message, Some(MessageBody::ExecuteCommandRequest(create_task())));
    assert_eq!(frames[1].frame.map(|frame| frame.type_id), Some(FrameType::ControlClose));
    assert_eq!(frames[1].message, None);
    assert_eq!(frames[2], frames[0]);

    // a last frame that is cut short ends the packet without an error
    let (frames, error) = Protocol::parse_all(&packet[..packet.len() - 1], false);
    assert_eq!(error, None);
    assert_eq!(frames.len(), 2);
    let (frames, error) = Protocol::parse_all(&packet[..150], false);
    assert_eq!(error, None);
    assert_eq!(frames.len(), 1);

    // a frame that is none ends it with one
    packet[141 + 6] = 9;
    let (frames, error) = Protocol::parse_all(&packet, false);
    assert_eq!(error, Some(DecodeError::UnknownFrameType));
    assert_eq!(frames.len(), 1);
    assert_eq!(Protocol::parse_all(&[], true), (vec![], None));
}

#[test]
fn a_message_says_which_blobs_it_holds() {
    assert_eq!(
        MessageBody::ExecuteCommandRequest(create_task()).blobs(),
        vec![&Data((0..75).collect())]
    );
    let error = MessageBody::ErrorResponse(ErrorResponse {
        error_code: ErrorCode::TopicNotFound,
        error_data: Data(vec![1]),
        failed_request: Data(vec![2, 3]),
    });
    assert_eq!(error.blobs(), vec![&Data(vec![1]), &Data(vec![2, 3])]);
    let poll = MessageBody::PollResponse(PollResponse { term: 1, granted: true });
    assert!(poll.blobs().is_empty());
    let join = MessageBody::JoinResponse(JoinResponse {
        term: 0,
        succeeded: true,
        configuration_entry_position: 0,
        configuration_entry_term: 0,
        members: vec![],
    });
    assert!(join.blobs().is_empty());
}
