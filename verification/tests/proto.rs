use bytes::BytesMut;
use unterflow::convert::{Data, ToBytes};
use unterflow::errors::{DecodeError, EncodeError};
use unterflow::frame::{Payload, ProtocolHeader, TransportMessage};
use unterflow::pending::PendingRequests;
use unterflow::protocol::client::{ControlMessageResponse, EventType, ExecuteCommandRequest};
use unterflow::protocol::message::MessageBody;
use unterflow::protocol::transport::{
    FrameHeader, FrameType, RequestResponseHeader, SingleMessageHeader,
};
use unterflow::proto::{MultiplexedCodec, ProtocolError};

fn create_task(key: u64) -> MessageBody {
    MessageBody::ExecuteCommandRequest(ExecuteCommandRequest {
        partition_id: 0,
        key,
        event_type: EventType::TaskEvent,
        topic_name: "default-topic".to_string(),
        command: Data((0..75).collect()),
    })
}

fn response(request_id: u64, data: Vec<u8>) -> TransportMessage {
    let payload = Payload {
        protocol: ProtocolHeader::RequestResponse(RequestResponseHeader {
            connection_id: 1,
            request_id,
        }),
        message: MessageBody::ControlMessageResponse(ControlMessageResponse { data: Data(data) }),
    };
    let mut body = Vec::new();
    payload.to_bytes(&mut body).unwrap();
    TransportMessage {
        frame: FrameHeader {
            length: body.len() as u32,
            version: 0,
            flags: 0,
            type_id: FrameType::Message,
            stream_id: 2,
        },
        payload: Some(payload),
    }
}

fn bytes_of(message: &TransportMessage) -> Vec<u8> {
    let mut out = Vec::new();
    message.to_bytes(&mut out).unwrap();
    out
}

#[test]
fn a_request_is_sent_with_its_id_and_its_length() {
    let mut codec = MultiplexedCodec::new();
    let mut buffer = BytesMut::new();
    buffer.extend_from_slice(&[0xAB]);
    let request = TransportMessage::request(2, create_task(u64::MAX));
    assert_eq!(codec.encode((0x0102030405060708, request), &mut buffer), Ok(()));

    let mut expected = vec![0xAB];
    expected.extend_from_slice(&129u32.to_le_bytes());
    expected.extend_from_slice(&[0, 0, 0, 0]);
    expected.extend_from_slice(&2u32.to_le_bytes());
    expected.extend_from_slice(&[0, 0]);
    expected.extend_from_slice(&0u64.to_le_bytes());
    expected.extend_from_slice(&[8, 7, 6, 5, 4, 3, 2, 1]);
    expected.extend_from_slice(&[11, 0, 20, 0, 0, 0, 1, 0]);
    expected.extend_from_slice(&[0, 0]);
    expected.extend_from_slice(&[255; 8]);
    expected.push(0);
    expected.extend_from_slice(&[13, 0]);
    expected.extend_from_slice("default-topic".as_bytes());
    expected.extend_from_slice(&[75, 0]);
    expected.extend(0..75u8);
    assert_eq!(&buffer[..], &expected[..]);
}

#[test]
fn what_was_sent_is_what_is_received() {
    let mut codec = MultiplexedCodec::new();
    let mut buffer = BytesMut::new();
    for id in [3u64, 0, u64::MAX] {
        let request = TransportMessage::request(2, create_task(id));
        codec.encode((id, request), &mut buffer).unwrap();
    }
    for id in [3u64, 0, u64::MAX] {
        let (request_id, message) = codec.decode(&mut buffer).unwrap().unwrap();
        assert_eq!(request_id, id);
        assert_eq!(message.request_id(), Some(id));
        assert_eq!(message.frame.length, 129);
        assert_eq!(message.frame.type_id, FrameType::Message);
        assert_eq!(message.message(), Some(&create_task(id)));
    }
    assert_eq!(codec.decode(&mut buffer), Ok(None));
    assert!(buffer.is_empty());
}

#[test]
fn only_requests_and_responses_are_sent() {
    let mut codec = MultiplexedCodec::new();
    let mut buffer = BytesMut::new();
    let control = TransportMessage {
        frame: FrameHeader { type_id: FrameType::ControlKeepAlive, ..FrameHeader::default() },
        payload: None,
    };
    assert_eq!(codec.encode((1, control), &mut buffer), Err(ProtocolError::UnexpectedFrame));
    let single = TransportMessage {
        frame: FrameHeader { type_id: FrameType::Message, ..FrameHeader::default() },
        payload: Some(Payload {
            protocol: ProtocolHeader::SingleMessage(SingleMessageHeader {}),
            message: create_task(1),
        }),
    };
    assert_eq!(codec.encode((1, single), &mut buffer), Err(ProtocolError::UnexpectedFrame));
    let long = TransportMessage::request(
        2,
        MessageBody::ControlMessageResponse(ControlMessageResponse {
            data: Data(vec![0; 65536]),
        }),
    );
    assert_eq!(
        codec.encode((1, long), &mut buffer),
        Err(ProtocolError::Encode(EncodeError::Unrepresentable))
    );
    assert!(buffer.is_empty());
}

#[test]
fn a_frame_that_arrives_in_pieces_is_decoded_once_it_is_whole() {
    let message = response(9, vec![1, 2, 3, 4, 5]);
    let bytes = bytes_of(&message);
    for size in 1..=bytes.len() {
        let mut codec = MultiplexedCodec::new();
        let mut buffer = BytesMut::new();
        let mut decoded = None;
        let mut fed = 0;
        for chunk in bytes.chunks(size) {
            assert_eq!(decoded, None);
            buffer.extend_from_slice(chunk);
            fed += chunk.len();
            decoded = codec.decode(&mut buffer).unwrap();
            if fed < bytes.len() {
                assert_eq!(decoded, None);
                assert_eq!(codec.header.is_some(), fed >= 12);
            }
        }
        assert_eq!(decoded, Some((9, response(9, vec![1, 2, 3, 4, 5]))));
        assert!(buffer.is_empty());
        assert_eq!(codec.header, None);
    }
}

#[test]
fn frames_that_arrive_together_are_decoded_one_by_one() {
    let mut bytes = bytes_of(&response(2, vec![1]));
    bytes.extend(bytes_of(&response(1, vec![])));
    bytes.extend(bytes_of(&response(3, vec![7; 300])));
    bytes.extend_from_slice(&[1, 2, 3]);
    let mut codec = MultiplexedCodec::new();
    let mut buffer = BytesMut::from(bytes);
    assert_eq!(codec.decode(&mut buffer), Ok(Some((2, response(2, vec![1])))));
    assert_eq!(codec.decode(&mut buffer), Ok(Some((1, response(1, vec![])))));
    assert_eq!(codec.decode(&mut buffer), Ok(Some((3, response(3, vec![7; 300])))));
    assert_eq!(codec.decode(&mut buffer), Ok(None));
    assert_eq!(&buffer[..], &[1, 2, 3]);
    assert_eq!(codec.header, None);
}

#[test]
fn the_codec_holds_the_header_of_a_frame_that_is_not_whole() {
    let message = response(5, vec![1, 2, 3]);
    let bytes = bytes_of(&message);
    let mut codec = MultiplexedCodec::new();
    let mut buffer = BytesMut::from(bytes[..20].to_vec());
    assert_eq!(codec.decode(&mut buffer), Ok(None));
    assert_eq!(codec.header, Some(message.frame));
    assert_eq!(&buffer[..], &bytes[12..20]);
    assert_eq!(codec.decode(&mut buffer), Ok(None));
    assert_eq!(codec.header, Some(message.frame));
    buffer.extend_from_slice(&bytes[20..]);
    assert_eq!(codec.decode(&mut buffer), Ok(Some((5, message))));
}

#[test]
fn a_frame_that_is_no_request_or_response_ends_the_decoding() {
    // a control frame
    let mut codec = MultiplexedCodec::new();
    let mut buffer = BytesMut::from(vec![0, 0, 0, 0, 0, 0, 102, 0, 0, 0, 0, 0, 9]);
    assert_eq!(codec.decode(&mut buffer), Err(ProtocolError::UnexpectedFrame));
    assert_eq!(&buffer[..], &[9]);
    // a single message
    let single = TransportMessage {
        frame: FrameHeader {
            length: 2 + 8 + 11 + 15 + 77,
            type_id: FrameType::Message,
            ..FrameHeader::default()
        },
        payload: Some(Payload {
            protocol: ProtocolHeader::SingleMessage(SingleMessageHeader {}),
            message: create_task(1),
        }),
    };
    let mut buffer = BytesMut::from(bytes_of(&single));
    assert_eq!(codec.decode(&mut buffer), Err(ProtocolError::UnexpectedFrame));
    assert!(buffer.is_empty());
    // a frame of an unknown type
    let mut buffer = BytesMut::from(vec![1, 0, 0, 0, 0, 0, 7, 0, 0, 0, 0, 0, 9]);
    assert_eq!(
        codec.decode(&mut buffer),
        Err(ProtocolError::Decode(DecodeError::UnknownFrameType))
    );
    assert!(buffer.is_empty());
}

#[test]
fn a_message_that_needs_more_bytes_than_its_frame_has_is_an_error() {
    let message = response(5, vec![1, 2, 3]);
    let mut bytes = bytes_of(&message);
    // the frame header announces one byte less than the message takes
    bytes[0] -= 1;
    bytes.extend_from_slice(&[0xCC; 4]);
    let mut codec = MultiplexedCodec::new();
    let mut buffer = BytesMut::from(bytes);
    assert_eq!(
        codec.decode(&mut buffer),
        Err(ProtocolError::Decode(DecodeError::UnexpectedEof))
    );
    assert_eq!(&buffer[..], &[3, 0xCC, 0xCC, 0xCC, 0xCC]);
}

#[test]
fn bytes_of_a_frame_behind_its_message_are_passed_over() {
    let message = response(5, vec![1, 2, 3]);
    let mut bytes = bytes_of(&message);
    bytes[0] += 4;
    bytes.extend_from_slice(&[0xCC; 4]);
    bytes.extend_from_slice(&[0xDD; 2]);
    let mut codec = MultiplexedCodec::new();
    let mut buffer = BytesMut::from(bytes);
    let (request_id, decoded) = codec.decode(&mut buffer).unwrap().unwrap();
    assert_eq!(request_id, 5);
    assert_eq!(decoded.payload, message.payload);
    assert_eq!(decoded.frame.length, message.frame.length + 4);
    assert_eq!(&buffer[..], &[0xDD; 2]);
}

#[test]
fn each_caller_receives_the_response_to_its_own_request() {
    let mut codec = MultiplexedCodec::new();
    let mut pending = PendingRequests::new();
    let mut wire = BytesMut::new();
    let callers = ["first", "second", "third", "fourth", "fifth"];
    let mut ids = Vec::new();
    for caller in callers {
        let id = pending.issue(caller).unwrap();
        codec.encode((id, TransportMessage::request(2, create_task(id))), &mut wire).unwrap();
        ids.push(id);
    }
    assert_eq!(ids, vec![0, 1, 2, 3, 4]);
    assert_eq!(pending.len(), 5);

    // the peer answers in another order
    let mut arriving = BytesMut::new();
    for id in [3u64, 0, 4, 1] {
        arriving.extend_from_slice(&bytes_of(&response(id, vec![id as u8; 3])));
    }
    let mut received = Vec::new();
    while let Some(frame) = codec.decode(&mut arriving).unwrap() {
        let (caller, message) = pending.dispatch(frame).unwrap();
        received.push((caller, message));
    }
    assert_eq!(
        received,
        vec![
            ("fourth", response(3, vec![3; 3])),
            ("first", response(0, vec![0; 3])),
            ("fifth", response(4, vec![4; 3])),
            ("second", response(1, vec![1; 3])),
        ]
    );
    // the request that got no response still waits, and blocks no other
    assert_eq!(pending.len(), 1);
    assert_eq!(pending.complete(2), Ok("third"));
    assert_eq!(pending.len(), 0);
}

#[test]
fn a_response_to_no_request_is_reported() {
    let mut pending = PendingRequests::new();
    assert_eq!(pending.dispatch((0, "response")), Err(ProtocolError::UnknownRequest(0)));
    assert_eq!(pending.issue("caller"), Ok(0));
    assert_eq!(pending.issue("other"), Ok(1));
    assert_eq!(pending.dispatch((7, "response")), Err(ProtocolError::UnknownRequest(7)));
    assert_eq!(pending.len(), 2);
    assert_eq!(pending.dispatch((0, "response")), Ok(("caller", "response")));
    // a second response to the same request
    assert_eq!(pending.dispatch((0, "again")), Err(ProtocolError::UnknownRequest(0)));
    assert_eq!(pending.complete(0), Err(ProtocolError::UnknownRequest(0)));
    // a response to a request that was given up
    assert_eq!(pending.cancel(1), Some("other"));
    assert_eq!(pending.cancel(1), None);
    assert_eq!(pending.dispatch((1, "late")), Err(ProtocolError::UnknownRequest(1)));
    // ids are not given out again
    assert_eq!(pending.issue("next"), Ok(2));
    assert_eq!(pending.len(), 1);
}

#[test]
fn a_request_may_get_its_id_elsewhere() {
    let mut pending = PendingRequests::new();
    assert_eq!(pending.register(5, "fifth"), None);
    assert_eq!(pending.register(5, "again"), Some("fifth"));
    assert_eq!(pending.register(2, "second"), None);
    // the ids up to the largest that was registered count as given out
    assert_eq!(pending.issue("next"), Ok(6));
    assert_eq!(pending.len(), 3);
    assert_eq!(pending.dispatch((5, "response")), Ok(("again", "response")));
    assert_eq!(pending.dispatch((2, "response")), Ok(("second", "response")));
    assert_eq!(pending.dispatch((6, "response")), Ok(("next", "response")));
}

#[test]
fn the_ids_run_out_at_the_largest() {
    let mut pending = PendingRequests::new();
    assert_eq!(pending.register(u64::MAX - 1, "last but one"), None);
    assert_eq!(pending.issue("last"), Ok(u64::MAX));
    assert_eq!(pending.issue("none"), Err(ProtocolError::NoRequestId));
    assert_eq!(pending.len(), 2);
    assert_eq!(pending.complete(u64::MAX), Ok("last"));
    assert_eq!(pending.complete(u64::MAX - 1), Ok("last but one"));
    assert_eq!(pending.issue("none"), Err(ProtocolError::NoRequestId));
    // ids that got theirs elsewhere can still wait
    assert_eq!(pending.register(7, "seventh"), None);
    assert_eq!(pending.dispatch((7, "response")), Ok(("seventh", "response")));

    let mut pending = PendingRequests::new();
    assert_eq!(pending.register(u64::MAX, "last"), None);
    assert_eq!(pending.issue("none"), Err(ProtocolError::NoRequestId));
    assert_eq!(pending.dispatch((u64::MAX, "response")), Ok(("last", "response")));
}

#[test]
fn all_the_frames_that_have_arrived_are_decoded_each_under_its_id() {
    let ids = [4u64, 0, u64::MAX, 2, 1, 3];
    let mut bytes = Vec::new();
    for id in ids {
        bytes.extend(bytes_of(&response(id, vec![id as u8; 2])));
    }
    let mut codec = MultiplexedCodec::new();
    let mut buffer = BytesMut::from(bytes.clone());
    let (frames, error) = codec.decode_all(&mut buffer);
    assert_eq!(error, None);
    assert_eq!(frames.len(), 6);
    for (frame, id) in frames.iter().zip(ids) {
        assert_eq!(frame, &(id, response(id, vec![id as u8; 2])));
    }
    assert!(buffer.is_empty());
    assert_eq!(codec.header, None);
    assert_eq!(codec.decode(&mut buffer), Ok(None));
    assert_eq!(codec.decode_all(&mut buffer), (vec![], None));

    // a frame that is no response ends it, and what stands behind it stays
    let mut mixed = bytes_of(&response(1, vec![]));
    mixed.extend_from_slice(&[0, 0, 0, 0, 0, 0, 102, 0, 0, 0, 0, 0]);
    mixed.extend(bytes_of(&response(2, vec![])));
    let mut buffer = BytesMut::from(mixed);
    let (frames, error) = codec.decode_all(&mut buffer);
    assert_eq!(frames, vec![(1, response(1, vec![]))]);
    assert_eq!(error, Some(ProtocolError::UnexpectedFrame));
    assert_eq!(&buffer[..], &bytes_of(&response(2, vec![]))[..]);
}

#[test]
fn frames_that_arrive_in_pieces_are_the_frames_that_arrive_at_once() {
    let mut bytes = Vec::new();
    for id in [3u64, 1, 2] {
        bytes.extend(bytes_of(&response(id, vec![id as u8; 40])));
    }
    let mut codec = MultiplexedCodec::new();
    let mut buffer = BytesMut::from(bytes.clone());
    let (at_once, error) = codec.decode_all(&mut buffer);
    assert_eq!(error, None);
    assert_eq!(at_once.len(), 3);

    for size in [1, 2, 7, 11, 12, 13, 64, 200, bytes.len()] {
        let mut codec = MultiplexedCodec::new();
        let mut buffer = BytesMut::new();
        let mut in_pieces = Vec::new();
        for chunk in bytes.chunks(size) {
            let (frames, error) = codec.receive(&mut buffer, chunk);
            assert_eq!(error, None);
            in_pieces.extend(frames);
        }
        assert_eq!(in_pieces, at_once);
        assert!(buffer.is_empty());
        assert_eq!(codec.header, None);
    }
}
