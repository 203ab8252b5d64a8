use unterflow::convert::{BlockLength, Cursor, Data, FromBytes, ToBytes, ToMessageHeader};
use unterflow::errors::DecodeError;
use unterflow::protocol::client::{
    BrokerEventMetadata, ControlMessageRequest, ControlMessageResponse, ControlMessageType,
    ErrorCode, ErrorResponse, EventType, ExecuteCommandRequest, ExecuteCommandResponse,
    SubscribedEvent, SubscriptionType,
};
use unterflow::protocol::transport::{
    FrameHeader, MessageHeader, RequestResponseHeader, TransportHeader,
};

/// The headers that a recorded frame starts with.
fn headers(length: u32, connection_id: u64) -> Vec<u8> {
    let mut bytes = Vec::new();
    bytes.extend_from_slice(&length.to_le_bytes());
    bytes.extend_from_slice(&[0, 0, 0, 0]); // version, flags, message frame
    bytes.extend_from_slice(&2u32.to_le_bytes());
    bytes.extend_from_slice(&0u16.to_le_bytes()); // request response
    bytes.extend_from_slice(&connection_id.to_le_bytes());
    bytes.extend_from_slice(&0u64.to_le_bytes()); // request id
    bytes
}

fn message_header(block_length: u16, template_id: u16) -> Vec<u8> {
    let mut bytes = Vec::new();
    bytes.extend_from_slice(&block_length.to_le_bytes());
    bytes.extend_from_slice(&template_id.to_le_bytes());
    bytes.extend_from_slice(&0u16.to_le_bytes());
    bytes.extend_from_slice(&1u16.to_le_bytes());
    bytes
}

fn blob(length: u16) -> Vec<u8> {
    let mut bytes = length.to_le_bytes().to_vec();
    bytes.extend((0..length).map(|i| (i % 251) as u8));
    bytes
}

fn text(value: &str) -> Vec<u8> {
    let mut bytes = (value.len() as u16).to_le_bytes().to_vec();
    bytes.extend_from_slice(value.as_bytes());
    bytes
}

/// The record of a request that creates a task.
fn create_task_request() -> Vec<u8> {
    let mut bytes = headers(147, 1);
    bytes.extend(message_header(11, 20));
    bytes.extend_from_slice(&0u16.to_le_bytes());
    bytes.extend_from_slice(&u64::MAX.to_le_bytes());
    bytes.push(0);
    bytes.extend(text("default-topic"));
    bytes.extend(blob(75));
    bytes.resize(12 + 147, 0);
    bytes
}

/// The record of the response to it.
fn create_task_response() -> Vec<u8> {
    let mut bytes = headers(269, 1);
    bytes.extend(message_header(10, 21));
    bytes.extend_from_slice(&0u16.to_le_bytes());
    bytes.extend_from_slice(&4294967544u64.to_le_bytes());
    bytes.extend(text("default-topic"));
    bytes.extend(blob(216));
    bytes
}

/// The record of a request that closes a subscription.
fn close_subscription_request() -> Vec<u8> {
    let mut bytes = headers(90, 2);
    bytes.extend(message_header(1, 10));
    bytes.push(3);
    bytes.extend(blob(61));
    bytes
}

/// The record of the response to it.
fn close_subscription_response() -> Vec<u8> {
    let mut bytes = headers(89, 2);
    bytes.extend(message_header(0, 11));
    bytes.extend(blob(61));
    bytes
}

fn behind_the_headers(record: Vec<u8>) -> Cursor {
    let mut reader = Cursor::new(record);
    FrameHeader::skip_block(&mut reader).unwrap();
    TransportHeader::skip_block(&mut reader).unwrap();
    RequestResponseHeader::skip_block(&mut reader).unwrap();
    reader
}

#[test]
fn client_test_block_length() {
    assert_eq!(MessageHeader::block_length(), 8);
    assert_eq!(ExecuteCommandRequest::block_length(), 11);
    assert_eq!(EventType::block_length(), 1);
}

#[test]
fn protocol_test_block_length() {
    assert_eq!(MessageHeader::block_length(), 8);
    assert_eq!(ExecuteCommandRequest::block_length(), 11);
    assert_eq!(EventType::block_length(), 1);
}

#[test]
fn client_test_decode_create_task_request() {
    let mut reader = behind_the_headers(create_task_request());

    let header = MessageHeader::from_bytes(&mut reader).unwrap();
    assert_eq!(header, ExecuteCommandRequest::message_header());

    let request = ExecuteCommandRequest::from_bytes(&mut reader).unwrap();
    assert_eq!(header, MessageHeader::from(&request));
    assert_eq!(request.partition_id, 0);
    assert_eq!(request.key, ::std::u64::MAX);
    assert_eq!(request.event_type, EventType::TaskEvent);
    assert_eq!(request.topic_name, "default-topic");
    assert_eq!(request.command.len(), 75);
}

#[test]
fn protocol_test_decode_create_task_request() {
    let mut reader = Cursor::new(create_task_request());

    FrameHeader::from_bytes(&mut reader).unwrap();
    TransportHeader::from_bytes(&mut reader).unwrap();
    RequestResponseHeader::from_bytes(&mut reader).unwrap();

    let header = MessageHeader::from_bytes(&mut reader).unwrap();
    assert_eq!(header.block_length, 11);
    assert_eq!(header.template_id, 20);
    assert_eq!(header.schema_id, 0);
    assert_eq!(header.version, 1);

    let request = ExecuteCommandRequest::from_bytes(&mut reader).unwrap();
    assert_eq!(request.partition_id, 0);
    assert_eq!(request.key, ::std::u64::MAX);
    assert_eq!(request.event_type, EventType::TaskEvent);
    assert_eq!(request.topic_name, "default-topic");
    assert_eq!(request.command.len(), 75);
}

#[test]
fn client_test_decode_create_task_response() {
    let mut reader = behind_the_headers(create_task_response());

    let header = MessageHeader::from_bytes(&mut reader).unwrap();
    assert_eq!(header, ExecuteCommandResponse::message_header());

    let request = ExecuteCommandResponse::from_bytes(&mut reader).unwrap();
    assert_eq!(header, MessageHeader::from(&request));
    assert_eq!(request.partition_id, 0);
    assert_eq!(request.key, 4294967544);
    assert_eq!(request.topic_name, "default-topic");
    assert_eq!(request.event.len(), 216);
}

#[test]
fn client_test_decode_close_subscription_request() {
    let mut reader = behind_the_headers(close_subscription_request());

    let header = MessageHeader::from_bytes(&mut reader).unwrap();
    assert_eq!(header, ControlMessageRequest::message_header());

    let request = ControlMessageRequest::from_bytes(&mut reader).unwrap();
    assert_eq!(header, MessageHeader::from(&request));
    assert_eq!(request.message_type, ControlMessageType::RemoveTopicSubscription);
    assert_eq!(request.data.len(), 61);
}

#[test]
fn client_test_decode_close_subscription_response() {
    let mut reader = behind_the_headers(close_subscription_response());

    let header = MessageHeader::from_bytes(&mut reader).unwrap();
    assert_eq!(header, ControlMessageResponse::message_header());

    let request = ControlMessageResponse::from_bytes(&mut reader).unwrap();
    assert_eq!(header, MessageHeader::from(&request));
    assert_eq!(request.data.len(), 61);
}

#[test]
fn the_header_of_a_message_is_the_header_of_its_type() {
    let request = ExecuteCommandRequest {
        partition_id: 0,
        key: u64::MAX,
        event_type: EventType::TaskEvent,
        topic_name: "default-topic".to_string(),
        command: Data(vec![7; 75]),
    };
    let header = MessageHeader::from(&request);
    assert_eq!(header, ExecuteCommandRequest::message_header());
    assert_eq!(
        header,
        MessageHeader { block_length: 11, template_id: 20, schema_id: 0, version: 1 }
    );
    assert_eq!(MessageHeader::from(&ExecuteCommandRequest::default()), header);

    let mut out = Vec::new();
    header.to_bytes(&mut out).unwrap();
    request.to_bytes(&mut out).unwrap();
    let mut reader = Cursor::new(out);
    assert_eq!(MessageHeader::from_bytes(&mut reader), Ok(header));
    assert_eq!(ExecuteCommandRequest::from_bytes(&mut reader), Ok(request));
    assert_eq!(reader.remaining(), 0);
}

#[test]
fn the_messages_of_the_client_protocol_have_their_headers() {
    let header = |block_length, template_id| MessageHeader {
        block_length,
        template_id,
        schema_id: 0,
        version: 1,
    };
    assert_eq!(ErrorResponse::message_header(), header(1, 0));
    assert_eq!(ControlMessageRequest::message_header(), header(1, 10));
    assert_eq!(ControlMessageResponse::message_header(), header(0, 11));
    assert_eq!(ExecuteCommandRequest::message_header(), header(11, 20));
    assert_eq!(ExecuteCommandResponse::message_header(), header(10, 21));
    assert_eq!(SubscribedEvent::message_header(), header(28, 30));
    assert_eq!(BrokerEventMetadata::message_header(), header(43, 200));
}

#[test]
fn enumerations_of_the_client_protocol_fall_back_to_unknown() {
    assert_eq!(ErrorCode::decode(&[0], 0), Ok((ErrorCode::MessageNotSupported, 1)));
    assert_eq!(ErrorCode::decode(&[5], 0), Ok((ErrorCode::RequestProcessingFailure, 1)));
    assert_eq!(ErrorCode::decode(&[6], 0), Ok((ErrorCode::Unknown, 1)));
    assert_eq!(EventType::decode(&[6], 0), Ok((EventType::IncidentEvent, 1)));
    assert_eq!(EventType::decode(&[7], 0), Ok((EventType::Unknown, 1)));
    assert_eq!(SubscriptionType::decode(&[1], 0), Ok((SubscriptionType::TopicSubscription, 1)));
    assert_eq!(SubscriptionType::decode(&[2], 0), Ok((SubscriptionType::Unknown, 1)));
    assert_eq!(
        ControlMessageType::decode(&[4], 0),
        Ok((ControlMessageType::RequestTopology, 1))
    );
    for byte in 5..=255u8 {
        assert_eq!(
            ControlMessageType::decode(&[byte], 0),
            Ok((ControlMessageType::Unknown, 1))
        );
    }
    assert_eq!(EventType::decode(&[], 0), Err(DecodeError::UnexpectedEof));
    assert_eq!(EventType::default(), EventType::Unknown);
}

#[test]
fn an_unknown_variant_is_written_as_no_known_discriminant() {
    let mut out = Vec::new();
    EventType::Unknown.to_bytes(&mut out).unwrap();
    EventType::WorkflowEvent.to_bytes(&mut out).unwrap();
    assert_eq!(out, vec![255, 5]);
    assert_eq!(EventType::decode(&out, 0), Ok((EventType::Unknown, 1)));
}

#[test]
fn a_subscribed_event_round_trips() {
    let event = SubscribedEvent {
        partition_id: 3,
        position: 4294967296,
        key: 17,
        subscriber_key: u64::MAX,
        subscription_type: SubscriptionType::TaskSubscription,
        event_type: EventType::IncidentEvent,
        topic_name: "tøpic".to_string(),
        event: Data(vec![0x81, 0xA1, 0x61, 0x01]),
    };
    let mut out = Vec::new();
    event.to_bytes(&mut out).unwrap();
    assert_eq!(out.len(), 28 + 2 + 6 + 2 + 4);
    assert_eq!(SubscribedEvent::decode(&out, 0), Ok((event, 42)));
    // every proper prefix is a short read
    for end in 0..out.len() {
        assert_eq!(SubscribedEvent::decode(&out[..end], 0), Err(DecodeError::UnexpectedEof));
    }
}

#[test]
fn metadata_holds_signed_fields() {
    let metadata = BrokerEventMetadata {
        req_channel_id: -1,
        req_connection_id: 2,
        req_request_id: 3,
        raft_term_id: i32::MIN,
        subscription_id: 5,
        protocol_version: 6,
        event_type: EventType::RaftEvent,
        incident_key: 8,
    };
    let mut out = Vec::new();
    metadata.to_bytes(&mut out).unwrap();
    assert_eq!(out.len(), 43);
    assert_eq!(&out[..4], &[255, 255, 255, 255]);
    assert_eq!(&out[20..24], &[0, 0, 0, 0x80]);
    assert_eq!(BrokerEventMetadata::decode(&out, 0), Ok((metadata, 43)));
}
