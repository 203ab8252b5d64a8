use unterflow::client::{
    command_response, control_response, create_task_request, other, Broker, ClientError,
    Leader, SocketAddress, Task, TopicLeader, Topology, TopologyResponse,
};
use unterflow::convert::Data;
use unterflow::frame::{Payload, ProtocolHeader, TransportMessage};
use unterflow::protocol::client::{
    ControlMessageResponse, EventType, ExecuteCommandRequest, ExecuteCommandResponse,
};
use unterflow::protocol::message::MessageBody;
use unterflow::protocol::transport::{
    FrameHeader, FrameType, RequestResponseHeader, SingleMessageHeader,
};

fn leader(topic_name: &str, partition_id: u16, host: &str, port: u16) -> TopicLeader {
    TopicLeader {
        host: host.to_string(),
        port,
        topic_name: topic_name.to_string(),
        partition_id,
    }
}

fn broker(host: &str, port: u16) -> Broker {
    Broker { host: host.to_string(), port }
}

fn frame(protocol: ProtocolHeader, message: MessageBody) -> TransportMessage {
    TransportMessage {
        frame: FrameHeader { type_id: FrameType::Message, ..FrameHeader::default() },
        payload: Some(Payload { protocol, message }),
    }
}

fn response(message: MessageBody) -> TransportMessage {
    frame(ProtocolHeader::RequestResponse(RequestResponseHeader::default()), message)
}

fn unexpected(text: &str) -> ClientError {
    ClientError::Other(text.to_string())
}

#[test]
fn a_topology_holds_the_leaders_and_the_brokers_of_the_response() {
    let response = TopologyResponse {
        topic_leaders: vec![
            leader("default-topic", 0, "localhost", 51015),
            leader("internal-system", 0, "localhost", 51015),
            leader("default-topic", 1, "other", 51016),
        ],
        brokers: vec![
            SocketAddress { host: "localhost".to_string(), port: 51015 },
            SocketAddress { host: "other".to_string(), port: 51016 },
        ],
    };
    let topology = Topology::from(response);
    assert_eq!(
        topology,
        Topology {
            topic_leaders: vec![
                Leader {
                    topic_name: "default-topic".to_string(),
                    partition_id: 0,
                    broker: broker("localhost", 51015),
                },
                Leader {
                    topic_name: "internal-system".to_string(),
                    partition_id: 0,
                    broker: broker("localhost", 51015),
                },
                Leader {
                    topic_name: "default-topic".to_string(),
                    partition_id: 1,
                    broker: broker("other", 51016),
                },
            ],
            brokers: vec![broker("localhost", 51015), broker("other", 51016)],
        }
    );
    assert_eq!(topology.leader("default-topic", 0), Some(&topology.brokers[0]));
    assert_eq!(topology.leader("internal-system", 0), Some(&topology.brokers[0]));
    assert_eq!(topology.leader("default-topic", 1), Some(&topology.brokers[1]));
    assert_eq!(topology.leader("default-topic", 2), None);
    assert_eq!(topology.leader("default", 0), None);
}

#[test]
fn a_topology_made_from_a_response_keeps_all_of_it() {
    let response = || TopologyResponse {
        topic_leaders: vec![leader("a", 1, "x", 1), leader("b", 2, "y", 2)],
        brokers: vec![SocketAddress { host: "x".to_string(), port: 1 }],
    };
    assert_eq!(Topology::from(response()), Topology::of(response()));
    let topology = Topology::from(response());
    assert_eq!(topology.topic_leaders.len(), 2);
    assert_eq!(topology.brokers, vec![broker("x", 1)]);
    assert_eq!(topology.leader("b", 2), Some(&broker("y", 2)));
    assert_eq!(Topology::from(TopologyResponse::default()).brokers, vec![]);
}

#[test]
fn the_leader_that_was_named_last_leads() {
    let topology = Topology::of(TopologyResponse {
        topic_leaders: vec![
            leader("topic", 0, "first", 1),
            leader("topic", 0, "second", 2),
            leader("topic", 1, "third", 3),
        ],
        brokers: vec![],
    });
    assert_eq!(topology.leader("topic", 0), Some(&broker("second", 2)));
    assert_eq!(topology.leader("topic", 1), Some(&broker("third", 3)));
    assert_eq!(Topology::of(TopologyResponse::default()).leader("topic", 0), None);
}

#[test]
fn a_broker_is_made_of_an_address() {
    assert_eq!(
        Broker::from(SocketAddress { host: "host".to_string(), port: 7 }),
        broker("host", 7)
    );
    assert_eq!(Broker::from(leader("topic", 3, "host", 7)), broker("host", 7));
    assert!(broker("a", 2) < broker("b", 1));
    assert!(broker("a", 1) < broker("a", 2));
}

#[test]
fn the_request_to_create_a_task_is_a_command_on_tasks() {
    let request = create_task_request("default-topic", Data(vec![1, 2, 3]));
    assert_eq!(
        request,
        TransportMessage::request(
            0,
            MessageBody::ExecuteCommandRequest(ExecuteCommandRequest {
                partition_id: 0,
                key: u64::MAX,
                event_type: EventType::TaskEvent,
                topic_name: "default-topic".to_string(),
                command: Data(vec![1, 2, 3]),
            })
        )
    );
}

#[test]
fn the_answer_to_a_control_message_is_its_data() {
    let answer = response(MessageBody::ControlMessageResponse(ControlMessageResponse {
        data: Data(vec![1, 2]),
    }));
    assert_eq!(control_response(&answer), Ok(&Data(vec![1, 2])));
    assert_eq!(command_response(&answer), Err(unexpected("Unexpected response message")));
}

#[test]
fn the_answer_to_a_command_is_its_key_and_its_event() {
    let answer = response(MessageBody::ExecuteCommandResponse(ExecuteCommandResponse {
        partition_id: 0,
        key: 4294967544,
        topic_name: "default-topic".to_string(),
        event: Data(vec![3]),
    }));
    assert_eq!(command_response(&answer), Ok((4294967544, &Data(vec![3]))));
    assert_eq!(control_response(&answer), Err(unexpected("Unexpected response message")));
    let task = Task { state: "CREATED".to_string(), key: command_response(&answer).unwrap().0 };
    assert_eq!(task.state, "CREATED");
    assert!(task.key > 0);
    assert!(task.key < u64::max_value());
}

#[test]
fn what_is_no_response_is_no_answer() {
    let message = || {
        MessageBody::ControlMessageResponse(ControlMessageResponse { data: Data(vec![]) })
    };
    let single = frame(ProtocolHeader::SingleMessage(SingleMessageHeader {}), message());
    assert_eq!(control_response(&single), Err(unexpected("Unexpected response")));
    assert_eq!(command_response(&single), Err(unexpected("Unexpected response")));
    let control = TransportMessage {
        frame: FrameHeader { type_id: FrameType::ControlClose, ..FrameHeader::default() },
        payload: None,
    };
    assert_eq!(control_response(&control), Err(unexpected("Unexpected response")));
    assert_eq!(command_response(&control), Err(unexpected("Unexpected response")));
    assert_eq!(other("text".to_string()), unexpected("text"));
}
