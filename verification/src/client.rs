//! What the client asks of the broker, and what it makes of the answers.

use crate::convert::Data;
use crate::frame::{Payload, PayloadView, ProtocolHeader, TransportMessage, TransportMessageView};
use crate::protocol::client::{EventType, ExecuteCommandRequest, ExecuteCommandRequestView};
use crate::protocol::message::{MessageBody, MessageBodyView};
use vstd::prelude::*;
use vstd::std_specs::convert::FromSpecImpl;
use vstd::string::StringExecFns;

verus! {

/// Why a request of the client failed.
#[derive(Debug, PartialEq, Eq)]
pub enum ClientError {
    /// The broker answered with something that is no answer to the request.
    Other(String),
}

/// The error that carries `message`.
pub fn other(message: String) -> (r: ClientError)
    ensures
        r == ClientError::Other(message),
{
    ClientError::Other(message)
}

/// The address of a broker.
#[derive(Debug, PartialEq, Eq, Default)]
pub struct SocketAddress {
    pub host: String,
    pub port: u16,
}

/// The broker that leads a partition of a topic.
#[derive(Debug, PartialEq, Eq, Default)]
pub struct TopicLeader {
    pub host: String,
    pub port: u16,
    pub topic_name: String,
    pub partition_id: u16,
}

/// What the broker answers to a request for the topology.
#[derive(Debug, PartialEq, Eq, Default)]
pub struct TopologyResponse {
    pub topic_leaders: Vec<TopicLeader>,
    pub brokers: Vec<SocketAddress>,
}

/// A broker of the cluster.
#[derive(Debug, PartialOrd, PartialEq, Ord, Eq)]
pub struct Broker {
    pub host: String,
    pub port: u16,
}

impl From<SocketAddress> for Broker {
    fn from(address: SocketAddress) -> (r: Self) {
        Broker { host: address.host, port: address.port }
    }
}

impl FromSpecImpl<SocketAddress> for Broker {
    open spec fn obeys_from_spec() -> bool {
        true
    }

    open spec fn from_spec(address: SocketAddress) -> Broker {
        Broker { host: address.host, port: address.port }
    }
}

impl From<TopicLeader> for Broker {
    fn from(leader: TopicLeader) -> (r: Self) {
        Broker { host: leader.host, port: leader.port }
    }
}

impl FromSpecImpl<TopicLeader> for Broker {
    open spec fn obeys_from_spec() -> bool {
        true
    }

    open spec fn from_spec(leader: TopicLeader) -> Broker {
        Broker { host: leader.host, port: leader.port }
    }
}

/// The broker that leads one partition of one topic.
#[derive(Debug, PartialEq, Eq)]
pub struct Leader {
    pub topic_name: String,
    pub partition_id: u16,
    pub broker: Broker,
}

/// The cluster as the broker describes it: the leaders of the partitions,
/// in the order in which the broker named them, and the brokers.
///
/// Where a partition is named more than once, the broker named last leads
/// it.
#[derive(Debug, PartialEq, Eq)]
pub struct Topology {
    pub topic_leaders: Vec<Leader>,
    pub brokers: Vec<Broker>,
}

/// The position of the last of the first `upto` leaders that leads the
/// partition `partition_id` of the topic `topic_name`.
pub open spec fn last_leader(
    leaders: Seq<Leader>,
    topic_name: Seq<char>,
    partition_id: u16,
    upto: int,
) -> Option<int>
    decreases upto,
{
    if upto <= 0 || upto > leaders.len() {
        None
    } else if leaders[upto - 1].topic_name@ == topic_name && leaders[upto - 1].partition_id
        == partition_id {
        Some(upto - 1)
    } else {
        last_leader(leaders, topic_name, partition_id, upto - 1)
    }
}

/// Whether the topology is what the response describes: it holds for each
/// leader of the response its partition and its address, and for each broker
/// its address, in the order of the response, and nothing else.
pub open spec fn describes(response: TopologyResponse, topology: Topology) -> bool {
    &&& topology.topic_leaders@.len() == response.topic_leaders@.len()
    &&& forall|i: int|
        0 <= i < response.topic_leaders@.len() ==> {
            &&& (#[trigger] topology.topic_leaders@[i]).topic_name
                == response.topic_leaders@[i].topic_name
            &&& topology.topic_leaders@[i].partition_id == response.topic_leaders@[i].partition_id
            &&& topology.topic_leaders@[i].broker.host == response.topic_leaders@[i].host
            &&& topology.topic_leaders@[i].broker.port == response.topic_leaders@[i].port
        }
    &&& topology.brokers@.len() == response.brokers@.len()
    &&& forall|i: int|
        0 <= i < response.brokers@.len() ==> {
            &&& (#[trigger] topology.brokers@[i]).host == response.brokers@[i].host
            &&& topology.brokers@[i].port == response.brokers@[i].port
        }
}

/// The position of the last of the first `upto` leaders of a response that
/// is named for the partition `partition_id` of the topic `topic_name`.
pub open spec fn last_named(
    leaders: Seq<TopicLeader>,
    topic_name: Seq<char>,
    partition_id: u16,
    upto: int,
) -> Option<int>
    decreases upto,
{
    if upto <= 0 || upto > leaders.len() {
        None
    } else if leaders[upto - 1].topic_name@ == topic_name && leaders[upto - 1].partition_id
        == partition_id {
        Some(upto - 1)
    } else {
        last_named(leaders, topic_name, partition_id, upto - 1)
    }
}

/// In the topology that a response describes, a partition is led by the
/// broker that the response names last for it, and by none where the
/// response names none for it.
pub proof fn lemma_leader_is_named_last(
    response: TopologyResponse,
    topology: Topology,
    topic_name: Seq<char>,
    partition_id: u16,
    upto: int,
)
    requires
        describes(response, topology),
    ensures
        last_leader(topology.topic_leaders@, topic_name, partition_id, upto) == last_named(
            response.topic_leaders@,
            topic_name,
            partition_id,
            upto,
        ),
        last_named(response.topic_leaders@, topic_name, partition_id, upto) matches Some(i) ==> {
            &&& 0 <= i < response.topic_leaders@.len()
            &&& response.topic_leaders@[i].topic_name@ == topic_name
            &&& response.topic_leaders@[i].partition_id == partition_id
            &&& topology.topic_leaders@[i].broker.host == response.topic_leaders@[i].host
            &&& topology.topic_leaders@[i].broker.port == response.topic_leaders@[i].port
        },
    decreases upto,
{
    if 0 < upto <= response.topic_leaders@.len() {
        let last = topology.topic_leaders@[upto - 1];
        assert(last.topic_name == response.topic_leaders@[upto - 1].topic_name);
        lemma_leader_is_named_last(response, topology, topic_name, partition_id, upto - 1);
    }
}

impl Topology {
    /// The topology that a response describes: for each leader of the
    /// response its partition and its address, and for each broker its
    /// address, in the order of the response.
    pub fn of(response: TopologyResponse) -> (r: Topology)
        ensures
            describes(response, r),
    {
        let mut topic_leaders: Vec<Leader> = Vec::with_capacity(response.topic_leaders.len());
        let mut i: usize = 0;
        while i < response.topic_leaders.len()
            invariant
                i <= response.topic_leaders@.len(),
                topic_leaders@.len() == i,
                forall|j: int|
                    0 <= j < i ==> {
                        &&& (#[trigger] topic_leaders@[j]).topic_name
                            == response.topic_leaders@[j].topic_name
                        &&& topic_leaders@[j].partition_id == response.topic_leaders@[j].partition_id
                        &&& topic_leaders@[j].broker.host == response.topic_leaders@[j].host
                        &&& topic_leaders@[j].broker.port == response.topic_leaders@[j].port
                    },
            decreases response.topic_leaders@.len() - i,
        {
            let leader = &response.topic_leaders[i];
            topic_leaders.push(
                Leader {
                    topic_name: leader.topic_name.clone(),
                    partition_id: leader.partition_id,
                    broker: Broker { host: leader.host.clone(), port: leader.port },
                },
            );
            i += 1;
        }
        let mut brokers: Vec<Broker> = Vec::with_capacity(response.brokers.len());
        let mut i: usize = 0;
        while i < response.brokers.len()
            invariant
                i <= response.brokers@.len(),
                brokers@.len() == i,
                forall|j: int|
                    0 <= j < i ==> {
                        &&& (#[trigger] brokers@[j]).host == response.brokers@[j].host
                        &&& brokers@[j].port == response.brokers@[j].port
                    },
            decreases response.brokers@.len() - i,
        {
            let address = &response.brokers[i];
            brokers.push(Broker { host: address.host.clone(), port: address.port });
            i += 1;
        }
        Topology { topic_leaders, brokers }
    }

    /// The broker that leads the partition `partition_id` of the topic
    /// `topic_name`: the one that was named last for it.
    pub fn leader(&self, topic_name: &str, partition_id: u16) -> (r: Option<&Broker>)
        ensures
            match last_leader(
                self.topic_leaders@,
                topic_name@,
                partition_id,
                self.topic_leaders@.len() as int,
            ) {
                Some(i) => r == Some(&self.topic_leaders@[i].broker),
                None => r is None,
            },
    {
        let name = String::from_str(topic_name);
        let mut upto = self.topic_leaders.len();
        while upto > 0
            invariant
                upto <= self.topic_leaders@.len(),
                name@ == topic_name@,
                last_leader(
                    self.topic_leaders@,
                    topic_name@,
                    partition_id,
                    self.topic_leaders@.len() as int,
                ) == last_leader(self.topic_leaders@, topic_name@, partition_id, upto as int),
            decreases upto,
        {
            let leader = &self.topic_leaders[upto - 1];
            if leader.partition_id == partition_id && leader.topic_name == name {
                return Some(&leader.broker);
            }
            upto -= 1;
        }
        None
    }
}

impl From<TopologyResponse> for Topology {
    /// The topology that a response describes.
    fn from(response: TopologyResponse) -> (r: Self)
        ensures
            describes(response, r),
    {
        Topology::of(response)
    }
}

impl FromSpecImpl<TopologyResponse> for Topology {
    /// No value of a topology can be written down in a contract, for it
    /// holds vectors: what `from` gives is stated in its own `ensures`.
    open spec fn obeys_from_spec() -> bool {
        false
    }

    open spec fn from_spec(response: TopologyResponse) -> Topology {
        arbitrary()
    }
}

/// A task as the broker created it.
#[derive(Debug, PartialEq, Eq)]
pub struct Task {
    pub state: String,
    pub key: u64,
}

/// The request that sends `command` as a command on tasks to the first
/// partition of `topic`. The broker chooses the key.
pub fn create_task_request(topic: &str, command: Data) -> (r: TransportMessage)
    ensures
        r.deep_view() == TransportMessage::request_spec(
            0,
            MessageBodyView::ExecuteCommandRequest(
                ExecuteCommandRequestView {
                    partition_id: 0,
                    key: u64::MAX,
                    event_type: EventType::TaskEvent,
                    topic_name: topic@,
                    command: command.deep_view(),
                },
            ),
        ),
{
    TransportMessage::request(
        0,
        MessageBody::ExecuteCommandRequest(
            ExecuteCommandRequest {
                partition_id: 0,
                key: u64::MAX,
                event_type: EventType::TaskEvent,
                topic_name: String::from_str(topic),
                command,
            },
        ),
    )
}

/// What a response holds for a request for the topology or for another
/// control message: the data of a control message response.
pub open spec fn control_data(response: TransportMessageView) -> Option<Seq<u8>> {
    match response.payload {
        Some(
            PayloadView {
                protocol: ProtocolHeader::RequestResponse(_),
                message: MessageBodyView::ControlMessageResponse(message),
            },
        ) => Some(message.data),
        _ => None,
    }
}

/// The data of the control message response that `response` is, or the
/// error that says what it is not: no response, or a response with another
/// message.
pub fn control_response(response: &TransportMessage) -> (r: Result<&Data, ClientError>)
    ensures
        match control_data(response.deep_view()) {
            Some(data) => r matches Ok(x) && x.deep_view() == data,
            None => r matches Err(ClientError::Other(text)) && text@ == (
            if TransportMessage::request_id_of(response.deep_view()) is Some {
                "Unexpected response message"@
            } else {
                "Unexpected response"@
            }),
        },
{
    match &response.payload {
        Some(Payload { protocol: ProtocolHeader::RequestResponse(_), message }) => match message {
            MessageBody::ControlMessageResponse(message) => Ok(&message.data),
            _ => Err(other(String::from_str("Unexpected response message"))),
        },
        _ => Err(other(String::from_str("Unexpected response"))),
    }
}

/// What a response holds for a command: the key and the event of an
/// execute command response.
pub open spec fn command_event(response: TransportMessageView) -> Option<(u64, Seq<u8>)> {
    match response.payload {
        Some(
            PayloadView {
                protocol: ProtocolHeader::RequestResponse(_),
                message: MessageBodyView::ExecuteCommandResponse(message),
            },
        ) => Some((message.key, message.event)),
        _ => None,
    }
}

/// The key and the event of the execute command response that `response`
/// is, or the error that says what it is not: no response, or a response
/// with another message.
pub fn command_response(response: &TransportMessage) -> (r: Result<(u64, &Data), ClientError>)
    ensures
        match command_event(response.deep_view()) {
            Some((key, event)) => r matches Ok((k, x)) && k == key && x.deep_view() == event,
            None => r matches Err(ClientError::Other(text)) && text@ == (
            if TransportMessage::request_id_of(response.deep_view()) is Some {
                "Unexpected response message"@
            } else {
                "Unexpected response"@
            }),
        },
{
    match &response.payload {
        Some(Payload { protocol: ProtocolHeader::RequestResponse(_), message }) => match message {
            MessageBody::ExecuteCommandResponse(message) => Ok((message.key, &message.event)),
            _ => Err(other(String::from_str("Unexpected response message"))),
        },
        _ => Err(other(String::from_str("Unexpected response"))),
    }
}

} // verus!
