use unterflow::convert::{Cursor, FromBytes, ToBytes, ToMessageHeader, BlockLength};
use unterflow::protocol::gossip::{
    Endpoint, EndpointType, Gossip, Peer, PeerDescriptor, PeerState, Probe, RaftMembership,
    RaftMembershipState,
};
use unterflow::protocol::transport::{
    FrameHeader, MessageHeader, RequestResponseHeader, TransportHeader,
};

fn text(value: &str) -> Vec<u8> {
    let mut bytes = (value.len() as u16).to_le_bytes().to_vec();
    bytes.extend_from_slice(value.as_bytes());
    bytes
}

fn group(block_length: u16, count: u8) -> Vec<u8> {
    let mut bytes = block_length.to_le_bytes().to_vec();
    bytes.push(count);
    bytes
}

fn endpoint(endpoint_type: u8, port: u16) -> Vec<u8> {
    let mut bytes = vec![endpoint_type];
    bytes.extend_from_slice(&port.to_le_bytes());
    bytes.extend(text("localhost"));
    bytes
}

fn peer(generation: u64, version: u16, first_port: u16, raft_state: u8) -> Vec<u8> {
    let mut bytes = vec![0]; // alive
    bytes.extend_from_slice(&generation.to_le_bytes());
    bytes.extend_from_slice(&version.to_le_bytes());
    bytes.extend(group(3, 3));
    bytes.extend(endpoint(0, first_port));
    bytes.extend(endpoint(1, first_port + 1));
    bytes.extend(endpoint(2, first_port + 2));
    bytes.extend(group(5, 1));
    bytes.extend_from_slice(&0u16.to_le_bytes());
    bytes.extend_from_slice(&1u16.to_le_bytes());
    bytes.push(raft_state);
    bytes.extend(text("default-topic"));
    bytes
}

/// The record of a gossip between two brokers.
fn gossip() -> Vec<u8> {
    let mut body = Vec::new();
    body.extend_from_slice(&[0, 0, 0, 0, 3, 0, 1, 0]); // message header
    body.extend(group(11, 2));
    body.extend(peer(1496752869673, 394, 8647, 3));
    body.extend(peer(1496752878665, 384, 9647, 1));
    let mut bytes = Vec::new();
    bytes.extend_from_slice(&(body.len() as u32 + 18).to_le_bytes());
    bytes.extend_from_slice(&[0, 0, 0, 0]);
    bytes.extend_from_slice(&0u32.to_le_bytes());
    bytes.extend_from_slice(&0u16.to_le_bytes());
    bytes.extend_from_slice(&[0; 16]);
    bytes.extend(body);
    bytes
}

fn endpoints(first_port: u16) -> Vec<Endpoint> {
    vec![
        Endpoint {
            endpoint_type: EndpointType::Client,
            port: first_port,
            host: "localhost".to_string(),
        },
        Endpoint {
            endpoint_type: EndpointType::Management,
            port: first_port + 1,
            host: "localhost".to_string(),
        },
        Endpoint {
            endpoint_type: EndpointType::Replication,
            port: first_port + 2,
            host: "localhost".to_string(),
        },
    ]
}

#[test]
fn test_decode_gossip() {
    let mut reader = Cursor::new(gossip());
    FrameHeader::skip_block(&mut reader).unwrap();
    TransportHeader::skip_block(&mut reader).unwrap();
    RequestResponseHeader::skip_block(&mut reader).unwrap();

    let header = MessageHeader::from_bytes(&mut reader).unwrap();
    assert_eq!(header, Gossip::message_header());

    let request = Gossip::from_bytes(&mut reader).unwrap();
    assert_eq!(header, MessageHeader::from(&request));
    assert_eq!(
        request.peers,
        vec![
            Peer {
                state: PeerState::Alive,
                generation: 1496752869673,
                version: 394,
                endpoints: endpoints(8647),
                raf_memberships: vec![RaftMembership {
                    partition_id: 0,
                    term: 1,
                    state: RaftMembershipState::Leader,
                    topic_name: "default-topic".to_string(),
                }],
            },
            Peer {
                state: PeerState::Alive,
                generation: 1496752878665,
                version: 384,
                endpoints: endpoints(9647),
                raf_memberships: vec![RaftMembership {
                    partition_id: 0,
                    term: 1,
                    state: RaftMembershipState::Follower,
                    topic_name: "default-topic".to_string(),
                }],
            },
        ]
    );
    assert_eq!(reader.remaining(), 0);
}

#[test]
fn the_messages_of_the_gossip_protocol_have_their_headers() {
    let header = |block_length, template_id| MessageHeader {
        block_length,
        template_id,
        schema_id: 3,
        version: 1,
    };
    assert_eq!(Gossip::message_header(), header(0, 0));
    assert_eq!(Probe::message_header(), header(2, 1));
    assert_eq!(PeerDescriptor::message_header(), header(19, 100));
    assert_eq!(Peer::block_length(), 11);
    assert_eq!(Endpoint::block_length(), 3);
    assert_eq!(RaftMembership::block_length(), 5);
}

#[test]
fn gossip_is_written_as_it_is_read() {
    let record = gossip();
    let mut reader = Cursor::new(record.clone());
    reader.set_position(38);
    let message = Gossip::from_bytes(&mut reader).unwrap();
    let mut out = Vec::new();
    message.to_bytes(&mut out).unwrap();
    assert_eq!(out, &record[38..]);
}

#[test]
fn groups_within_groups_round_trip() {
    let descriptor = PeerDescriptor {
        state: PeerState::Suspect,
        generation: 1,
        version: 2,
        change_state_time: 3,
        endpoints: Vec::new(),
        raft_memberships: vec![
            RaftMembership {
                partition_id: 1,
                term: 2,
                state: RaftMembershipState::Candidate,
                topic_name: String::new(),
            },
            RaftMembership {
                partition_id: 3,
                term: 4,
                state: RaftMembershipState::Unknown,
                topic_name: "t".to_string(),
            },
        ],
    };
    let mut out = Vec::new();
    descriptor.to_bytes(&mut out).unwrap();
    assert_eq!(
        out,
        vec![
            1, 1, 0, 0, 0, 0, 0, 0, 0, 2, 0, 3, 0, 0, 0, 0, 0, 0, 0, // fixed block
            3, 0, 0, // no endpoints
            5, 0, 2, // two memberships
            1, 0, 2, 0, 2, 0, 0, //
            3, 0, 4, 0, 255, 1, 0, 116,
        ]
    );
    assert_eq!(PeerDescriptor::decode(&out, 0), Ok((descriptor, out.len())));
}
