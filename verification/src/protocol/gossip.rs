//! The messages of the gossip protocol between brokers (schema family 3).

use crate::convert::{
    lemma_concat_assoc, lemma_first_stands, lemma_last_stands, lemma_part_stands, BlockLength,
    FromBytes, Message, ToBytes,
};
use crate::errors::{Failure, Stop};
use vstd::prelude::*;

verus! {

/// What a broker believes of a peer.
#[derive(Debug, Clone, Copy, PartialEq, Eq, Structural)]
pub enum PeerState {
    Alive,
    Suspect,
    Dead,
    /// Every discriminant that stands for no other variant.
    Unknown,
}

impl Default for PeerState {
    fn default() -> (r: Self)
        ensures
            r == PeerState::Unknown,
    {
        PeerState::Unknown
    }
}

impl DeepView for PeerState {
    type V = PeerState;

    open spec fn deep_view(&self) -> PeerState {
        *self
    }
}

impl PeerState {
    /// The variant that a discriminant stands for. A value that no variant is
    /// mapped to stands for `Unknown`.
    pub open spec fn of(value: u8) -> PeerState {
        if value == 0 {
            PeerState::Alive
        } else if value == 1 {
            PeerState::Suspect
        } else if value == 2 {
            PeerState::Dead
        } else {
            PeerState::Unknown
        }
    }

    /// The discriminant that a variant is written as. `Unknown` is written as
    /// the largest value of the discriminant's type.
    pub open spec fn discriminant(self) -> u8 {
        match self {
            PeerState::Alive => 0,
            PeerState::Suspect => 1,
            PeerState::Dead => 2,
            PeerState::Unknown => 0xFF,
        }
    }

    /// Every discriminant stands for a variant, and never for more than it
    /// says: one that no variant is written as stands for `Unknown`, any other
    /// for the variant that is written as it, and what `Unknown` is written as
    /// stands for `Unknown`.
    pub proof fn lemma_of_discriminant(value: u8)
        ensures
            Self::of(value) != PeerState::Unknown ==> Self::of(value).discriminant()
                == value,
            (forall|v: PeerState|
                v != PeerState::Unknown ==> #[trigger] v.discriminant() != value) ==> Self::of(value)
                == PeerState::Unknown,
            forall|v: PeerState| Self::of(#[trigger] v.discriminant()) == v,
    {
        if Self::of(value) != PeerState::Unknown {
            assert(Self::of(value).discriminant() == value);
        }
    }

    /// The variant that a discriminant stands for.
    pub fn from_discriminant(value: u8) -> (r: Self)
        ensures
            r == Self::of(value),
    {
        if value == 0 {
            PeerState::Alive
        } else if value == 1 {
            PeerState::Suspect
        } else if value == 2 {
            PeerState::Dead
        } else {
            PeerState::Unknown
        }
    }

    /// The discriminant that the variant is written as.
    pub fn to_discriminant(&self) -> (r: u8)
        ensures
            r == self.discriminant(),
    {
        match self {
            PeerState::Alive => 0,
            PeerState::Suspect => 1,
            PeerState::Dead => 2,
            PeerState::Unknown => 0xFF,
        }
    }
}

impl FromBytes for PeerState {
    /// An enumeration is its discriminant. Every discriminant decodes.
    open spec fn parse(s: Seq<u8>, at: int) -> Result<(PeerState, int), Failure> {
        match u8::parse(s, at) {
            Err(e) => Err(e),
            Ok((value, next)) => Ok((PeerState::of(value), next)),
        }
    }

    fn read_at(buf: &[u8], at: usize) -> (r: Result<(Self, usize), Stop>) {
        let (value, next) = u8::read_at(buf, at)?;
        Ok((PeerState::from_discriminant(value), next))
    }
}

impl ToBytes for PeerState {
    open spec fn wire(m: PeerState) -> Seq<u8> {
        u8::wire(m.discriminant())
    }

    open spec fn encodable(m: PeerState) -> bool {
        true
    }

    proof fn lemma_round_trip(m: PeerState, s: Seq<u8>, at: int) {
        u8::lemma_round_trip(m.discriminant(), s, at);
    }

    fn is_encodable(&self) -> (r: bool) {
        true
    }

    fn write(&self, out: &mut Vec<u8>) {
        self.to_discriminant().write(out);
    }
}

impl BlockLength for PeerState {
    open spec fn fixed_length() -> nat {
        u8::fixed_length()
    }

    fn block_length() -> (n: u16) {
        u8::block_length()
    }
}

/// What an endpoint of a broker serves.
#[derive(Debug, Clone, Copy, PartialEq, Eq, Structural)]
pub enum EndpointType {
    Client,
    Management,
    Replication,
    /// Every discriminant that stands for no other variant.
    Unknown,
}

impl Default for EndpointType {
    fn default() -> (r: Self)
        ensures
            r == EndpointType::Unknown,
    {
        EndpointType::Unknown
    }
}

impl DeepView for EndpointType {
    type V = EndpointType;

    open spec fn deep_view(&self) -> EndpointType {
        *self
    }
}

impl EndpointType {
    /// The variant that a discriminant stands for. A value that no variant is
    /// mapped to stands for `Unknown`.
    pub open spec fn of(value: u8) -> EndpointType {
        if value == 0 {
            EndpointType::Client
        } else if value == 1 {
            EndpointType::Management
        } else if value == 2 {
            EndpointType::Replication
        } else {
            EndpointType::Unknown
        }
    }

    /// The discriminant that a variant is written as. `Unknown` is written as
    /// the largest value of the discriminant's type.
    pub open spec fn discriminant(self) -> u8 {
        match self {
            EndpointType::Client => 0,
            EndpointType::Management => 1,
            EndpointType::Replication => 2,
            EndpointType::Unknown => 0xFF,
        }
    }

    /// Every discriminant stands for a variant, and never for more than it
    /// says: one that no variant is written as stands for `Unknown`, any other
    /// for the variant that is written as it, and what `Unknown` is written as
    /// stands for `Unknown`.
    pub proof fn lemma_of_discriminant(value: u8)
        ensures
            Self::of(value) != EndpointType::Unknown ==> Self::of(value).discriminant()
                == value,
            (forall|v: EndpointType|
                v != EndpointType::Unknown ==> #[trigger] v.discriminant() != value) ==> Self::of(value)
                == EndpointType::Unknown,
            forall|v: EndpointType| Self::of(#[trigger] v.discriminant()) == v,
    {
        if Self::of(value) != EndpointType::Unknown {
            assert(Self::of(value).discriminant() == value);
        }
    }

    /// The variant that a discriminant stands for.
    pub fn from_discriminant(value: u8) -> (r: Self)
        ensures
            r == Self::of(value),
    {
        if value == 0 {
            EndpointType::Client
        } else if value == 1 {
            EndpointType::Management
        } else if value == 2 {
            EndpointType::Replication
        } else {
            EndpointType::Unknown
        }
    }

    /// The discriminant that the variant is written as.
    pub fn to_discriminant(&self) -> (r: u8)
        ensures
            r == self.discriminant(),
    {
        match self {
            EndpointType::Client => 0,
            EndpointType::Management => 1,
            EndpointType::Replication => 2,
            EndpointType::Unknown => 0xFF,
        }
    }
}

impl FromBytes for EndpointType {
    /// An enumeration is its discriminant. Every discriminant decodes.
    open spec fn parse(s: Seq<u8>, at: int) -> Result<(EndpointType, int), Failure> {
        match u8::parse(s, at) {
            Err(e) => Err(e),
            Ok((value, next)) => Ok((EndpointType::of(value), next)),
        }
    }

    fn read_at(buf: &[u8], at: usize) -> (r: Result<(Self, usize), Stop>) {
        let (value, next) = u8::read_at(buf, at)?;
        Ok((EndpointType::from_discriminant(value), next))
    }
}

impl ToBytes for EndpointType {
    open spec fn wire(m: EndpointType) -> Seq<u8> {
        u8::wire(m.discriminant())
    }

    open spec fn encodable(m: EndpointType) -> bool {
        true
    }

    proof fn lemma_round_trip(m: EndpointType, s: Seq<u8>, at: int) {
        u8::lemma_round_trip(m.discriminant(), s, at);
    }

    fn is_encodable(&self) -> (r: bool) {
        true
    }

    fn write(&self, out: &mut Vec<u8>) {
        self.to_discriminant().write(out);
    }
}

impl BlockLength for EndpointType {
    open spec fn fixed_length() -> nat {
        u8::fixed_length()
    }

    fn block_length() -> (n: u16) {
        u8::block_length()
    }
}

/// The role of a broker in the raft group of a partition.
#[derive(Debug, Clone, Copy, PartialEq, Eq, Structural)]
pub enum RaftMembershipState {
    Inactive,
    Follower,
    Candidate,
    Leader,
    /// Every discriminant that stands for no other variant.
    Unknown,
}

impl Default for RaftMembershipState {
    fn default() -> (r: Self)
        ensures
            r == RaftMembershipState::Unknown,
    {
        RaftMembershipState::Unknown
    }
}

impl DeepView for RaftMembershipState {
    type V = RaftMembershipState;

    open spec fn deep_view(&self) -> RaftMembershipState {
        *self
    }
}

impl RaftMembershipState {
    /// The variant that a discriminant stands for. A value that no variant is
    /// mapped to stands for `Unknown`.
    pub open spec fn of(value: u8) -> RaftMembershipState {
        if value == 0 {
            RaftMembershipState::Inactive
        } else if value == 1 {
            RaftMembershipState::Follower
        } else if value == 2 {
            RaftMembershipState::Candidate
        } else if value == 3 {
            RaftMembershipState::Leader
        } else {
            RaftMembershipState::Unknown
        }
    }

    /// The discriminant that a variant is written as. `Unknown` is written as
    /// the largest value of the discriminant's type.
    pub open spec fn discriminant(self) -> u8 {
        match self {
            RaftMembershipState::Inactive => 0,
            RaftMembershipState::Follower => 1,
            RaftMembershipState::Candidate => 2,
            RaftMembershipState::Leader => 3,
            RaftMembershipState::Unknown => 0xFF,
        }
    }

    /// Every discriminant stands for a variant, and never for more than it
    /// says: one that no variant is written as stands for `Unknown`, any other
    /// for the variant that is written as it, and what `Unknown` is written as
    /// stands for `Unknown`.
    pub proof fn lemma_of_discriminant(value: u8)
        ensures
            Self::of(value) != RaftMembershipState::Unknown ==> Self::of(value).discriminant()
                == value,
            (forall|v: RaftMembershipState|
                v != RaftMembershipState::Unknown ==> #[trigger] v.discriminant() != value) ==> Self::of(value)
                == RaftMembershipState::Unknown,
            forall|v: RaftMembershipState| Self::of(#[trigger] v.discriminant()) == v,
    {
        if Self::of(value) != RaftMembershipState::Unknown {
            assert(Self::of(value).discriminant() == value);
        }
    }

    /// The variant that a discriminant stands for.
    pub fn from_discriminant(value: u8) -> (r: Self)
        ensures
            r == Self::of(value),
    {
        if value == 0 {
            RaftMembershipState::Inactive
        } else if value == 1 {
            RaftMembershipState::Follower
        } else if value == 2 {
            RaftMembershipState::Candidate
        } else if value == 3 {
            RaftMembershipState::Leader
        } else {
            RaftMembershipState::Unknown
        }
    }

    /// The discriminant that the variant is written as.
    pub fn to_discriminant(&self) -> (r: u8)
        ensures
            r == self.discriminant(),
    {
        match self {
            RaftMembershipState::Inactive => 0,
            RaftMembershipState::Follower => 1,
            RaftMembershipState::Candidate => 2,
            RaftMembershipState::Leader => 3,
            RaftMembershipState::Unknown => 0xFF,
        }
    }
}

impl FromBytes for RaftMembershipState {
    /// An enumeration is its discriminant. Every discriminant decodes.
    open spec fn parse(s: Seq<u8>, at: int) -> Result<(RaftMembershipState, int), Failure> {
        match u8::parse(s, at) {
            Err(e) => Err(e),
            Ok((value, next)) => Ok((RaftMembershipState::of(value), next)),
        }
    }

    fn read_at(buf: &[u8], at: usize) -> (r: Result<(Self, usize), Stop>) {
        let (value, next) = u8::read_at(buf, at)?;
        Ok((RaftMembershipState::from_discriminant(value), next))
    }
}

impl ToBytes for RaftMembershipState {
    open spec fn wire(m: RaftMembershipState) -> Seq<u8> {
        u8::wire(m.discriminant())
    }

    open spec fn encodable(m: RaftMembershipState) -> bool {
        true
    }

    proof fn lemma_round_trip(m: RaftMembershipState, s: Seq<u8>, at: int) {
        u8::lemma_round_trip(m.discriminant(), s, at);
    }

    fn is_encodable(&self) -> (r: bool) {
        true
    }

    fn write(&self, out: &mut Vec<u8>) {
        self.to_discriminant().write(out);
    }
}

impl BlockLength for RaftMembershipState {
    open spec fn fixed_length() -> nat {
        u8::fixed_length()
    }

    fn block_length() -> (n: u16) {
        u8::block_length()
    }
}

/// A broker as its peers gossip about it.
#[derive(Debug, PartialEq, Eq, Default)]
pub struct Peer {
    pub state: PeerState,
    pub generation: u64,
    pub version: u16,
    pub endpoints: Vec<Endpoint>,
    pub raf_memberships: Vec<RaftMembership>,
}

/// The model of `Peer`.
pub struct PeerView {
    pub state: PeerState,
    pub generation: u64,
    pub version: u16,
    pub endpoints: Seq<EndpointView>,
    pub raf_memberships: Seq<RaftMembershipView>,
}

impl DeepView for Peer {
    type V = PeerView;

    open spec fn deep_view(&self) -> PeerView {
        PeerView {
            state: self.state,
            generation: self.generation,
            version: self.version,
            endpoints: self.endpoints.deep_view(),
            raf_memberships: self.raf_memberships.deep_view(),
        }
    }
}

impl FromBytes for Peer {
    /// The fields in the order of their declaration.
    open spec fn parse(s: Seq<u8>, at: int) -> Result<(PeerView, int), Failure> {
        match PeerState::parse(s, at) {
            Err(e) => Err(e),
            Ok((state, at)) => match u64::parse(s, at) {
                Err(e) => Err(e),
                Ok((generation, at)) => match u16::parse(s, at) {
                    Err(e) => Err(e),
                    Ok((version, at)) => match Vec::<Endpoint>::parse(s, at) {
                        Err(e) => Err(e),
                        Ok((endpoints, at)) => match Vec::<RaftMembership>::parse(s, at) {
                            Err(e) => Err(e),
                            Ok((raf_memberships, at)) => Ok((
                                PeerView {
                                    state,
                                    generation,
                                    version,
                                    endpoints,
                                    raf_memberships,
                                },
                                at,
                            )),
                        },
                    },
                },
            },
        }
    }

    fn read_at(buf: &[u8], at: usize) -> (r: Result<(Self, usize), Stop>) {
        let (state, at) = PeerState::read_at(buf, at)?;
        let (generation, at) = u64::read_at(buf, at)?;
        let (version, at) = u16::read_at(buf, at)?;
        let (endpoints, at) = Vec::<Endpoint>::read_at(buf, at)?;
        let (raf_memberships, at) = Vec::<RaftMembership>::read_at(buf, at)?;
        Ok((Peer { state, generation, version, endpoints, raf_memberships }, at))
    }
}

impl ToBytes for Peer {
    open spec fn wire(m: PeerView) -> Seq<u8> {
        PeerState::wire(m.state)
            + u64::wire(m.generation)
            + u16::wire(m.version)
            + Vec::<Endpoint>::wire(m.endpoints)
            + Vec::<RaftMembership>::wire(m.raf_memberships)
    }

    open spec fn encodable(m: PeerView) -> bool {
        Vec::<Endpoint>::encodable(m.endpoints) && Vec::<RaftMembership>::encodable(m.raf_memberships)
    }

    proof fn lemma_round_trip(m: PeerView, s: Seq<u8>, at: int) {
        let w0 = PeerState::wire(m.state);
        let w1 = u64::wire(m.generation);
        let w2 = u16::wire(m.version);
        let w3 = Vec::<Endpoint>::wire(m.endpoints);
        let w4 = Vec::<RaftMembership>::wire(m.raf_memberships);
        let a0 = w0;
        let a1 = a0 + w1;
        let a2 = a1 + w2;
        let a3 = a2 + w3;
        let b3 = w4;
        let b2 = w3 + b3;
        let b1 = w2 + b2;
        let b0 = w1 + b1;
        lemma_last_stands(s, at, a3, w4);
        lemma_part_stands(s, at, a2, w3, b3);
        lemma_concat_assoc(a2, w3, b3);
        lemma_part_stands(s, at, a1, w2, b2);
        lemma_concat_assoc(a1, w2, b2);
        lemma_part_stands(s, at, a0, w1, b1);
        lemma_concat_assoc(a0, w1, b1);
        lemma_first_stands(s, at, w0, b0);
        PeerState::lemma_round_trip(m.state, s, at);
        u64::lemma_round_trip(m.generation, s, at + a0.len());
        u16::lemma_round_trip(m.version, s, at + a1.len());
        Vec::<Endpoint>::lemma_round_trip(m.endpoints, s, at + a2.len());
        Vec::<RaftMembership>::lemma_round_trip(m.raf_memberships, s, at + a3.len());
    }

    fn is_encodable(&self) -> (r: bool) {
        self.endpoints.is_encodable() && self.raf_memberships.is_encodable()
    }

    fn write(&self, out: &mut Vec<u8>) {
        self.state.write(out);
        self.generation.write(out);
        self.version.write(out);
        self.endpoints.write(out);
        self.raf_memberships.write(out);
        assert(out@ =~= old(out)@ + Self::wire(self.deep_view()));
    }
}

impl BlockLength for Peer {
    open spec fn fixed_length() -> nat {
        PeerState::fixed_length()
            + u64::fixed_length()
            + u16::fixed_length()
            + Vec::<Endpoint>::fixed_length()
            + Vec::<RaftMembership>::fixed_length()
    }

    fn block_length() -> (n: u16) {
        PeerState::block_length()
            + u64::block_length()
            + u16::block_length()
            + Vec::<Endpoint>::block_length()
            + Vec::<RaftMembership>::block_length()
    }
}

/// An address at which a broker listens.
#[derive(Debug, PartialEq, Eq, Default)]
pub struct Endpoint {
    pub endpoint_type: EndpointType,
    pub port: u16,
    pub host: String,
}

/// The model of `Endpoint`.
pub struct EndpointView {
    pub endpoint_type: EndpointType,
    pub port: u16,
    pub host: Seq<char>,
}

impl DeepView for Endpoint {
    type V = EndpointView;

    open spec fn deep_view(&self) -> EndpointView {
        EndpointView {
            endpoint_type: self.endpoint_type,
            port: self.port,
            host: self.host.deep_view(),
        }
    }
}

impl FromBytes for Endpoint {
    /// The fields in the order of their declaration.
    open spec fn parse(s: Seq<u8>, at: int) -> Result<(EndpointView, int), Failure> {
        match EndpointType::parse(s, at) {
            Err(e) => Err(e),
            Ok((endpoint_type, at)) => match u16::parse(s, at) {
                Err(e) => Err(e),
                Ok((port, at)) => match String::parse(s, at) {
                    Err(e) => Err(e),
                    Ok((host, at)) => Ok((EndpointView { endpoint_type, port, host }, at)),
                },
            },
        }
    }

    fn read_at(buf: &[u8], at: usize) -> (r: Result<(Self, usize), Stop>) {
        let (endpoint_type, at) = EndpointType::read_at(buf, at)?;
        let (port, at) = u16::read_at(buf, at)?;
        let (host, at) = String::read_at(buf, at)?;
        Ok((Endpoint { endpoint_type, port, host }, at))
    }
}

impl ToBytes for Endpoint {
    open spec fn wire(m: EndpointView) -> Seq<u8> {
        EndpointType::wire(m.endpoint_type)
            + u16::wire(m.port)
            + String::wire(m.host)
    }

    open spec fn encodable(m: EndpointView) -> bool {
        String::encodable(m.host)
    }

    proof fn lemma_round_trip(m: EndpointView, s: Seq<u8>, at: int) {
        let w0 = EndpointType::wire(m.endpoint_type);
        let w1 = u16::wire(m.port);
        let w2 = String::wire(m.host);
        let a0 = w0;
        let a1 = a0 + w1;
        let b1 = w2;
        let b0 = w1 + b1;
        lemma_last_stands(s, at, a1, w2);
        lemma_part_stands(s, at, a0, w1, b1);
        lemma_concat_assoc(a0, w1, b1);
        lemma_first_stands(s, at, w0, b0);
        EndpointType::lemma_round_trip(m.endpoint_type, s, at);
        u16::lemma_round_trip(m.port, s, at + a0.len());
        String::lemma_round_trip(m.host, s, at + a1.len());
    }

    fn is_encodable(&self) -> (r: bool) {
        self.host.is_encodable()
    }

    fn write(&self, out: &mut Vec<u8>) {
        self.endpoint_type.write(out);
        self.port.write(out);
        self.host.write(out);
        assert(out@ =~= old(out)@ + Self::wire(self.deep_view()));
    }
}

impl BlockLength for Endpoint {
    open spec fn fixed_length() -> nat {
        EndpointType::fixed_length()
            + u16::fixed_length()
            + String::fixed_length()
    }

    fn block_length() -> (n: u16) {
        EndpointType::block_length()
            + u16::block_length()
            + String::block_length()
    }
}

/// The membership of a broker in the raft group of one partition.
#[derive(Debug, PartialEq, Eq, Default)]
pub struct RaftMembership {
    pub partition_id: u16,
    pub term: u16,
    pub state: RaftMembershipState,
    pub topic_name: String,
}

/// The model of `RaftMembership`.
pub struct RaftMembershipView {
    pub partition_id: u16,
    pub term: u16,
    pub state: RaftMembershipState,
    pub topic_name: Seq<char>,
}

impl DeepView for RaftMembership {
    type V = RaftMembershipView;

    open spec fn deep_view(&self) -> RaftMembershipView {
        RaftMembershipView {
            partition_id: self.partition_id,
            term: self.term,
            state: self.state,
            topic_name: self.topic_name.deep_view(),
        }
    }
}

impl FromBytes for RaftMembership {
    /// The fields in the order of their declaration.
    open spec fn parse(s: Seq<u8>, at: int) -> Result<(RaftMembershipView, int), Failure> {
        match u16::parse(s, at) {
            Err(e) => Err(e),
            Ok((partition_id, at)) => match u16::parse(s, at) {
                Err(e) => Err(e),
                Ok((term, at)) => match RaftMembershipState::parse(s, at) {
                    Err(e) => Err(e),
                    Ok((state, at)) => match String::parse(s, at) {
                        Err(e) => Err(e),
                        Ok((topic_name, at)) => Ok((RaftMembershipView { partition_id, term, state, topic_name }, at)),
                    },
                },
            },
        }
    }

    fn read_at(buf: &[u8], at: usize) -> (r: Result<(Self, usize), Stop>) {
        let (partition_id, at) = u16::read_at(buf, at)?;
        let (term, at) = u16::read_at(buf, at)?;
        let (state, at) = RaftMembershipState::read_at(buf, at)?;
        let (topic_name, at) = String::read_at(buf, at)?;
        Ok((RaftMembership { partition_id, term, state, topic_name }, at))
    }
}

impl ToBytes for RaftMembership {
    open spec fn wire(m: RaftMembershipView) -> Seq<u8> {
        u16::wire(m.partition_id)
            + u16::wire(m.term)
            + RaftMembershipState::wire(m.state)
            + String::wire(m.topic_name)
    }

    open spec fn encodable(m: RaftMembershipView) -> bool {
        String::encodable(m.topic_name)
    }

    proof fn lemma_round_trip(m: RaftMembershipView, s: Seq<u8>, at: int) {
        let w0 = u16::wire(m.partition_id);
        let w1 = u16::wire(m.term);
        let w2 = RaftMembershipState::wire(m.state);
        let w3 = String::wire(m.topic_name);
        let a0 = w0;
        let a1 = a0 + w1;
        let a2 = a1 + w2;
        let b2 = w3;
        let b1 = w2 + b2;
        let b0 = w1 + b1;
        lemma_last_stands(s, at, a2, w3);
        lemma_part_stands(s, at, a1, w2, b2);
        lemma_concat_assoc(a1, w2, b2);
        lemma_part_stands(s, at, a0, w1, b1);
        lemma_concat_assoc(a0, w1, b1);
        lemma_first_stands(s, at, w0, b0);
        u16::lemma_round_trip(m.partition_id, s, at);
        u16::lemma_round_trip(m.term, s, at + a0.len());
        RaftMembershipState::lemma_round_trip(m.state, s, at + a1.len());
        String::lemma_round_trip(m.topic_name, s, at + a2.len());
    }

    fn is_encodable(&self) -> (r: bool) {
        self.topic_name.is_encodable()
    }

    fn write(&self, out: &mut Vec<u8>) {
        self.partition_id.write(out);
        self.term.write(out);
        self.state.write(out);
        self.topic_name.write(out);
        assert(out@ =~= old(out)@ + Self::wire(self.deep_view()));
    }
}

impl BlockLength for RaftMembership {
    open spec fn fixed_length() -> nat {
        u16::fixed_length()
            + u16::fixed_length()
            + RaftMembershipState::fixed_length()
            + String::fixed_length()
    }

    fn block_length() -> (n: u16) {
        u16::block_length()
            + u16::block_length()
            + RaftMembershipState::block_length()
            + String::block_length()
    }
}

/// The peers that a broker knows of.
#[derive(Debug, PartialEq, Eq, Default)]
pub struct Gossip {
    pub peers: Vec<Peer>,
}

/// The model of `Gossip`.
pub struct GossipView {
    pub peers: Seq<PeerView>,
}

impl DeepView for Gossip {
    type V = GossipView;

    open spec fn deep_view(&self) -> GossipView {
        GossipView {
            peers: self.peers.deep_view(),
        }
    }
}

impl FromBytes for Gossip {
    /// The fields in the order of their declaration.
    open spec fn parse(s: Seq<u8>, at: int) -> Result<(GossipView, int), Failure> {
        match Vec::<Peer>::parse(s, at) {
            Err(e) => Err(e),
            Ok((peers, at)) => Ok((GossipView { peers }, at)),
        }
    }

    fn read_at(buf: &[u8], at: usize) -> (r: Result<(Self, usize), Stop>) {
        let (peers, at) = Vec::<Peer>::read_at(buf, at)?;
        Ok((Gossip { peers }, at))
    }
}

impl ToBytes for Gossip {
    open spec fn wire(m: GossipView) -> Seq<u8> {
        Vec::<Peer>::wire(m.peers)
    }

    open spec fn encodable(m: GossipView) -> bool {
        Vec::<Peer>::encodable(m.peers)
    }

    proof fn lemma_round_trip(m: GossipView, s: Seq<u8>, at: int) {
        Vec::<Peer>::lemma_round_trip(m.peers, s, at);
    }

    fn is_encodable(&self) -> (r: bool) {
        self.peers.is_encodable()
    }

    fn write(&self, out: &mut Vec<u8>) {
        self.peers.write(out);
        assert(out@ =~= old(out)@ + Self::wire(self.deep_view()));
    }
}

impl BlockLength for Gossip {
    open spec fn fixed_length() -> nat {
        Vec::<Peer>::fixed_length()
    }

    fn block_length() -> (n: u16) {
        Vec::<Peer>::block_length()
    }
}

impl Message for Gossip {
    open spec fn spec_template_id() -> u16 {
        0
    }

    open spec fn spec_schema_id() -> u16 {
        3
    }

    open spec fn spec_version() -> u16 {
        1
    }

    fn template_id() -> (r: u16) {
        0
    }

    fn schema_id() -> (r: u16) {
        3
    }

    fn version() -> (r: u16) {
        1
    }
}

/// A request to probe the broker at an address.
#[derive(Debug, PartialEq, Eq, Default)]
pub struct Probe {
    pub port: u16,
    pub host: String,
}

/// The model of `Probe`.
pub struct ProbeView {
    pub port: u16,
    pub host: Seq<char>,
}

impl DeepView for Probe {
    type V = ProbeView;

    open spec fn deep_view(&self) -> ProbeView {
        ProbeView {
            port: self.port,
            host: self.host.deep_view(),
        }
    }
}

impl FromBytes for Probe {
    /// The fields in the order of their declaration.
    open spec fn parse(s: Seq<u8>, at: int) -> Result<(ProbeView, int), Failure> {
        match u16::parse(s, at) {
            Err(e) => Err(e),
            Ok((port, at)) => match String::parse(s, at) {
                Err(e) => Err(e),
                Ok((host, at)) => Ok((ProbeView { port, host }, at)),
            },
        }
    }

    fn read_at(buf: &[u8], at: usize) -> (r: Result<(Self, usize), Stop>) {
        let (port, at) = u16::read_at(buf, at)?;
        let (host, at) = String::read_at(buf, at)?;
        Ok((Probe { port, host }, at))
    }
}

impl ToBytes for Probe {
    open spec fn wire(m: ProbeView) -> Seq<u8> {
        u16::wire(m.port)
            + String::wire(m.host)
    }

    open spec fn encodable(m: ProbeView) -> bool {
        String::encodable(m.host)
    }

    proof fn lemma_round_trip(m: ProbeView, s: Seq<u8>, at: int) {
        let w0 = u16::wire(m.port);
        let w1 = String::wire(m.host);
        let a0 = w0;
        let b0 = w1;
        lemma_last_stands(s, at, a0, w1);
        lemma_first_stands(s, at, w0, b0);
        u16::lemma_round_trip(m.port, s, at);
        String::lemma_round_trip(m.host, s, at + a0.len());
    }

    fn is_encodable(&self) -> (r: bool) {
        self.host.is_encodable()
    }

    fn write(&self, out: &mut Vec<u8>) {
        self.port.write(out);
        self.host.write(out);
        assert(out@ =~= old(out)@ + Self::wire(self.deep_view()));
    }
}

impl BlockLength for Probe {
    open spec fn fixed_length() -> nat {
        u16::fixed_length()
            + String::fixed_length()
    }

    fn block_length() -> (n: u16) {
        u16::block_length()
            + String::block_length()
    }
}

impl Message for Probe {
    open spec fn spec_template_id() -> u16 {
        1
    }

    open spec fn spec_schema_id() -> u16 {
        3
    }

    open spec fn spec_version() -> u16 {
        1
    }

    fn template_id() -> (r: u16) {
        1
    }

    fn schema_id() -> (r: u16) {
        3
    }

    fn version() -> (r: u16) {
        1
    }
}

/// A peer as a broker keeps it on disk.
#[derive(Debug, PartialEq, Eq, Default)]
pub struct PeerDescriptor {
    pub state: PeerState,
    pub generation: u64,
    pub version: u16,
    pub change_state_time: u64,
    pub endpoints: Vec<Endpoint>,
    pub raft_memberships: Vec<RaftMembership>,
}

/// The model of `PeerDescriptor`.
pub struct PeerDescriptorView {
    pub state: PeerState,
    pub generation: u64,
    pub version: u16,
    pub change_state_time: u64,
    pub endpoints: Seq<EndpointView>,
    pub raft_memberships: Seq<RaftMembershipView>,
}

impl DeepView for PeerDescriptor {
    type V = PeerDescriptorView;

    open spec fn deep_view(&self) -> PeerDescriptorView {
        PeerDescriptorView {
            state: self.state,
            generation: self.generation,
            version: self.version,
            change_state_time: self.change_state_time,
            endpoints: self.endpoints.deep_view(),
            raft_memberships: self.raft_memberships.deep_view(),
        }
    }
}

impl FromBytes for PeerDescriptor {
    /// The fields in the order of their declaration.
    open spec fn parse(s: Seq<u8>, at: int) -> Result<(PeerDescriptorView, int), Failure> {
        match PeerState::parse(s, at) {
            Err(e) => Err(e),
            Ok((state, at)) => match u64::parse(s, at) {
                Err(e) => Err(e),
                Ok((generation, at)) => match u16::parse(s, at) {
                    Err(e) => Err(e),
                    Ok((version, at)) => match u64::parse(s, at) {
                        Err(e) => Err(e),
                        Ok((change_state_time, at)) => match Vec::<Endpoint>::parse(s, at) {
                            Err(e) => Err(e),
                            Ok((endpoints, at)) => match Vec::<RaftMembership>::parse(s, at) {
                                Err(e) => Err(e),
                                Ok((raft_memberships, at)) => Ok((
                                    PeerDescriptorView {
                                        state,
                                        generation,
                                        version,
                                        change_state_time,
                                        endpoints,
                                        raft_memberships,
                                    },
                                    at,
                                )),
                            },
                        },
                    },
                },
            },
        }
    }

    fn read_at(buf: &[u8], at: usize) -> (r: Result<(Self, usize), Stop>) {
        let (state, at) = PeerState::read_at(buf, at)?;
        let (generation, at) = u64::read_at(buf, at)?;
        let (version, at) = u16::read_at(buf, at)?;
        let (change_state_time, at) = u64::read_at(buf, at)?;
        let (endpoints, at) = Vec::<Endpoint>::read_at(buf, at)?;
        let (raft_memberships, at) = Vec::<RaftMembership>::read_at(buf, at)?;
        Ok((
            PeerDescriptor {
                state,
                generation,
                version,
                change_state_time,
                endpoints,
                raft_memberships,
            },
            at,
        ))
    }
}

impl ToBytes for PeerDescriptor {
    open spec fn wire(m: PeerDescriptorView) -> Seq<u8> {
        PeerState::wire(m.state)
            + u64::wire(m.generation)
            + u16::wire(m.version)
            + u64::wire(m.change_state_time)
            + Vec::<Endpoint>::wire(m.endpoints)
            + Vec::<RaftMembership>::wire(m.raft_memberships)
    }

    open spec fn encodable(m: PeerDescriptorView) -> bool {
        Vec::<Endpoint>::encodable(m.endpoints) && Vec::<RaftMembership>::encodable(m.raft_memberships)
    }

    proof fn lemma_round_trip(m: PeerDescriptorView, s: Seq<u8>, at: int) {
        let w0 = PeerState::wire(m.state);
        let w1 = u64::wire(m.generation);
        let w2 = u16::wire(m.version);
        let w3 = u64::wire(m.change_state_time);
        let w4 = Vec::<Endpoint>::wire(m.endpoints);
        let w5 = Vec::<RaftMembership>::wire(m.raft_memberships);
        let a0 = w0;
        let a1 = a0 + w1;
        let a2 = a1 + w2;
        let a3 = a2 + w3;
        let a4 = a3 + w4;
        let b4 = w5;
        let b3 = w4 + b4;
        let b2 = w3 + b3;
        let b1 = w2 + b2;
        let b0 = w1 + b1;
        lemma_last_stands(s, at, a4, w5);
        lemma_part_stands(s, at, a3, w4, b4);
        lemma_concat_assoc(a3, w4, b4);
        lemma_part_stands(s, at, a2, w3, b3);
        lemma_concat_assoc(a2, w3, b3);
        lemma_part_stands(s, at, a1, w2, b2);
        lemma_concat_assoc(a1, w2, b2);
        lemma_part_stands(s, at, a0, w1, b1);
        lemma_concat_assoc(a0, w1, b1);
        lemma_first_stands(s, at, w0, b0);
        PeerState::lemma_round_trip(m.state, s, at);
        u64::lemma_round_trip(m.generation, s, at + a0.len());
        u16::lemma_round_trip(m.version, s, at + a1.len());
        u64::lemma_round_trip(m.change_state_time, s, at + a2.len());
        Vec::<Endpoint>::lemma_round_trip(m.endpoints, s, at + a3.len());
        Vec::<RaftMembership>::lemma_round_trip(m.raft_memberships, s, at + a4.len());
    }

    fn is_encodable(&self) -> (r: bool) {
        self.endpoints.is_encodable() && self.raft_memberships.is_encodable()
    }

    fn write(&self, out: &mut Vec<u8>) {
        self.state.write(out);
        self.generation.write(out);
        self.version.write(out);
        self.change_state_time.write(out);
        self.endpoints.write(out);
        self.raft_memberships.write(out);
        assert(out@ =~= old(out)@ + Self::wire(self.deep_view()));
    }
}

impl BlockLength for PeerDescriptor {
    open spec fn fixed_length() -> nat {
        PeerState::fixed_length()
            + u64::fixed_length()
            + u16::fixed_length()
            + u64::fixed_length()
            + Vec::<Endpoint>::fixed_length()
            + Vec::<RaftMembership>::fixed_length()
    }

    fn block_length() -> (n: u16) {
        PeerState::block_length()
            + u64::block_length()
            + u16::block_length()
            + u64::block_length()
            + Vec::<Endpoint>::block_length()
            + Vec::<RaftMembership>::block_length()
    }
}

impl Message for PeerDescriptor {
    open spec fn spec_template_id() -> u16 {
        100
    }

    open spec fn spec_schema_id() -> u16 {
        3
    }

    open spec fn spec_version() -> u16 {
        1
    }

    fn template_id() -> (r: u16) {
        100
    }

    fn schema_id() -> (r: u16) {
        3
    }

    fn version() -> (r: u16) {
        1
    }
}

} // verus!
