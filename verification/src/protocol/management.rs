//! The messages by which brokers manage their raft groups (schema family 5).

use crate::convert::{
    lemma_concat_assoc, lemma_first_stands, lemma_last_stands, lemma_part_stands, BlockLength,
    FromBytes, Message, ToBytes,
};
use crate::errors::{Failure, Stop};
use vstd::prelude::*;

verus! {

/// The address of a member of a raft group.
#[derive(Debug, PartialEq, Eq, Default)]
pub struct Member {
    pub port: u16,
    pub host: String,
}

/// The model of `Member`.
pub struct MemberView {
    pub port: u16,
    pub host: Seq<char>,
}

impl DeepView for Member {
    type V = MemberView;

    open spec fn deep_view(&self) -> MemberView {
        MemberView {
            port: self.port,
            host: self.host.deep_view(),
        }
    }
}

impl FromBytes for Member {
    /// The fields in the order of their declaration.
    open spec fn parse(s: Seq<u8>, at: int) -> Result<(MemberView, int), Failure> {
        match u16::parse(s, at) {
            Err(e) => Err(e),
            Ok((port, at)) => match String::parse(s, at) {
                Err(e) => Err(e),
                Ok((host, at)) => Ok((MemberView { port, host }, at)),
            },
        }
    }

    fn read_at(buf: &[u8], at: usize) -> (r: Result<(Self, usize), Stop>) {
        let (port, at) = u16::read_at(buf, at)?;
        let (host, at) = String::read_at(buf, at)?;
        Ok((Member { port, host }, at))
    }
}

impl ToBytes for Member {
    open spec fn wire(m: MemberView) -> Seq<u8> {
        u16::wire(m.port)
            + String::wire(m.host)
    }

    open spec fn encodable(m: MemberView) -> bool {
        String::encodable(m.host)
    }

    proof fn lemma_round_trip(m: MemberView, s: Seq<u8>, at: int) {
        let w0 = u16::wire(m.port);
        let w1 = String::wire(m.host);
        let a0 = w0;
        let b0 = w1;
        lemma_last_stands(s, at, a0, w1);
        lemma_first_stands(s, at, w0, b0);
        u16::lemma_round_trip(m.port, s, at);
        String::lemma_round_trip(m.host, s, at + a0.len());
    }

    fn is_encodable(&self) -> (r: bool) {
        self.host.is_encodable()
    }

    fn write(&self, out: &mut Vec<u8>) {
        self.port.write(out);
        self.host.write(out);
        assert(out@ =~= old(out)@ + Self::wire(self.deep_view()));
    }
}

impl BlockLength for Member {
    open spec fn fixed_length() -> nat {
        u16::fixed_length()
            + String::fixed_length()
    }

    fn block_length() -> (n: u16) {
        u16::block_length()
            + String::block_length()
    }
}

/// A broker is invited to the raft group of a partition.
#[derive(Debug, PartialEq, Eq, Default)]
pub struct InvitationRequest {
    pub partition_id: u16,
    pub term: u16,
    pub name: u16,
    pub members: Vec<Member>,
    pub topic_name: String,
}

/// The model of `InvitationRequest`.
pub struct InvitationRequestView {
    pub partition_id: u16,
    pub term: u16,
    pub name: u16,
    pub members: Seq<MemberView>,
    pub topic_name: Seq<char>,
}

impl DeepView for InvitationRequest {
    type V = InvitationRequestView;

    open spec fn deep_view(&self) -> InvitationRequestView {
        InvitationRequestView {
            partition_id: self.partition_id,
            term: self.term,
            name: self.name,
            members: self.members.deep_view(),
            topic_name: self.topic_name.deep_view(),
        }
    }
}

impl FromBytes for InvitationRequest {
    /// The fields in the order of their declaration.
    open spec fn parse(s: Seq<u8>, at: int) -> Result<(InvitationRequestView, int), Failure> {
        match u16::parse(s, at) {
            Err(e) => Err(e),
            Ok((partition_id, at)) => match u16::parse(s, at) {
                Err(e) => Err(e),
                Ok((term, at)) => match u16::parse(s, at) {
                    Err(e) => Err(e),
                    Ok((name, at)) => match Vec::<Member>::parse(s, at) {
                        Err(e) => Err(e),
                        Ok((members, at)) => match String::parse(s, at) {
                            Err(e) => Err(e),
                            Ok((topic_name, at)) => Ok((
                                InvitationRequestView {
                                    partition_id,
                                    term,
                                    name,
                                    members,
                                    topic_name,
                                },
                                at,
                            )),
                        },
                    },
                },
            },
        }
    }

    fn read_at(buf: &[u8], at: usize) -> (r: Result<(Self, usize), Stop>) {
        let (partition_id, at) = u16::read_at(buf, at)?;
        let (term, at) = u16::read_at(buf, at)?;
        let (name, at) = u16::read_at(buf, at)?;
        let (members, at) = Vec::<Member>::read_at(buf, at)?;
        let (topic_name, at) = String::read_at(buf, at)?;
        Ok((InvitationRequest { partition_id, term, name, members, topic_name }, at))
    }
}

impl ToBytes for InvitationRequest {
    open spec fn wire(m: InvitationRequestView) -> Seq<u8> {
        u16::wire(m.partition_id)
            + u16::wire(m.term)
            + u16::wire(m.name)
            + Vec::<Member>::wire(m.members)
            + String::wire(m.topic_name)
    }

    open spec fn encodable(m: InvitationRequestView) -> bool {
        Vec::<Member>::encodable(m.members) && String::encodable(m.topic_name)
    }

    proof fn lemma_round_trip(m: InvitationRequestView, s: Seq<u8>, at: int) {
        let w0 = u16::wire(m.partition_id);
        let w1 = u16::wire(m.term);
        let w2 = u16::wire(m.name);
        let w3 = Vec::<Member>::wire(m.members);
        let w4 = String::wire(m.topic_name);
        let a0 = w0;
        let a1 = a0 + w1;
        let a2 = a1 + w2;
        let a3 = a2 + w3;
        let b3 = w4;
        let b2 = w3 + b3;
        let b1 = w2 + b2;
        let b0 = w1 + b1;
        lemma_last_stands(s, at, a3, w4);
        lemma_part_stands(s, at, a2, w3, b3);
        lemma_concat_assoc(a2, w3, b3);
        lemma_part_stands(s, at, a1, w2, b2);
        lemma_concat_assoc(a1, w2, b2);
        lemma_part_stands(s, at, a0, w1, b1);
        lemma_concat_assoc(a0, w1, b1);
        lemma_first_stands(s, at, w0, b0);
        u16::lemma_round_trip(m.partition_id, s, at);
        u16::lemma_round_trip(m.term, s, at + a0.len());
        u16::lemma_round_trip(m.name, s, at + a1.len());
        Vec::<Member>::lemma_round_trip(m.members, s, at + a2.len());
        String::lemma_round_trip(m.topic_name, s, at + a3.len());
    }

    fn is_encodable(&self) -> (r: bool) {
        self.members.is_encodable() && self.topic_name.is_encodable()
    }

    fn write(&self, out: &mut Vec<u8>) {
        self.partition_id.write(out);
        self.term.write(out);
        self.name.write(out);
        self.members.write(out);
        self.topic_name.write(out);
        assert(out@ =~= old(out)@ + Self::wire(self.deep_view()));
    }
}

impl BlockLength for InvitationRequest {
    open spec fn fixed_length() -> nat {
        u16::fixed_length()
            + u16::fixed_length()
            + u16::fixed_length()
            + Vec::<Member>::fixed_length()
            + String::fixed_length()
    }

    fn block_length() -> (n: u16) {
        u16::block_length()
            + u16::block_length()
            + u16::block_length()
            + Vec::<Member>::block_length()
            + String::block_length()
    }
}

impl Message for InvitationRequest {
    open spec fn spec_template_id() -> u16 {
        0
    }

    open spec fn spec_schema_id() -> u16 {
        5
    }

    open spec fn spec_version() -> u16 {
        1
    }

    fn template_id() -> (r: u16) {
        0
    }

    fn schema_id() -> (r: u16) {
        5
    }

    fn version() -> (r: u16) {
        1
    }
}

/// The answer to an invitation.
#[derive(Debug, Clone, Copy, PartialEq, Eq, Structural, Default)]
pub struct InvitationResponse {
    pub term: u16,
}

impl DeepView for InvitationResponse {
    type V = InvitationResponse;

    open spec fn deep_view(&self) -> InvitationResponse {
        *self
    }
}

impl FromBytes for InvitationResponse {
    /// The fields in the order of their declaration.
    open spec fn parse(s: Seq<u8>, at: int) -> Result<(InvitationResponse, int), Failure> {
        match u16::parse(s, at) {
            Err(e) => Err(e),
            Ok((term, at)) => Ok((InvitationResponse { term }, at)),
        }
    }

    fn read_at(buf: &[u8], at: usize) -> (r: Result<(Self, usize), Stop>) {
        let (term, at) = u16::read_at(buf, at)?;
        Ok((InvitationResponse { term }, at))
    }
}

impl ToBytes for InvitationResponse {
    open spec fn wire(m: InvitationResponse) -> Seq<u8> {
        u16::wire(m.term)
    }

    open spec fn encodable(m: InvitationResponse) -> bool {
        true
    }

    proof fn lemma_round_trip(m: InvitationResponse, s: Seq<u8>, at: int) {
        u16::lemma_round_trip(m.term, s, at);
    }

    fn is_encodable(&self) -> (r: bool) {
        true
    }

    fn write(&self, out: &mut Vec<u8>) {
        self.term.write(out);
        assert(out@ =~= old(out)@ + Self::wire(self.deep_view()));
    }
}

impl BlockLength for InvitationResponse {
    open spec fn fixed_length() -> nat {
        u16::fixed_length()
    }

    fn block_length() -> (n: u16) {
        u16::block_length()
    }
}

impl Message for InvitationResponse {
    open spec fn spec_template_id() -> u16 {
        1
    }

    open spec fn spec_schema_id() -> u16 {
        5
    }

    open spec fn spec_version() -> u16 {
        1
    }

    fn template_id() -> (r: u16) {
        1
    }

    fn schema_id() -> (r: u16) {
        5
    }

    fn version() -> (r: u16) {
        1
    }
}

} // verus!
