//! The messages of the raft protocol between brokers (schema family 4).

use crate::convert::{
    lemma_concat_assoc, lemma_first_stands, lemma_last_stands, lemma_part_stands, BlockLength,
    Data, FromBytes, Message, ToBytes,
};
use crate::errors::{Failure, Stop};
use vstd::prelude::*;

verus! {

/// The address of a member of a raft group.
#[derive(Debug, PartialEq, Eq, Default)]
pub struct Member {
    pub port: u16,
    pub host: String,
}

/// The model of `Member`.
pub struct MemberView {
    pub port: u16,
    pub host: Seq<char>,
}

impl DeepView for Member {
    type V = MemberView;

    open spec fn deep_view(&self) -> MemberView {
        MemberView {
            port: self.port,
            host: self.host.deep_view(),
        }
    }
}

impl FromBytes for Member {
    /// The fields in the order of their declaration.
    open spec fn parse(s: Seq<u8>, at: int) -> Result<(MemberView, int), Failure> {
        match u16::parse(s, at) {
            Err(e) => Err(e),
            Ok((port, at)) => match String::parse(s, at) {
                Err(e) => Err(e),
                Ok((host, at)) => Ok((MemberView { port, host }, at)),
            },
        }
    }

    fn read_at(buf: &[u8], at: usize) -> (r: Result<(Self, usize), Stop>) {
        let (port, at) = u16::read_at(buf, at)?;
        let (host, at) = String::read_at(buf, at)?;
        Ok((Member { port, host }, at))
    }
}

impl ToBytes for Member {
    open spec fn wire(m: MemberView) -> Seq<u8> {
        u16::wire(m.port)
            + String::wire(m.host)
    }

    open spec fn encodable(m: MemberView) -> bool {
        String::encodable(m.host)
    }

    proof fn lemma_round_trip(m: MemberView, s: Seq<u8>, at: int) {
        let w0 = u16::wire(m.port);
        let w1 = String::wire(m.host);
        let a0 = w0;
        let b0 = w1;
        lemma_last_stands(s, at, a0, w1);
        lemma_first_stands(s, at, w0, b0);
        u16::lemma_round_trip(m.port, s, at);
        String::lemma_round_trip(m.host, s, at + a0.len());
    }

    fn is_encodable(&self) -> (r: bool) {
        self.host.is_encodable()
    }

    fn write(&self, out: &mut Vec<u8>) {
        self.port.write(out);
        self.host.write(out);
        assert(out@ =~= old(out)@ + Self::wire(self.deep_view()));
    }
}

impl BlockLength for Member {
    open spec fn fixed_length() -> nat {
        u16::fixed_length()
            + String::fixed_length()
    }

    fn block_length() -> (n: u16) {
        u16::block_length()
            + String::block_length()
    }
}

/// A broker asks to join the raft group of a partition.
#[derive(Debug, PartialEq, Eq, Default)]
pub struct JoinRequest {
    pub partition_id: u16,
    pub term: u16,
    pub port: u16,
    pub topic_name: String,
    pub host: String,
}

/// The model of `JoinRequest`.
pub struct JoinRequestView {
    pub partition_id: u16,
    pub term: u16,
    pub port: u16,
    pub topic_name: Seq<char>,
    pub host: Seq<char>,
}

impl DeepView for JoinRequest {
    type V = JoinRequestView;

    open spec fn deep_view(&self) -> JoinRequestView {
        JoinRequestView {
            partition_id: self.partition_id,
            term: self.term,
            port: self.port,
            topic_name: self.topic_name.deep_view(),
            host: self.host.deep_view(),
        }
    }
}

impl FromBytes for JoinRequest {
    /// The fields in the order of their declaration.
    open spec fn parse(s: Seq<u8>, at: int) -> Result<(JoinRequestView, int), Failure> {
        match u16::parse(s, at) {
            Err(e) => Err(e),
            Ok((partition_id, at)) => match u16::parse(s, at) {
                Err(e) => Err(e),
                Ok((term, at)) => match u16::parse(s, at) {
                    Err(e) => Err(e),
                    Ok((port, at)) => match String::parse(s, at) {
                        Err(e) => Err(e),
                        Ok((topic_name, at)) => match String::parse(s, at) {
                            Err(e) => Err(e),
                            Ok((host, at)) => Ok((
                                JoinRequestView {
                                    partition_id,
                                    term,
                                    port,
                                    topic_name,
                                    host,
                                },
                                at,
                            )),
                        },
                    },
                },
            },
        }
    }

    fn read_at(buf: &[u8], at: usize) -> (r: Result<(Self, usize), Stop>) {
        let (partition_id, at) = u16::read_at(buf, at)?;
        let (term, at) = u16::read_at(buf, at)?;
        let (port, at) = u16::read_at(buf, at)?;
        let (topic_name, at) = String::read_at(buf, at)?;
        let (host, at) = String::read_at(buf, at)?;
        Ok((JoinRequest { partition_id, term, port, topic_name, host }, at))
    }
}

impl ToBytes for JoinRequest {
    open spec fn wire(m: JoinRequestView) -> Seq<u8> {
        u16::wire(m.partition_id)
            + u16::wire(m.term)
            + u16::wire(m.port)
            + String::wire(m.topic_name)
            + String::wire(m.host)
    }

    open spec fn encodable(m: JoinRequestView) -> bool {
        String::encodable(m.topic_name) && String::encodable(m.host)
    }

    proof fn lemma_round_trip(m: JoinRequestView, s: Seq<u8>, at: int) {
        let w0 = u16::wire(m.partition_id);
        let w1 = u16::wire(m.term);
        let w2 = u16::wire(m.port);
        let w3 = String::wire(m.topic_name);
        let w4 = String::wire(m.host);
        let a0 = w0;
        let a1 = a0 + w1;
        let a2 = a1 + w2;
        let a3 = a2 + w3;
        let b3 = w4;
        let b2 = w3 + b3;
        let b1 = w2 + b2;
        let b0 = w1 + b1;
        lemma_last_stands(s, at, a3, w4);
        lemma_part_stands(s, at, a2, w3, b3);
        lemma_concat_assoc(a2, w3, b3);
        lemma_part_stands(s, at, a1, w2, b2);
        lemma_concat_assoc(a1, w2, b2);
        lemma_part_stands(s, at, a0, w1, b1);
        lemma_concat_assoc(a0, w1, b1);
        lemma_first_stands(s, at, w0, b0);
        u16::lemma_round_trip(m.partition_id, s, at);
        u16::lemma_round_trip(m.term, s, at + a0.len());
        u16::lemma_round_trip(m.port, s, at + a1.len());
        String::lemma_round_trip(m.topic_name, s, at + a2.len());
        String::lemma_round_trip(m.host, s, at + a3.len());
    }

    fn is_encodable(&self) -> (r: bool) {
        self.topic_name.is_encodable() && self.host.is_encodable()
    }

    fn write(&self, out: &mut Vec<u8>) {
        self.partition_id.write(out);
        self.term.write(out);
        self.port.write(out);
        self.topic_name.write(out);
        self.host.write(out);
        assert(out@ =~= old(out)@ + Self::wire(self.deep_view()));
    }
}

impl BlockLength for JoinRequest {
    open spec fn fixed_length() -> nat {
        u16::fixed_length()
            + u16::fixed_length()
            + u16::fixed_length()
            + String::fixed_length()
            + String::fixed_length()
    }

    fn block_length() -> (n: u16) {
        u16::block_length()
            + u16::block_length()
            + u16::block_length()
            + String::block_length()
            + String::block_length()
    }
}

impl Message for JoinRequest {
    open spec fn spec_template_id() -> u16 {
        0
    }

    open spec fn spec_schema_id() -> u16 {
        4
    }

    open spec fn spec_version() -> u16 {
        1
    }

    fn template_id() -> (r: u16) {
        0
    }

    fn schema_id() -> (r: u16) {
        4
    }

    fn version() -> (r: u16) {
        1
    }
}

/// The answer to a join request, with the group's configuration.
#[derive(Debug, PartialEq, Eq, Default)]
pub struct JoinResponse {
    pub term: u16,
    pub succeeded: bool,
    pub configuration_entry_position: u64,
    pub configuration_entry_term: i32,
    pub members: Vec<Member>,
}

/// The model of `JoinResponse`.
pub struct JoinResponseView {
    pub term: u16,
    pub succeeded: bool,
    pub configuration_entry_position: u64,
    pub configuration_entry_term: i32,
    pub members: Seq<MemberView>,
}

impl DeepView for JoinResponse {
    type V = JoinResponseView;

    open spec fn deep_view(&self) -> JoinResponseView {
        JoinResponseView {
            term: self.term,
            succeeded: self.succeeded,
            configuration_entry_position: self.configuration_entry_position,
            configuration_entry_term: self.configuration_entry_term,
            members: self.members.deep_view(),
        }
    }
}

impl FromBytes for JoinResponse {
    /// The fields in the order of their declaration.
    open spec fn parse(s: Seq<u8>, at: int) -> Result<(JoinResponseView, int), Failure> {
        match u16::parse(s, at) {
            Err(e) => Err(e),
            Ok((term, at)) => match bool::parse(s, at) {
                Err(e) => Err(e),
                Ok((succeeded, at)) => match u64::parse(s, at) {
                    Err(e) => Err(e),
                    Ok((configuration_entry_position, at)) => match i32::parse(s, at) {
                        Err(e) => Err(e),
                        Ok((configuration_entry_term, at)) => match Vec::<Member>::parse(s, at) {
                            Err(e) => Err(e),
                            Ok((members, at)) => Ok((
                                JoinResponseView {
                                    term,
                                    succeeded,
                                    configuration_entry_position,
                                    configuration_entry_term,
                                    members,
                                },
                                at,
                            )),
                        },
                    },
                },
            },
        }
    }

    fn read_at(buf: &[u8], at: usize) -> (r: Result<(Self, usize), Stop>) {
        let (term, at) = u16::read_at(buf, at)?;
        let (succeeded, at) = bool::read_at(buf, at)?;
        let (configuration_entry_position, at) = u64::read_at(buf, at)?;
        let (configuration_entry_term, at) = i32::read_at(buf, at)?;
        let (members, at) = Vec::<Member>::read_at(buf, at)?;
        Ok((
            JoinResponse {
                term,
                succeeded,
                configuration_entry_position,
                configuration_entry_term,
                members,
            },
            at,
        ))
    }
}

impl ToBytes for JoinResponse {
    open spec fn wire(m: JoinResponseView) -> Seq<u8> {
        u16::wire(m.term)
            + bool::wire(m.succeeded)
            + u64::wire(m.configuration_entry_position)
            + i32::wire(m.configuration_entry_term)
            + Vec::<Member>::wire(m.members)
    }

    open spec fn encodable(m: JoinResponseView) -> bool {
        Vec::<Member>::encodable(m.members)
    }

    proof fn lemma_round_trip(m: JoinResponseView, s: Seq<u8>, at: int) {
        let w0 = u16::wire(m.term);
        let w1 = bool::wire(m.succeeded);
        let w2 = u64::wire(m.configuration_entry_position);
        let w3 = i32::wire(m.configuration_entry_term);
        let w4 = Vec::<Member>::wire(m.members);
        let a0 = w0;
        let a1 = a0 + w1;
        let a2 = a1 + w2;
        let a3 = a2 + w3;
        let b3 = w4;
        let b2 = w3 + b3;
        let b1 = w2 + b2;
        let b0 = w1 + b1;
        lemma_last_stands(s, at, a3, w4);
        lemma_part_stands(s, at, a2, w3, b3);
        lemma_concat_assoc(a2, w3, b3);
        lemma_part_stands(s, at, a1, w2, b2);
        lemma_concat_assoc(a1, w2, b2);
        lemma_part_stands(s, at, a0, w1, b1);
        lemma_concat_assoc(a0, w1, b1);
        lemma_first_stands(s, at, w0, b0);
        u16::lemma_round_trip(m.term, s, at);
        bool::lemma_round_trip(m.succeeded, s, at + a0.len());
        u64::lemma_round_trip(m.configuration_entry_position, s, at + a1.len());
        i32::lemma_round_trip(m.configuration_entry_term, s, at + a2.len());
        Vec::<Member>::lemma_round_trip(m.members, s, at + a3.len());
    }

    fn is_encodable(&self) -> (r: bool) {
        self.members.is_encodable()
    }

    fn write(&self, out: &mut Vec<u8>) {
        self.term.write(out);
        self.succeeded.write(out);
        self.configuration_entry_position.write(out);
        self.configuration_entry_term.write(out);
        self.members.write(out);
        assert(out@ =~= old(out)@ + Self::wire(self.deep_view()));
    }
}

impl BlockLength for JoinResponse {
    open spec fn fixed_length() -> nat {
        u16::fixed_length()
            + bool::fixed_length()
            + u64::fixed_length()
            + i32::fixed_length()
            + Vec::<Member>::fixed_length()
    }

    fn block_length() -> (n: u16) {
        u16::block_length()
            + bool::block_length()
            + u64::block_length()
            + i32::block_length()
            + Vec::<Member>::block_length()
    }
}

impl Message for JoinResponse {
    open spec fn spec_template_id() -> u16 {
        1
    }

    open spec fn spec_schema_id() -> u16 {
        4
    }

    open spec fn spec_version() -> u16 {
        1
    }

    fn template_id() -> (r: u16) {
        1
    }

    fn schema_id() -> (r: u16) {
        4
    }

    fn version() -> (r: u16) {
        1
    }
}

/// A broker asks to leave the raft group of a partition.
#[derive(Debug, PartialEq, Eq, Default)]
pub struct LeaveRequest {
    pub partition_id: u16,
    pub term: u16,
    pub port: u16,
    pub topic_name: String,
    pub host: String,
}

/// The model of `LeaveRequest`.
pub struct LeaveRequestView {
    pub partition_id: u16,
    pub term: u16,
    pub port: u16,
    pub topic_name: Seq<char>,
    pub host: Seq<char>,
}

impl DeepView for LeaveRequest {
    type V = LeaveRequestView;

    open spec fn deep_view(&self) -> LeaveRequestView {
        LeaveRequestView {
            partition_id: self.partition_id,
            term: self.term,
            port: self.port,
            topic_name: self.topic_name.deep_view(),
            host: self.host.deep_view(),
        }
    }
}

impl FromBytes for LeaveRequest {
    /// The fields in the order of their declaration.
    open spec fn parse(s: Seq<u8>, at: int) -> Result<(LeaveRequestView, int), Failure> {
        match u16::parse(s, at) {
            Err(e) => Err(e),
            Ok((partition_id, at)) => match u16::parse(s, at) {
                Err(e) => Err(e),
                Ok((term, at)) => match u16::parse(s, at) {
                    Err(e) => Err(e),
                    Ok((port, at)) => match String::parse(s, at) {
                        Err(e) => Err(e),
                        Ok((topic_name, at)) => match String::parse(s, at) {
                            Err(e) => Err(e),
                            Ok((host, at)) => Ok((
                                LeaveRequestView {
                                    partition_id,
                                    term,
                                    port,
                                    topic_name,
                                    host,
                                },
                                at,
                            )),
                        },
                    },
                },
            },
        }
    }

    fn read_at(buf: &[u8], at: usize) -> (r: Result<(Self, usize), Stop>) {
        let (partition_id, at) = u16::read_at(buf, at)?;
        let (term, at) = u16::read_at(buf, at)?;
        let (port, at) = u16::read_at(buf, at)?;
        let (topic_name, at) = String::read_at(buf, at)?;
        let (host, at) = String::read_at(buf, at)?;
        Ok((LeaveRequest { partition_id, term, port, topic_name, host }, at))
    }
}

impl ToBytes for LeaveRequest {
    open spec fn wire(m: LeaveRequestView) -> Seq<u8> {
        u16::wire(m.partition_id)
            + u16::wire(m.term)
            + u16::wire(m.port)
            + String::wire(m.topic_name)
            + String::wire(m.host)
    }

    open spec fn encodable(m: LeaveRequestView) -> bool {
        String::encodable(m.topic_name) && String::encodable(m.host)
    }

    proof fn lemma_round_trip(m: LeaveRequestView, s: Seq<u8>, at: int) {
        let w0 = u16::wire(m.partition_id);
        let w1 = u16::wire(m.term);
        let w2 = u16::wire(m.port);
        let w3 = String::wire(m.topic_name);
        let w4 = String::wire(m.host);
        let a0 = w0;
        let a1 = a0 + w1;
        let a2 = a1 + w2;
        let a3 = a2 + w3;
        let b3 = w4;
        let b2 = w3 + b3;
        let b1 = w2 + b2;
        let b0 = w1 + b1;
        lemma_last_stands(s, at, a3, w4);
        lemma_part_stands(s, at, a2, w3, b3);
        lemma_concat_assoc(a2, w3, b3);
        lemma_part_stands(s, at, a1, w2, b2);
        lemma_concat_assoc(a1, w2, b2);
        lemma_part_stands(s, at, a0, w1, b1);
        lemma_concat_assoc(a0, w1, b1);
        lemma_first_stands(s, at, w0, b0);
        u16::lemma_round_trip(m.partition_id, s, at);
        u16::lemma_round_trip(m.term, s, at + a0.len());
        u16::lemma_round_trip(m.port, s, at + a1.len());
        String::lemma_round_trip(m.topic_name, s, at + a2.len());
        String::lemma_round_trip(m.host, s, at + a3.len());
    }

    fn is_encodable(&self) -> (r: bool) {
        self.topic_name.is_encodable() && self.host.is_encodable()
    }

    fn write(&self, out: &mut Vec<u8>) {
        self.partition_id.write(out);
        self.term.write(out);
        self.port.write(out);
        self.topic_name.write(out);
        self.host.write(out);
        assert(out@ =~= old(out)@ + Self::wire(self.deep_view()));
    }
}

impl BlockLength for LeaveRequest {
    open spec fn fixed_length() -> nat {
        u16::fixed_length()
            + u16::fixed_length()
            + u16::fixed_length()
            + String::fixed_length()
            + String::fixed_length()
    }

    fn block_length() -> (n: u16) {
        u16::block_length()
            + u16::block_length()
            + u16::block_length()
            + String::block_length()
            + String::block_length()
    }
}

impl Message for LeaveRequest {
    open spec fn spec_template_id() -> u16 {
        2
    }

    open spec fn spec_schema_id() -> u16 {
        4
    }

    open spec fn spec_version() -> u16 {
        1
    }

    fn template_id() -> (r: u16) {
        2
    }

    fn schema_id() -> (r: u16) {
        4
    }

    fn version() -> (r: u16) {
        1
    }
}

/// The answer to a leave request, with the group's configuration.
#[derive(Debug, PartialEq, Eq, Default)]
pub struct LeaveResponse {
    pub term: u16,
    pub succeeded: bool,
    pub configuration_entry_position: u64,
    pub configuration_entry_term: i32,
    pub members: Vec<Member>,
}

/// The model of `LeaveResponse`.
pub struct LeaveResponseView {
    pub term: u16,
    pub succeeded: bool,
    pub configuration_entry_position: u64,
    pub configuration_entry_term: i32,
    pub members: Seq<MemberView>,
}

impl DeepView for LeaveResponse {
    type V = LeaveResponseView;

    open spec fn deep_view(&self) -> LeaveResponseView {
        LeaveResponseView {
            term: self.term,
            succeeded: self.succeeded,
            configuration_entry_position: self.configuration_entry_position,
            configuration_entry_term: self.configuration_entry_term,
            members: self.members.deep_view(),
        }
    }
}

impl FromBytes for LeaveResponse {
    /// The fields in the order of their declaration.
    open spec fn parse(s: Seq<u8>, at: int) -> Result<(LeaveResponseView, int), Failure> {
        match u16::parse(s, at) {
            Err(e) => Err(e),
            Ok((term, at)) => match bool::parse(s, at) {
                Err(e) => Err(e),
                Ok((succeeded, at)) => match u64::parse(s, at) {
                    Err(e) => Err(e),
                    Ok((configuration_entry_position, at)) => match i32::parse(s, at) {
                        Err(e) => Err(e),
                        Ok((configuration_entry_term, at)) => match Vec::<Member>::parse(s, at) {
                            Err(e) => Err(e),
                            Ok((members, at)) => Ok((
                                LeaveResponseView {
                                    term,
                                    succeeded,
                                    configuration_entry_position,
                                    configuration_entry_term,
                                    members,
                                },
                                at,
                            )),
                        },
                    },
                },
            },
        }
    }

    fn read_at(buf: &[u8], at: usize) -> (r: Result<(Self, usize), Stop>) {
        let (term, at) = u16::read_at(buf, at)?;
        let (succeeded, at) = bool::read_at(buf, at)?;
        let (configuration_entry_position, at) = u64::read_at(buf, at)?;
        let (configuration_entry_term, at) = i32::read_at(buf, at)?;
        let (members, at) = Vec::<Member>::read_at(buf, at)?;
        Ok((
            LeaveResponse {
                term,
                succeeded,
                configuration_entry_position,
                configuration_entry_term,
                members,
            },
            at,
        ))
    }
}

impl ToBytes for LeaveResponse {
    open spec fn wire(m: LeaveResponseView) -> Seq<u8> {
        u16::wire(m.term)
            + bool::wire(m.succeeded)
            + u64::wire(m.configuration_entry_position)
            + i32::wire(m.configuration_entry_term)
            + Vec::<Member>::wire(m.members)
    }

    open spec fn encodable(m: LeaveResponseView) -> bool {
        Vec::<Member>::encodable(m.members)
    }

    proof fn lemma_round_trip(m: LeaveResponseView, s: Seq<u8>, at: int) {
        let w0 = u16::wire(m.term);
        let w1 = bool::wire(m.succeeded);
        let w2 = u64::wire(m.configuration_entry_position);
        let w3 = i32::wire(m.configuration_entry_term);
        let w4 = Vec::<Member>::wire(m.members);
        let a0 = w0;
        let a1 = a0 + w1;
        let a2 = a1 + w2;
        let a3 = a2 + w3;
        let b3 = w4;
        let b2 = w3 + b3;
        let b1 = w2 + b2;
        let b0 = w1 + b1;
        lemma_last_stands(s, at, a3, w4);
        lemma_part_stands(s, at, a2, w3, b3);
        lemma_concat_assoc(a2, w3, b3);
        lemma_part_stands(s, at, a1, w2, b2);
        lemma_concat_assoc(a1, w2, b2);
        lemma_part_stands(s, at, a0, w1, b1);
        lemma_concat_assoc(a0, w1, b1);
        lemma_first_stands(s, at, w0, b0);
        u16::lemma_round_trip(m.term, s, at);
        bool::lemma_round_trip(m.succeeded, s, at + a0.len());
        u64::lemma_round_trip(m.configuration_entry_position, s, at + a1.len());
        i32::lemma_round_trip(m.configuration_entry_term, s, at + a2.len());
        Vec::<Member>::lemma_round_trip(m.members, s, at + a3.len());
    }

    fn is_encodable(&self) -> (r: bool) {
        self.members.is_encodable()
    }

    fn write(&self, out: &mut Vec<u8>) {
        self.term.write(out);
        self.succeeded.write(out);
        self.configuration_entry_position.write(out);
        self.configuration_entry_term.write(out);
        self.members.write(out);
        assert(out@ =~= old(out)@ + Self::wire(self.deep_view()));
    }
}

impl BlockLength for LeaveResponse {
    open spec fn fixed_length() -> nat {
        u16::fixed_length()
            + bool::fixed_length()
            + u64::fixed_length()
            + i32::fixed_length()
            + Vec::<Member>::fixed_length()
    }

    fn block_length() -> (n: u16) {
        u16::block_length()
            + bool::block_length()
            + u64::block_length()
            + i32::block_length()
            + Vec::<Member>::block_length()
    }
}

impl Message for LeaveResponse {
    open spec fn spec_template_id() -> u16 {
        3
    }

    open spec fn spec_schema_id() -> u16 {
        4
    }

    open spec fn spec_version() -> u16 {
        1
    }

    fn template_id() -> (r: u16) {
        3
    }

    fn schema_id() -> (r: u16) {
        4
    }

    fn version() -> (r: u16) {
        1
    }
}

/// The leader tells a member the group's configuration.
#[derive(Debug, PartialEq, Eq, Default)]
pub struct ConfigurationRequest {
    pub partition_id: u16,
    pub term: u16,
    pub configuration_entry_position: u64,
    pub configuration_entry_term: i32,
    pub members: Vec<Member>,
    pub topic_name: String,
}

/// The model of `ConfigurationRequest`.
pub struct ConfigurationRequestView {
    pub partition_id: u16,
    pub term: u16,
    pub configuration_entry_position: u64,
    pub configuration_entry_term: i32,
    pub members: Seq<MemberView>,
    pub topic_name: Seq<char>,
}

impl DeepView for ConfigurationRequest {
    type V = ConfigurationRequestView;

    open spec fn deep_view(&self) -> ConfigurationRequestView {
        ConfigurationRequestView {
            partition_id: self.partition_id,
            term: self.term,
            configuration_entry_position: self.configuration_entry_position,
            configuration_entry_term: self.configuration_entry_term,
            members: self.members.deep_view(),
            topic_name: self.topic_name.deep_view(),
        }
    }
}

impl FromBytes for ConfigurationRequest {
    /// The fields in the order of their declaration.
    open spec fn parse(s: Seq<u8>, at: int) -> Result<(ConfigurationRequestView, int), Failure> {
        match u16::parse(s, at) {
            Err(e) => Err(e),
            Ok((partition_id, at)) => match u16::parse(s, at) {
                Err(e) => Err(e),
                Ok((term, at)) => match u64::parse(s, at) {
                    Err(e) => Err(e),
                    Ok((configuration_entry_position, at)) => match i32::parse(s, at) {
                        Err(e) => Err(e),
                        Ok((configuration_entry_term, at)) => match Vec::<Member>::parse(s, at) {
                            Err(e) => Err(e),
                            Ok((members, at)) => match String::parse(s, at) {
                                Err(e) => Err(e),
                                Ok((topic_name, at)) => Ok((
                                    ConfigurationRequestView {
                                        partition_id,
                                        term,
                                        configuration_entry_position,
                                        configuration_entry_term,
                                        members,
                                        topic_name,
                                    },
                                    at,
                                )),
                            },
                        },
                    },
                },
            },
        }
    }

    fn read_at(buf: &[u8], at: usize) -> (r: Result<(Self, usize), Stop>) {
        let (partition_id, at) = u16::read_at(buf, at)?;
        let (term, at) = u16::read_at(buf, at)?;
        let (configuration_entry_position, at) = u64::read_at(buf, at)?;
        let (configuration_entry_term, at) = i32::read_at(buf, at)?;
        let (members, at) = Vec::<Member>::read_at(buf, at)?;
        let (topic_name, at) = String::read_at(buf, at)?;
        Ok((
            ConfigurationRequest {
                partition_id,
                term,
                configuration_entry_position,
                configuration_entry_term,
                members,
                topic_name,
            },
            at,
        ))
    }
}

impl ToBytes for ConfigurationRequest {
    open spec fn wire(m: ConfigurationRequestView) -> Seq<u8> {
        u16::wire(m.partition_id)
            + u16::wire(m.term)
            + u64::wire(m.configuration_entry_position)
            + i32::wire(m.configuration_entry_term)
            + Vec::<Member>::wire(m.members)
            + String::wire(m.topic_name)
    }

    open spec fn encodable(m: ConfigurationRequestView) -> bool {
        Vec::<Member>::encodable(m.members) && String::encodable(m.topic_name)
    }

    proof fn lemma_round_trip(m: ConfigurationRequestView, s: Seq<u8>, at: int) {
        let w0 = u16::wire(m.partition_id);
        let w1 = u16::wire(m.term);
        let w2 = u64::wire(m.configuration_entry_position);
        let w3 = i32::wire(m.configuration_entry_term);
        let w4 = Vec::<Member>::wire(m.members);
        let w5 = String::wire(m.topic_name);
        let a0 = w0;
        let a1 = a0 + w1;
        let a2 = a1 + w2;
        let a3 = a2 + w3;
        let a4 = a3 + w4;
        let b4 = w5;
        let b3 = w4 + b4;
        let b2 = w3 + b3;
        let b1 = w2 + b2;
        let b0 = w1 + b1;
        lemma_last_stands(s, at, a4, w5);
        lemma_part_stands(s, at, a3, w4, b4);
        lemma_concat_assoc(a3, w4, b4);
        lemma_part_stands(s, at, a2, w3, b3);
        lemma_concat_assoc(a2, w3, b3);
        lemma_part_stands(s, at, a1, w2, b2);
        lemma_concat_assoc(a1, w2, b2);
        lemma_part_stands(s, at, a0, w1, b1);
        lemma_concat_assoc(a0, w1, b1);
        lemma_first_stands(s, at, w0, b0);
        u16::lemma_round_trip(m.partition_id, s, at);
        u16::lemma_round_trip(m.term, s, at + a0.len());
        u64::lemma_round_trip(m.configuration_entry_position, s, at + a1.len());
        i32::lemma_round_trip(m.configuration_entry_term, s, at + a2.len());
        Vec::<Member>::lemma_round_trip(m.members, s, at + a3.len());
        String::lemma_round_trip(m.topic_name, s, at + a4.len());
    }

    fn is_encodable(&self) -> (r: bool) {
        self.members.is_encodable() && self.topic_name.is_encodable()
    }

    fn write(&self, out: &mut Vec<u8>) {
        self.partition_id.write(out);
        self.term.write(out);
        self.configuration_entry_position.write(out);
        self.configuration_entry_term.write(out);
        self.members.write(out);
        self.topic_name.write(out);
        assert(out@ =~= old(out)@ + Self::wire(self.deep_view()));
    }
}

impl BlockLength for ConfigurationRequest {
    open spec fn fixed_length() -> nat {
        u16::fixed_length()
            + u16::fixed_length()
            + u64::fixed_length()
            + i32::fixed_length()
            + Vec::<Member>::fixed_length()
            + String::fixed_length()
    }

    fn block_length() -> (n: u16) {
        u16::block_length()
            + u16::block_length()
            + u64::block_length()
            + i32::block_length()
            + Vec::<Member>::block_length()
            + String::block_length()
    }
}

impl Message for ConfigurationRequest {
    open spec fn spec_template_id() -> u16 {
        4
    }

    open spec fn spec_schema_id() -> u16 {
        4
    }

    open spec fn spec_version() -> u16 {
        1
    }

    fn template_id() -> (r: u16) {
        4
    }

    fn schema_id() -> (r: u16) {
        4
    }

    fn version() -> (r: u16) {
        1
    }
}

/// The answer to a configuration request.
#[derive(Debug, Clone, Copy, PartialEq, Eq, Structural, Default)]
pub struct ConfigurationResponse {
    pub term: u16,
}

impl DeepView for ConfigurationResponse {
    type V = ConfigurationResponse;

    open spec fn deep_view(&self) -> ConfigurationResponse {
        *self
    }
}

impl FromBytes for ConfigurationResponse {
    /// The fields in the order of their declaration.
    open spec fn parse(s: Seq<u8>, at: int) -> Result<(ConfigurationResponse, int), Failure> {
        match u16::parse(s, at) {
            Err(e) => Err(e),
            Ok((term, at)) => Ok((ConfigurationResponse { term }, at)),
        }
    }

    fn read_at(buf: &[u8], at: usize) -> (r: Result<(Self, usize), Stop>) {
        let (term, at) = u16::read_at(buf, at)?;
        Ok((ConfigurationResponse { term }, at))
    }
}

impl ToBytes for ConfigurationResponse {
    open spec fn wire(m: ConfigurationResponse) -> Seq<u8> {
        u16::wire(m.term)
    }

    open spec fn encodable(m: ConfigurationResponse) -> bool {
        true
    }

    proof fn lemma_round_trip(m: ConfigurationResponse, s: Seq<u8>, at: int) {
        u16::lemma_round_trip(m.term, s, at);
    }

    fn is_encodable(&self) -> (r: bool) {
        true
    }

    fn write(&self, out: &mut Vec<u8>) {
        self.term.write(out);
        assert(out@ =~= old(out)@ + Self::wire(self.deep_view()));
    }
}

impl BlockLength for ConfigurationResponse {
    open spec fn fixed_length() -> nat {
        u16::fixed_length()
    }

    fn block_length() -> (n: u16) {
        u16::block_length()
    }
}

impl Message for ConfigurationResponse {
    open spec fn spec_template_id() -> u16 {
        5
    }

    open spec fn spec_schema_id() -> u16 {
        4
    }

    open spec fn spec_version() -> u16 {
        1
    }

    fn template_id() -> (r: u16) {
        5
    }

    fn schema_id() -> (r: u16) {
        4
    }

    fn version() -> (r: u16) {
        1
    }
}

/// A candidate asks whether it would be voted for.
#[derive(Debug, PartialEq, Eq, Default)]
pub struct PollRequest {
    pub partition_id: u16,
    pub term: u16,
    pub last_entry_position: u64,
    pub last_entry_term: i32,
    pub port: u16,
    pub topic_name: String,
    pub host: String,
}

/// The model of `PollRequest`.
pub struct PollRequestView {
    pub partition_id: u16,
    pub term: u16,
    pub last_entry_position: u64,
    pub last_entry_term: i32,
    pub port: u16,
    pub topic_name: Seq<char>,
    pub host: Seq<char>,
}

impl DeepView for PollRequest {
    type V = PollRequestView;

    open spec fn deep_view(&self) -> PollRequestView {
        PollRequestView {
            partition_id: self.partition_id,
            term: self.term,
            last_entry_position: self.last_entry_position,
            last_entry_term: self.last_entry_term,
            port: self.port,
            topic_name: self.topic_name.deep_view(),
            host: self.host.deep_view(),
        }
    }
}

impl FromBytes for PollRequest {
    /// The fields in the order of their declaration.
    open spec fn parse(s: Seq<u8>, at: int) -> Result<(PollRequestView, int), Failure> {
        match u16::parse(s, at) {
            Err(e) => Err(e),
            Ok((partition_id, at)) => match u16::parse(s, at) {
                Err(e) => Err(e),
                Ok((term, at)) => match u64::parse(s, at) {
                    Err(e) => Err(e),
                    Ok((last_entry_position, at)) => match i32::parse(s, at) {
                        Err(e) => Err(e),
                        Ok((last_entry_term, at)) => match u16::parse(s, at) {
                            Err(e) => Err(e),
                            Ok((port, at)) => match String::parse(s, at) {
                                Err(e) => Err(e),
                                Ok((topic_name, at)) => match String::parse(s, at) {
                                    Err(e) => Err(e),
                                    Ok((host, at)) => Ok((
                                        PollRequestView {
                                            partition_id,
                                            term,
                                            last_entry_position,
                                            last_entry_term,
                                            port,
                                            topic_name,
                                            host,
                                        },
                                        at,
                                    )),
                                },
                            },
                        },
                    },
                },
            },
        }
    }

    fn read_at(buf: &[u8], at: usize) -> (r: Result<(Self, usize), Stop>) {
        let (partition_id, at) = u16::read_at(buf, at)?;
        let (term, at) = u16::read_at(buf, at)?;
        let (last_entry_position, at) = u64::read_at(buf, at)?;
        let (last_entry_term, at) = i32::read_at(buf, at)?;
        let (port, at) = u16::read_at(buf, at)?;
        let (topic_name, at) = String::read_at(buf, at)?;
        let (host, at) = String::read_at(buf, at)?;
        Ok((
            PollRequest {
                partition_id,
                term,
                last_entry_position,
                last_entry_term,
                port,
                topic_name,
                host,
            },
            at,
        ))
    }
}

impl ToBytes for PollRequest {
    open spec fn wire(m: PollRequestView) -> Seq<u8> {
        u16::wire(m.partition_id)
            + u16::wire(m.term)
            + u64::wire(m.last_entry_position)
            + i32::wire(m.last_entry_term)
            + u16::wire(m.port)
            + String::wire(m.topic_name)
            + String::wire(m.host)
    }

    open spec fn encodable(m: PollRequestView) -> bool {
        String::encodable(m.topic_name) && String::encodable(m.host)
    }

    proof fn lemma_round_trip(m: PollRequestView, s: Seq<u8>, at: int) {
        let w0 = u16::wire(m.partition_id);
        let w1 = u16::wire(m.term);
        let w2 = u64::wire(m.last_entry_position);
        let w3 = i32::wire(m.last_entry_term);
        let w4 = u16::wire(m.port);
        let w5 = String::wire(m.topic_name);
        let w6 = String::wire(m.host);
        let a0 = w0;
        let a1 = a0 + w1;
        let a2 = a1 + w2;
        let a3 = a2 + w3;
        let a4 = a3 + w4;
        let a5 = a4 + w5;
        let b5 = w6;
        let b4 = w5 + b5;
        let b3 = w4 + b4;
        let b2 = w3 + b3;
        let b1 = w2 + b2;
        let b0 = w1 + b1;
        lemma_last_stands(s, at, a5, w6);
        lemma_part_stands(s, at, a4, w5, b5);
        lemma_concat_assoc(a4, w5, b5);
        lemma_part_stands(s, at, a3, w4, b4);
        lemma_concat_assoc(a3, w4, b4);
        lemma_part_stands(s, at, a2, w3, b3);
        lemma_concat_assoc(a2, w3, b3);
        lemma_part_stands(s, at, a1, w2, b2);
        lemma_concat_assoc(a1, w2, b2);
        lemma_part_stands(s, at, a0, w1, b1);
        lemma_concat_assoc(a0, w1, b1);
        lemma_first_stands(s, at, w0, b0);
        u16::lemma_round_trip(m.partition_id, s, at);
        u16::lemma_round_trip(m.term, s, at + a0.len());
        u64::lemma_round_trip(m.last_entry_position, s, at + a1.len());
        i32::lemma_round_trip(m.last_entry_term, s, at + a2.len());
        u16::lemma_round_trip(m.port, s, at + a3.len());
        String::lemma_round_trip(m.topic_name, s, at + a4.len());
        String::lemma_round_trip(m.host, s, at + a5.len());
    }

    fn is_encodable(&self) -> (r: bool) {
        self.topic_name.is_encodable() && self.host.is_encodable()
    }

    fn write(&self, out: &mut Vec<u8>) {
        self.partition_id.write(out);
        self.term.write(out);
        self.last_entry_position.write(out);
        self.last_entry_term.write(out);
        self.port.write(out);
        self.topic_name.write(out);
        self.host.write(out);
        assert(out@ =~= old(out)@ + Self::wire(self.deep_view()));
    }
}

impl BlockLength for PollRequest {
    open spec fn fixed_length() -> nat {
        u16::fixed_length()
            + u16::fixed_length()
            + u64::fixed_length()
            + i32::fixed_length()
            + u16::fixed_length()
            + String::fixed_length()
            + String::fixed_length()
    }

    fn block_length() -> (n: u16) {
        u16::block_length()
            + u16::block_length()
            + u64::block_length()
            + i32::block_length()
            + u16::block_length()
            + String::block_length()
            + String::block_length()
    }
}

impl Message for PollRequest {
    open spec fn spec_template_id() -> u16 {
        6
    }

    open spec fn spec_schema_id() -> u16 {
        4
    }

    open spec fn spec_version() -> u16 {
        1
    }

    fn template_id() -> (r: u16) {
        6
    }

    fn schema_id() -> (r: u16) {
        4
    }

    fn version() -> (r: u16) {
        1
    }
}

/// The answer to a poll request.
#[derive(Debug, Clone, Copy, PartialEq, Eq, Structural, Default)]
pub struct PollResponse {
    pub term: u16,
    pub granted: bool,
}

impl DeepView for PollResponse {
    type V = PollResponse;

    open spec fn deep_view(&self) -> PollResponse {
        *self
    }
}

impl FromBytes for PollResponse {
    /// The fields in the order of their declaration.
    open spec fn parse(s: Seq<u8>, at: int) -> Result<(PollResponse, int), Failure> {
        match u16::parse(s, at) {
            Err(e) => Err(e),
            Ok((term, at)) => match bool::parse(s, at) {
                Err(e) => Err(e),
                Ok((granted, at)) => Ok((PollResponse { term, granted }, at)),
            },
        }
    }

    fn read_at(buf: &[u8], at: usize) -> (r: Result<(Self, usize), Stop>) {
        let (term, at) = u16::read_at(buf, at)?;
        let (granted, at) = bool::read_at(buf, at)?;
        Ok((PollResponse { term, granted }, at))
    }
}

impl ToBytes for PollResponse {
    open spec fn wire(m: PollResponse) -> Seq<u8> {
        u16::wire(m.term)
            + bool::wire(m.granted)
    }

    open spec fn encodable(m: PollResponse) -> bool {
        true
    }

    proof fn lemma_round_trip(m: PollResponse, s: Seq<u8>, at: int) {
        let w0 = u16::wire(m.term);
        let w1 = bool::wire(m.granted);
        let a0 = w0;
        let b0 = w1;
        lemma_last_stands(s, at, a0, w1);
        lemma_first_stands(s, at, w0, b0);
        u16::lemma_round_trip(m.term, s, at);
        bool::lemma_round_trip(m.granted, s, at + a0.len());
    }

    fn is_encodable(&self) -> (r: bool) {
        true
    }

    fn write(&self, out: &mut Vec<u8>) {
        self.term.write(out);
        self.granted.write(out);
        assert(out@ =~= old(out)@ + Self::wire(self.deep_view()));
    }
}

impl BlockLength for PollResponse {
    open spec fn fixed_length() -> nat {
        u16::fixed_length()
            + bool::fixed_length()
    }

    fn block_length() -> (n: u16) {
        u16::block_length()
            + bool::block_length()
    }
}

impl Message for PollResponse {
    open spec fn spec_template_id() -> u16 {
        7
    }

    open spec fn spec_schema_id() -> u16 {
        4
    }

    open spec fn spec_version() -> u16 {
        1
    }

    fn template_id() -> (r: u16) {
        7
    }

    fn schema_id() -> (r: u16) {
        4
    }

    fn version() -> (r: u16) {
        1
    }
}

/// A candidate asks for a vote.
#[derive(Debug, PartialEq, Eq, Default)]
pub struct VoteRequest {
    pub partition_id: u16,
    pub term: u16,
    pub last_entry_position: u64,
    pub last_entry_term: i32,
    pub port: u16,
    pub topic_name: String,
    pub host: String,
}

/// The model of `VoteRequest`.
pub struct VoteRequestView {
    pub partition_id: u16,
    pub term: u16,
    pub last_entry_position: u64,
    pub last_entry_term: i32,
    pub port: u16,
    pub topic_name: Seq<char>,
    pub host: Seq<char>,
}

impl DeepView for VoteRequest {
    type V = VoteRequestView;

    open spec fn deep_view(&self) -> VoteRequestView {
        VoteRequestView {
            partition_id: self.partition_id,
            term: self.term,
            last_entry_position: self.last_entry_position,
            last_entry_term: self.last_entry_term,
            port: self.port,
            topic_name: self.topic_name.deep_view(),
            host: self.host.deep_view(),
        }
    }
}

impl FromBytes for VoteRequest {
    /// The fields in the order of their declaration.
    open spec fn parse(s: Seq<u8>, at: int) -> Result<(VoteRequestView, int), Failure> {
        match u16::parse(s, at) {
            Err(e) => Err(e),
            Ok((partition_id, at)) => match u16::parse(s, at) {
                Err(e) => Err(e),
                Ok((term, at)) => match u64::parse(s, at) {
                    Err(e) => Err(e),
                    Ok((last_entry_position, at)) => match i32::parse(s, at) {
                        Err(e) => Err(e),
                        Ok((last_entry_term, at)) => match u16::parse(s, at) {
                            Err(e) => Err(e),
                            Ok((port, at)) => match String::parse(s, at) {
                                Err(e) => Err(e),
                                Ok((topic_name, at)) => match String::parse(s, at) {
                                    Err(e) => Err(e),
                                    Ok((host, at)) => Ok((
                                        VoteRequestView {
                                            partition_id,
                                            term,
                                            last_entry_position,
                                            last_entry_term,
                                            port,
                                            topic_name,
                                            host,
                                        },
                                        at,
                                    )),
                                },
                            },
                        },
                    },
                },
            },
        }
    }

    fn read_at(buf: &[u8], at: usize) -> (r: Result<(Self, usize), Stop>) {
        let (partition_id, at) = u16::read_at(buf, at)?;
        let (term, at) = u16::read_at(buf, at)?;
        let (last_entry_position, at) = u64::read_at(buf, at)?;
        let (last_entry_term, at) = i32::read_at(buf, at)?;
        let (port, at) = u16::read_at(buf, at)?;
        let (topic_name, at) = String::read_at(buf, at)?;
        let (host, at) = String::read_at(buf, at)?;
        Ok((
            VoteRequest {
                partition_id,
                term,
                last_entry_position,
                last_entry_term,
                port,
                topic_name,
                host,
            },
            at,
        ))
    }
}

impl ToBytes for VoteRequest {
    open spec fn wire(m: VoteRequestView) -> Seq<u8> {
        u16::wire(m.partition_id)
            + u16::wire(m.term)
            + u64::wire(m.last_entry_position)
            + i32::wire(m.last_entry_term)
            + u16::wire(m.port)
            + String::wire(m.topic_name)
            + String::wire(m.host)
    }

    open spec fn encodable(m: VoteRequestView) -> bool {
        String::encodable(m.topic_name) && String::encodable(m.host)
    }

    proof fn lemma_round_trip(m: VoteRequestView, s: Seq<u8>, at: int) {
        let w0 = u16::wire(m.partition_id);
        let w1 = u16::wire(m.term);
        let w2 = u64::wire(m.last_entry_position);
        let w3 = i32::wire(m.last_entry_term);
        let w4 = u16::wire(m.port);
        let w5 = String::wire(m.topic_name);
        let w6 = String::wire(m.host);
        let a0 = w0;
        let a1 = a0 + w1;
        let a2 = a1 + w2;
        let a3 = a2 + w3;
        let a4 = a3 + w4;
        let a5 = a4 + w5;
        let b5 = w6;
        let b4 = w5 + b5;
        let b3 = w4 + b4;
        let b2 = w3 + b3;
        let b1 = w2 + b2;
        let b0 = w1 + b1;
        lemma_last_stands(s, at, a5, w6);
        lemma_part_stands(s, at, a4, w5, b5);
        lemma_concat_assoc(a4, w5, b5);
        lemma_part_stands(s, at, a3, w4, b4);
        lemma_concat_assoc(a3, w4, b4);
        lemma_part_stands(s, at, a2, w3, b3);
        lemma_concat_assoc(a2, w3, b3);
        lemma_part_stands(s, at, a1, w2, b2);
        lemma_concat_assoc(a1, w2, b2);
        lemma_part_stands(s, at, a0, w1, b1);
        lemma_concat_assoc(a0, w1, b1);
        lemma_first_stands(s, at, w0, b0);
        u16::lemma_round_trip(m.partition_id, s, at);
        u16::lemma_round_trip(m.term, s, at + a0.len());
        u64::lemma_round_trip(m.last_entry_position, s, at + a1.len());
        i32::lemma_round_trip(m.last_entry_term, s, at + a2.len());
        u16::lemma_round_trip(m.port, s, at + a3.len());
        String::lemma_round_trip(m.topic_name, s, at + a4.len());
        String::lemma_round_trip(m.host, s, at + a5.len());
    }

    fn is_encodable(&self) -> (r: bool) {
        self.topic_name.is_encodable() && self.host.is_encodable()
    }

    fn write(&self, out: &mut Vec<u8>) {
        self.partition_id.write(out);
        self.term.write(out);
        self.last_entry_position.write(out);
        self.last_entry_term.write(out);
        self.port.write(out);
        self.topic_name.write(out);
        self.host.write(out);
        assert(out@ =~= old(out)@ + Self::wire(self.deep_view()));
    }
}

impl BlockLength for VoteRequest {
    open spec fn fixed_length() -> nat {
        u16::fixed_length()
            + u16::fixed_length()
            + u64::fixed_length()
            + i32::fixed_length()
            + u16::fixed_length()
            + String::fixed_length()
            + String::fixed_length()
    }

    fn block_length() -> (n: u16) {
        u16::block_length()
            + u16::block_length()
            + u64::block_length()
            + i32::block_length()
            + u16::block_length()
            + String::block_length()
            + String::block_length()
    }
}

impl Message for VoteRequest {
    open spec fn spec_template_id() -> u16 {
        8
    }

    open spec fn spec_schema_id() -> u16 {
        4
    }

    open spec fn spec_version() -> u16 {
        1
    }

    fn template_id() -> (r: u16) {
        8
    }

    fn schema_id() -> (r: u16) {
        4
    }

    fn version() -> (r: u16) {
        1
    }
}

/// The answer to a vote request.
#[derive(Debug, Clone, Copy, PartialEq, Eq, Structural, Default)]
pub struct VoteResponse {
    pub term: u16,
    pub granted: bool,
}

impl DeepView for VoteResponse {
    type V = VoteResponse;

    open spec fn deep_view(&self) -> VoteResponse {
        *self
    }
}

impl FromBytes for VoteResponse {
    /// The fields in the order of their declaration.
    open spec fn parse(s: Seq<u8>, at: int) -> Result<(VoteResponse, int), Failure> {
        match u16::parse(s, at) {
            Err(e) => Err(e),
            Ok((term, at)) => match bool::parse(s, at) {
                Err(e) => Err(e),
                Ok((granted, at)) => Ok((VoteResponse { term, granted }, at)),
            },
        }
    }

    fn read_at(buf: &[u8], at: usize) -> (r: Result<(Self, usize), Stop>) {
        let (term, at) = u16::read_at(buf, at)?;
        let (granted, at) = bool::read_at(buf, at)?;
        Ok((VoteResponse { term, granted }, at))
    }
}

impl ToBytes for VoteResponse {
    open spec fn wire(m: VoteResponse) -> Seq<u8> {
        u16::wire(m.term)
            + bool::wire(m.granted)
    }

    open spec fn encodable(m: VoteResponse) -> bool {
        true
    }

    proof fn lemma_round_trip(m: VoteResponse, s: Seq<u8>, at: int) {
        let w0 = u16::wire(m.term);
        let w1 = bool::wire(m.granted);
        let a0 = w0;
        let b0 = w1;
        lemma_last_stands(s, at, a0, w1);
        lemma_first_stands(s, at, w0, b0);
        u16::lemma_round_trip(m.term, s, at);
        bool::lemma_round_trip(m.granted, s, at + a0.len());
    }

    fn is_encodable(&self) -> (r: bool) {
        true
    }

    fn write(&self, out: &mut Vec<u8>) {
        self.term.write(out);
        self.granted.write(out);
        assert(out@ =~= old(out)@ + Self::wire(self.deep_view()));
    }
}

impl BlockLength for VoteResponse {
    open spec fn fixed_length() -> nat {
        u16::fixed_length()
            + bool::fixed_length()
    }

    fn block_length() -> (n: u16) {
        u16::block_length()
            + bool::block_length()
    }
}

impl Message for VoteResponse {
    open spec fn spec_template_id() -> u16 {
        9
    }

    open spec fn spec_schema_id() -> u16 {
        4
    }

    open spec fn spec_version() -> u16 {
        1
    }

    fn template_id() -> (r: u16) {
        9
    }

    fn schema_id() -> (r: u16) {
        4
    }

    fn version() -> (r: u16) {
        1
    }
}

/// The leader sends log entries to a follower.
#[derive(Debug, PartialEq, Eq, Default)]
pub struct AppendRequest {
    pub partition_id: u16,
    pub term: u16,
    pub previous_entry_position: u64,
    pub previous_entry_term: i32,
    pub commit_position: u64,
    pub port: u16,
    pub topic_name: String,
    pub host: String,
    pub data: Data,
}

/// The model of `AppendRequest`.
pub struct AppendRequestView {
    pub partition_id: u16,
    pub term: u16,
    pub previous_entry_position: u64,
    pub previous_entry_term: i32,
    pub commit_position: u64,
    pub port: u16,
    pub topic_name: Seq<char>,
    pub host: Seq<char>,
    pub data: Seq<u8>,
}

impl DeepView for AppendRequest {
    type V = AppendRequestView;

    open spec fn deep_view(&self) -> AppendRequestView {
        AppendRequestView {
            partition_id: self.partition_id,
            term: self.term,
            previous_entry_position: self.previous_entry_position,
            previous_entry_term: self.previous_entry_term,
            commit_position: self.commit_position,
            port: self.port,
            topic_name: self.topic_name.deep_view(),
            host: self.host.deep_view(),
            data: self.data.deep_view(),
        }
    }
}

impl FromBytes for AppendRequest {
    /// The fields in the order of their declaration.
    open spec fn parse(s: Seq<u8>, at: int) -> Result<(AppendRequestView, int), Failure> {
        match u16::parse(s, at) {
            Err(e) => Err(e),
            Ok((partition_id, at)) => match u16::parse(s, at) {
                Err(e) => Err(e),
                Ok((term, at)) => match u64::parse(s, at) {
                    Err(e) => Err(e),
                    Ok((previous_entry_position, at)) => match i32::parse(s, at) {
                        Err(e) => Err(e),
                        Ok((previous_entry_term, at)) => match u64::parse(s, at) {
                            Err(e) => Err(e),
                            Ok((commit_position, at)) => match u16::parse(s, at) {
                                Err(e) => Err(e),
                                Ok((port, at)) => match String::parse(s, at) {
                                    Err(e) => Err(e),
                                    Ok((topic_name, at)) => match String::parse(s, at) {
                                        Err(e) => Err(e),
                                        Ok((host, at)) => match Data::parse(s, at) {
                                            Err(e) => Err(e),
                                            Ok((data, at)) => Ok((
                                                AppendRequestView {
                                                    partition_id,
                                                    term,
                                                    previous_entry_position,
                                                    previous_entry_term,
                                                    commit_position,
                                                    port,
                                                    topic_name,
                                                    host,
                                                    data,
                                                },
                                                at,
                                            )),
                                        },
                                    },
                                },
                            },
                        },
                    },
                },
            },
        }
    }

    fn read_at(buf: &[u8], at: usize) -> (r: Result<(Self, usize), Stop>) {
        let (partition_id, at) = u16::read_at(buf, at)?;
        let (term, at) = u16::read_at(buf, at)?;
        let (previous_entry_position, at) = u64::read_at(buf, at)?;
        let (previous_entry_term, at) = i32::read_at(buf, at)?;
        let (commit_position, at) = u64::read_at(buf, at)?;
        let (port, at) = u16::read_at(buf, at)?;
        let (topic_name, at) = String::read_at(buf, at)?;
        let (host, at) = String::read_at(buf, at)?;
        let (data, at) = Data::read_at(buf, at)?;
        Ok((
            AppendRequest {
                partition_id,
                term,
                previous_entry_position,
                previous_entry_term,
                commit_position,
                port,
                topic_name,
                host,
                data,
            },
            at,
        ))
    }
}

impl ToBytes for AppendRequest {
    open spec fn wire(m: AppendRequestView) -> Seq<u8> {
        u16::wire(m.partition_id)
            + u16::wire(m.term)
            + u64::wire(m.previous_entry_position)
            + i32::wire(m.previous_entry_term)
            + u64::wire(m.commit_position)
            + u16::wire(m.port)
            + String::wire(m.topic_name)
            + String::wire(m.host)
            + Data::wire(m.data)
    }

    open spec fn encodable(m: AppendRequestView) -> bool {
        String::encodable(m.topic_name) && String::encodable(m.host) && Data::encodable(m.data)
    }

    proof fn lemma_round_trip(m: AppendRequestView, s: Seq<u8>, at: int) {
        let w0 = u16::wire(m.partition_id);
        let w1 = u16::wire(m.term);
        let w2 = u64::wire(m.previous_entry_position);
        let w3 = i32::wire(m.previous_entry_term);
        let w4 = u64::wire(m.commit_position);
        let w5 = u16::wire(m.port);
        let w6 = String::wire(m.topic_name);
        let w7 = String::wire(m.host);
        let w8 = Data::wire(m.data);
        let a0 = w0;
        let a1 = a0 + w1;
        let a2 = a1 + w2;
        let a3 = a2 + w3;
        let a4 = a3 + w4;
        let a5 = a4 + w5;
        let a6 = a5 + w6;
        let a7 = a6 + w7;
        let b7 = w8;
        let b6 = w7 + b7;
        let b5 = w6 + b6;
        let b4 = w5 + b5;
        let b3 = w4 + b4;
        let b2 = w3 + b3;
        let b1 = w2 + b2;
        let b0 = w1 + b1;
        lemma_last_stands(s, at, a7, w8);
        lemma_part_stands(s, at, a6, w7, b7);
        lemma_concat_assoc(a6, w7, b7);
        lemma_part_stands(s, at, a5, w6, b6);
        lemma_concat_assoc(a5, w6, b6);
        lemma_part_stands(s, at, a4, w5, b5);
        lemma_concat_assoc(a4, w5, b5);
        lemma_part_stands(s, at, a3, w4, b4);
        lemma_concat_assoc(a3, w4, b4);
        lemma_part_stands(s, at, a2, w3, b3);
        lemma_concat_assoc(a2, w3, b3);
        lemma_part_stands(s, at, a1, w2, b2);
        lemma_concat_assoc(a1, w2, b2);
        lemma_part_stands(s, at, a0, w1, b1);
        lemma_concat_assoc(a0, w1, b1);
        lemma_first_stands(s, at, w0, b0);
        u16::lemma_round_trip(m.partition_id, s, at);
        u16::lemma_round_trip(m.term, s, at + a0.len());
        u64::lemma_round_trip(m.previous_entry_position, s, at + a1.len());
        i32::lemma_round_trip(m.previous_entry_term, s, at + a2.len());
        u64::lemma_round_trip(m.commit_position, s, at + a3.len());
        u16::lemma_round_trip(m.port, s, at + a4.len());
        String::lemma_round_trip(m.topic_name, s, at + a5.len());
        String::lemma_round_trip(m.host, s, at + a6.len());
        Data::lemma_round_trip(m.data, s, at + a7.len());
    }

    fn is_encodable(&self) -> (r: bool) {
        self.topic_name.is_encodable() && self.host.is_encodable() && self.data.is_encodable()
    }

    fn write(&self, out: &mut Vec<u8>) {
        self.partition_id.write(out);
        self.term.write(out);
        self.previous_entry_position.write(out);
        self.previous_entry_term.write(out);
        self.commit_position.write(out);
        self.port.write(out);
        self.topic_name.write(out);
        self.host.write(out);
        self.data.write(out);
        assert(out@ =~= old(out)@ + Self::wire(self.deep_view()));
    }
}

impl BlockLength for AppendRequest {
    open spec fn fixed_length() -> nat {
        u16::fixed_length()
            + u16::fixed_length()
            + u64::fixed_length()
            + i32::fixed_length()
            + u64::fixed_length()
            + u16::fixed_length()
            + String::fixed_length()
            + String::fixed_length()
            + Data::fixed_length()
    }

    fn block_length() -> (n: u16) {
        u16::block_length()
            + u16::block_length()
            + u64::block_length()
            + i32::block_length()
            + u64::block_length()
            + u16::block_length()
            + String::block_length()
            + String::block_length()
            + Data::block_length()
    }
}

impl Message for AppendRequest {
    open spec fn spec_template_id() -> u16 {
        10
    }

    open spec fn spec_schema_id() -> u16 {
        4
    }

    open spec fn spec_version() -> u16 {
        1
    }

    fn template_id() -> (r: u16) {
        10
    }

    fn schema_id() -> (r: u16) {
        4
    }

    fn version() -> (r: u16) {
        1
    }
}

/// The answer to an append request.
#[derive(Debug, PartialEq, Eq, Default)]
pub struct AppendResponse {
    pub partition_id: u16,
    pub term: u16,
    pub succeeded: bool,
    pub entry_position: u64,
    pub port: u16,
    pub topic_name: String,
    pub host: String,
}

/// The model of `AppendResponse`.
pub struct AppendResponseView {
    pub partition_id: u16,
    pub term: u16,
    pub succeeded: bool,
    pub entry_position: u64,
    pub port: u16,
    pub topic_name: Seq<char>,
    pub host: Seq<char>,
}

impl DeepView for AppendResponse {
    type V = AppendResponseView;

    open spec fn deep_view(&self) -> AppendResponseView {
        AppendResponseView {
            partition_id: self.partition_id,
            term: self.term,
            succeeded: self.succeeded,
            entry_position: self.entry_position,
            port: self.port,
            topic_name: self.topic_name.deep_view(),
            host: self.host.deep_view(),
        }
    }
}

impl FromBytes for AppendResponse {
    /// The fields in the order of their declaration.
    open spec fn parse(s: Seq<u8>, at: int) -> Result<(AppendResponseView, int), Failure> {
        match u16::parse(s, at) {
            Err(e) => Err(e),
            Ok((partition_id, at)) => match u16::parse(s, at) {
                Err(e) => Err(e),
                Ok((term, at)) => match bool::parse(s, at) {
                    Err(e) => Err(e),
                    Ok((succeeded, at)) => match u64::parse(s, at) {
                        Err(e) => Err(e),
                        Ok((entry_position, at)) => match u16::parse(s, at) {
                            Err(e) => Err(e),
                            Ok((port, at)) => match String::parse(s, at) {
                                Err(e) => Err(e),
                                Ok((topic_name, at)) => match String::parse(s, at) {
                                    Err(e) => Err(e),
                                    Ok((host, at)) => Ok((
                                        AppendResponseView {
                                            partition_id,
                                            term,
                                            succeeded,
                                            entry_position,
                                            port,
                                            topic_name,
                                            host,
                                        },
                                        at,
                                    )),
                                },
                            },
                        },
                    },
                },
            },
        }
    }

    fn read_at(buf: &[u8], at: usize) -> (r: Result<(Self, usize), Stop>) {
        let (partition_id, at) = u16::read_at(buf, at)?;
        let (term, at) = u16::read_at(buf, at)?;
        let (succeeded, at) = bool::read_at(buf, at)?;
        let (entry_position, at) = u64::read_at(buf, at)?;
        let (port, at) = u16::read_at(buf, at)?;
        let (topic_name, at) = String::read_at(buf, at)?;
        let (host, at) = String::read_at(buf, at)?;
        Ok((
            AppendResponse {
                partition_id,
                term,
                succeeded,
                entry_position,
                port,
                topic_name,
                host,
            },
            at,
        ))
    }
}

impl ToBytes for AppendResponse {
    open spec fn wire(m: AppendResponseView) -> Seq<u8> {
        u16::wire(m.partition_id)
            + u16::wire(m.term)
            + bool::wire(m.succeeded)
            + u64::wire(m.entry_position)
            + u16::wire(m.port)
            + String::wire(m.topic_name)
            + String::wire(m.host)
    }

    open spec fn encodable(m: AppendResponseView) -> bool {
        String::encodable(m.topic_name) && String::encodable(m.host)
    }

    proof fn lemma_round_trip(m: AppendResponseView, s: Seq<u8>, at: int) {
        let w0 = u16::wire(m.partition_id);
        let w1 = u16::wire(m.term);
        let w2 = bool::wire(m.succeeded);
        let w3 = u64::wire(m.entry_position);
        let w4 = u16::wire(m.port);
        let w5 = String::wire(m.topic_name);
        let w6 = String::wire(m.host);
        let a0 = w0;
        let a1 = a0 + w1;
        let a2 = a1 + w2;
        let a3 = a2 + w3;
        let a4 = a3 + w4;
        let a5 = a4 + w5;
        let b5 = w6;
        let b4 = w5 + b5;
        let b3 = w4 + b4;
        let b2 = w3 + b3;
        let b1 = w2 + b2;
        let b0 = w1 + b1;
        lemma_last_stands(s, at, a5, w6);
        lemma_part_stands(s, at, a4, w5, b5);
        lemma_concat_assoc(a4, w5, b5);
        lemma_part_stands(s, at, a3, w4, b4);
        lemma_concat_assoc(a3, w4, b4);
        lemma_part_stands(s, at, a2, w3, b3);
        lemma_concat_assoc(a2, w3, b3);
        lemma_part_stands(s, at, a1, w2, b2);
        lemma_concat_assoc(a1, w2, b2);
        lemma_part_stands(s, at, a0, w1, b1);
        lemma_concat_assoc(a0, w1, b1);
        lemma_first_stands(s, at, w0, b0);
        u16::lemma_round_trip(m.partition_id, s, at);
        u16::lemma_round_trip(m.term, s, at + a0.len());
        bool::lemma_round_trip(m.succeeded, s, at + a1.len());
        u64::lemma_round_trip(m.entry_position, s, at + a2.len());
        u16::lemma_round_trip(m.port, s, at + a3.len());
        String::lemma_round_trip(m.topic_name, s, at + a4.len());
        String::lemma_round_trip(m.host, s, at + a5.len());
    }

    fn is_encodable(&self) -> (r: bool) {
        self.topic_name.is_encodable() && self.host.is_encodable()
    }

    fn write(&self, out: &mut Vec<u8>) {
        self.partition_id.write(out);
        self.term.write(out);
        self.succeeded.write(out);
        self.entry_position.write(out);
        self.port.write(out);
        self.topic_name.write(out);
        self.host.write(out);
        assert(out@ =~= old(out)@ + Self::wire(self.deep_view()));
    }
}

impl BlockLength for AppendResponse {
    open spec fn fixed_length() -> nat {
        u16::fixed_length()
            + u16::fixed_length()
            + bool::fixed_length()
            + u64::fixed_length()
            + u16::fixed_length()
            + String::fixed_length()
            + String::fixed_length()
    }

    fn block_length() -> (n: u16) {
        u16::block_length()
            + u16::block_length()
            + bool::block_length()
            + u64::block_length()
            + u16::block_length()
            + String::block_length()
            + String::block_length()
    }
}

impl Message for AppendResponse {
    open spec fn spec_template_id() -> u16 {
        11
    }

    open spec fn spec_schema_id() -> u16 {
        4
    }

    open spec fn spec_version() -> u16 {
        1
    }

    fn template_id() -> (r: u16) {
        11
    }

    fn schema_id() -> (r: u16) {
        4
    }

    fn version() -> (r: u16) {
        1
    }
}

} // verus!
