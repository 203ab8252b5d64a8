//! The registry of message types: a message of any type, found by its header.

use crate::convert::{
    lemma_first_stands, lemma_last_stands, lemma_round_trip_as, parse_as, read_as, stands_at, Data,
    FromBytes, ToBytes, ToMessageHeader,
};
use crate::errors::{DecodeError, Failure, Stop};
use crate::protocol::client::{
    BrokerEventMetadata, ControlMessageRequest, ControlMessageRequestView, ControlMessageResponse,
    ControlMessageResponseView, ErrorResponse, ErrorResponseView, ExecuteCommandRequest,
    ExecuteCommandRequestView, ExecuteCommandResponse, ExecuteCommandResponseView,
    SubscribedEvent, SubscribedEventView,
};
use crate::protocol::management::{InvitationRequest, InvitationRequestView, InvitationResponse};
use crate::protocol::raft::{
    AppendRequest, AppendRequestView, AppendResponse, AppendResponseView, ConfigurationRequest,
    ConfigurationRequestView, ConfigurationResponse, JoinRequest, JoinRequestView, JoinResponse,
    JoinResponseView, LeaveRequest, LeaveRequestView, LeaveResponse, LeaveResponseView,
    PollRequest, PollRequestView, PollResponse, VoteRequest, VoteRequestView, VoteResponse,
};
use crate::protocol::gossip::{
    Gossip, GossipView, PeerDescriptor, PeerDescriptorView, Probe, ProbeView,
};
use crate::protocol::transport::MessageHeader;
use vstd::prelude::*;

verus! {

/// The error for a header that is the header of no message type.
pub open spec fn unknown_message(header: MessageHeader) -> DecodeError {
    DecodeError::UnknownMessage {
        block_length: header.block_length,
        template_id: header.template_id,
        schema_id: header.schema_id,
        version: header.version,
    }
}

/// A message of any type of the catalog.
#[derive(Debug, PartialEq, Eq)]
pub enum MessageBody {
    ErrorResponse(ErrorResponse),
    ControlMessageRequest(ControlMessageRequest),
    ControlMessageResponse(ControlMessageResponse),
    ExecuteCommandRequest(ExecuteCommandRequest),
    ExecuteCommandResponse(ExecuteCommandResponse),
    SubscribedEvent(SubscribedEvent),
    BrokerEventMetadata(BrokerEventMetadata),
    InvitationRequest(InvitationRequest),
    InvitationResponse(InvitationResponse),
    JoinRequest(JoinRequest),
    JoinResponse(JoinResponse),
    LeaveRequest(LeaveRequest),
    LeaveResponse(LeaveResponse),
    ConfigurationRequest(ConfigurationRequest),
    ConfigurationResponse(ConfigurationResponse),
    PollRequest(PollRequest),
    PollResponse(PollResponse),
    VoteRequest(VoteRequest),
    VoteResponse(VoteResponse),
    AppendRequest(AppendRequest),
    AppendResponse(AppendResponse),
    Gossip(Gossip),
    Probe(Probe),
    PeerDescriptor(PeerDescriptor),
}

/// The model of `MessageBody`.
pub enum MessageBodyView {
    ErrorResponse(ErrorResponseView),
    ControlMessageRequest(ControlMessageRequestView),
    ControlMessageResponse(ControlMessageResponseView),
    ExecuteCommandRequest(ExecuteCommandRequestView),
    ExecuteCommandResponse(ExecuteCommandResponseView),
    SubscribedEvent(SubscribedEventView),
    BrokerEventMetadata(BrokerEventMetadata),
    InvitationRequest(InvitationRequestView),
    InvitationResponse(InvitationResponse),
    JoinRequest(JoinRequestView),
    JoinResponse(JoinResponseView),
    LeaveRequest(LeaveRequestView),
    LeaveResponse(LeaveResponseView),
    ConfigurationRequest(ConfigurationRequestView),
    ConfigurationResponse(ConfigurationResponse),
    PollRequest(PollRequestView),
    PollResponse(PollResponse),
    VoteRequest(VoteRequestView),
    VoteResponse(VoteResponse),
    AppendRequest(AppendRequestView),
    AppendResponse(AppendResponseView),
    Gossip(GossipView),
    Probe(ProbeView),
    PeerDescriptor(PeerDescriptorView),
}

impl DeepView for MessageBody {
    type V = MessageBodyView;

    open spec fn deep_view(&self) -> MessageBodyView {
        match self {
            MessageBody::ErrorResponse(m) => MessageBodyView::ErrorResponse(m.deep_view()),
            MessageBody::ControlMessageRequest(m) => MessageBodyView::ControlMessageRequest(m.deep_view()),
            MessageBody::ControlMessageResponse(m) => MessageBodyView::ControlMessageResponse(m.deep_view()),
            MessageBody::ExecuteCommandRequest(m) => MessageBodyView::ExecuteCommandRequest(m.deep_view()),
            MessageBody::ExecuteCommandResponse(m) => MessageBodyView::ExecuteCommandResponse(m.deep_view()),
            MessageBody::SubscribedEvent(m) => MessageBodyView::SubscribedEvent(m.deep_view()),
            MessageBody::BrokerEventMetadata(m) => MessageBodyView::BrokerEventMetadata(m.deep_view()),
            MessageBody::InvitationRequest(m) => MessageBodyView::InvitationRequest(m.deep_view()),
            MessageBody::InvitationResponse(m) => MessageBodyView::InvitationResponse(m.deep_view()),
            MessageBody::JoinRequest(m) => MessageBodyView::JoinRequest(m.deep_view()),
            MessageBody::JoinResponse(m) => MessageBodyView::JoinResponse(m.deep_view()),
            MessageBody::LeaveRequest(m) => MessageBodyView::LeaveRequest(m.deep_view()),
            MessageBody::LeaveResponse(m) => MessageBodyView::LeaveResponse(m.deep_view()),
            MessageBody::ConfigurationRequest(m) => MessageBodyView::ConfigurationRequest(m.deep_view()),
            MessageBody::ConfigurationResponse(m) => MessageBodyView::ConfigurationResponse(m.deep_view()),
            MessageBody::PollRequest(m) => MessageBodyView::PollRequest(m.deep_view()),
            MessageBody::PollResponse(m) => MessageBodyView::PollResponse(m.deep_view()),
            MessageBody::VoteRequest(m) => MessageBodyView::VoteRequest(m.deep_view()),
            MessageBody::VoteResponse(m) => MessageBodyView::VoteResponse(m.deep_view()),
            MessageBody::AppendRequest(m) => MessageBodyView::AppendRequest(m.deep_view()),
            MessageBody::AppendResponse(m) => MessageBodyView::AppendResponse(m.deep_view()),
            MessageBody::Gossip(m) => MessageBodyView::Gossip(m.deep_view()),
            MessageBody::Probe(m) => MessageBodyView::Probe(m.deep_view()),
            MessageBody::PeerDescriptor(m) => MessageBodyView::PeerDescriptor(m.deep_view()),
        }
    }
}

impl MessageBody {
    /// The header of the type of a message. The definition is kept folded; a
    /// proof that needs it reveals it.
    #[verifier::opaque]
    pub open spec fn header_of(m: MessageBodyView) -> MessageHeader {
        match m {
            MessageBodyView::ErrorResponse(_) => ErrorResponse::spec_message_header(),
            MessageBodyView::ControlMessageRequest(_) => ControlMessageRequest::spec_message_header(),
            MessageBodyView::ControlMessageResponse(_) => ControlMessageResponse::spec_message_header(),
            MessageBodyView::ExecuteCommandRequest(_) => ExecuteCommandRequest::spec_message_header(),
            MessageBodyView::ExecuteCommandResponse(_) => ExecuteCommandResponse::spec_message_header(),
            MessageBodyView::SubscribedEvent(_) => SubscribedEvent::spec_message_header(),
            MessageBodyView::BrokerEventMetadata(_) => BrokerEventMetadata::spec_message_header(),
            MessageBodyView::InvitationRequest(_) => InvitationRequest::spec_message_header(),
            MessageBodyView::InvitationResponse(_) => InvitationResponse::spec_message_header(),
            MessageBodyView::JoinRequest(_) => JoinRequest::spec_message_header(),
            MessageBodyView::JoinResponse(_) => JoinResponse::spec_message_header(),
            MessageBodyView::LeaveRequest(_) => LeaveRequest::spec_message_header(),
            MessageBodyView::LeaveResponse(_) => LeaveResponse::spec_message_header(),
            MessageBodyView::ConfigurationRequest(_) => ConfigurationRequest::spec_message_header(),
            MessageBodyView::ConfigurationResponse(_) => ConfigurationResponse::spec_message_header(),
            MessageBodyView::PollRequest(_) => PollRequest::spec_message_header(),
            MessageBodyView::PollResponse(_) => PollResponse::spec_message_header(),
            MessageBodyView::VoteRequest(_) => VoteRequest::spec_message_header(),
            MessageBodyView::VoteResponse(_) => VoteResponse::spec_message_header(),
            MessageBodyView::AppendRequest(_) => AppendRequest::spec_message_header(),
            MessageBodyView::AppendResponse(_) => AppendResponse::spec_message_header(),
            MessageBodyView::Gossip(_) => Gossip::spec_message_header(),
            MessageBodyView::Probe(_) => Probe::spec_message_header(),
            MessageBodyView::PeerDescriptor(_) => PeerDescriptor::spec_message_header(),
        }
    }

    /// The header of the type of the message.
    pub fn header(&self) -> (r: MessageHeader)
        ensures
            r == Self::header_of(self.deep_view()),
    {
        proof {
            reveal(MessageBody::header_of);
        }
        match self {
            MessageBody::ErrorResponse(_) => ErrorResponse::message_header(),
            MessageBody::ControlMessageRequest(_) => ControlMessageRequest::message_header(),
            MessageBody::ControlMessageResponse(_) => ControlMessageResponse::message_header(),
            MessageBody::ExecuteCommandRequest(_) => ExecuteCommandRequest::message_header(),
            MessageBody::ExecuteCommandResponse(_) => ExecuteCommandResponse::message_header(),
            MessageBody::SubscribedEvent(_) => SubscribedEvent::message_header(),
            MessageBody::BrokerEventMetadata(_) => BrokerEventMetadata::message_header(),
            MessageBody::InvitationRequest(_) => InvitationRequest::message_header(),
            MessageBody::InvitationResponse(_) => InvitationResponse::message_header(),
            MessageBody::JoinRequest(_) => JoinRequest::message_header(),
            MessageBody::JoinResponse(_) => JoinResponse::message_header(),
            MessageBody::LeaveRequest(_) => LeaveRequest::message_header(),
            MessageBody::LeaveResponse(_) => LeaveResponse::message_header(),
            MessageBody::ConfigurationRequest(_) => ConfigurationRequest::message_header(),
            MessageBody::ConfigurationResponse(_) => ConfigurationResponse::message_header(),
            MessageBody::PollRequest(_) => PollRequest::message_header(),
            MessageBody::PollResponse(_) => PollResponse::message_header(),
            MessageBody::VoteRequest(_) => VoteRequest::message_header(),
            MessageBody::VoteResponse(_) => VoteResponse::message_header(),
            MessageBody::AppendRequest(_) => AppendRequest::message_header(),
            MessageBody::AppendResponse(_) => AppendResponse::message_header(),
            MessageBody::Gossip(_) => Gossip::message_header(),
            MessageBody::Probe(_) => Probe::message_header(),
            MessageBody::PeerDescriptor(_) => PeerDescriptor::message_header(),
        }
    }

    /// Whether a header is that of a message type of the catalog.
    pub open spec fn known(header: MessageHeader) -> bool {
        header == ErrorResponse::spec_message_header()
            || header == ControlMessageRequest::spec_message_header()
            || header == ControlMessageResponse::spec_message_header()
            || header == ExecuteCommandRequest::spec_message_header()
            || header == ExecuteCommandResponse::spec_message_header()
            || header == SubscribedEvent::spec_message_header()
            || header == BrokerEventMetadata::spec_message_header()
            || header == InvitationRequest::spec_message_header()
            || header == InvitationResponse::spec_message_header()
            || header == JoinRequest::spec_message_header()
            || header == JoinResponse::spec_message_header()
            || header == LeaveRequest::spec_message_header()
            || header == LeaveResponse::spec_message_header()
            || header == ConfigurationRequest::spec_message_header()
            || header == ConfigurationResponse::spec_message_header()
            || header == PollRequest::spec_message_header()
            || header == PollResponse::spec_message_header()
            || header == VoteRequest::spec_message_header()
            || header == VoteResponse::spec_message_header()
            || header == AppendRequest::spec_message_header()
            || header == AppendResponse::spec_message_header()
            || header == Gossip::spec_message_header()
            || header == Probe::spec_message_header()
            || header == PeerDescriptor::spec_message_header()
    }

    /// What the bytes of `s` from `at` on decode to as the message that
    /// `header` announces: a message of the type with that very header. A
    /// header of no type announces nothing that could be decoded. The
    /// definition is kept folded; a proof that needs it reveals it.
    #[verifier::opaque]
    pub open spec fn parse_body(header: MessageHeader, s: Seq<u8>, at: int) -> Result<
        (MessageBodyView, int),
        Failure,
    > {
        if header == ErrorResponse::spec_message_header() {
            match parse_as::<ErrorResponse>(s, at) {
                Err(e) => Err(e),
                Ok((m, next)) => Ok((MessageBodyView::ErrorResponse(m), next)),
            }
        } else if header == ControlMessageRequest::spec_message_header() {
            match parse_as::<ControlMessageRequest>(s, at) {
                Err(e) => Err(e),
                Ok((m, next)) => Ok((MessageBodyView::ControlMessageRequest(m), next)),
            }
        } else if header == ControlMessageResponse::spec_message_header() {
            match parse_as::<ControlMessageResponse>(s, at) {
                Err(e) => Err(e),
                Ok((m, next)) => Ok((MessageBodyView::ControlMessageResponse(m), next)),
            }
        } else if header == ExecuteCommandRequest::spec_message_header() {
            match parse_as::<ExecuteCommandRequest>(s, at) {
                Err(e) => Err(e),
                Ok((m, next)) => Ok((MessageBodyView::ExecuteCommandRequest(m), next)),
            }
        } else if header == ExecuteCommandResponse::spec_message_header() {
            match parse_as::<ExecuteCommandResponse>(s, at) {
                Err(e) => Err(e),
                Ok((m, next)) => Ok((MessageBodyView::ExecuteCommandResponse(m), next)),
            }
        } else if header == SubscribedEvent::spec_message_header() {
            match parse_as::<SubscribedEvent>(s, at) {
                Err(e) => Err(e),
                Ok((m, next)) => Ok((MessageBodyView::SubscribedEvent(m), next)),
            }
        } else if header == BrokerEventMetadata::spec_message_header() {
            match parse_as::<BrokerEventMetadata>(s, at) {
                Err(e) => Err(e),
                Ok((m, next)) => Ok((MessageBodyView::BrokerEventMetadata(m), next)),
            }
        } else if header == InvitationRequest::spec_message_header() {
            match parse_as::<InvitationRequest>(s, at) {
                Err(e) => Err(e),
                Ok((m, next)) => Ok((MessageBodyView::InvitationRequest(m), next)),
            }
        } else if header == InvitationResponse::spec_message_header() {
            match parse_as::<InvitationResponse>(s, at) {
                Err(e) => Err(e),
                Ok((m, next)) => Ok((MessageBodyView::InvitationResponse(m), next)),
            }
        } else if header == JoinRequest::spec_message_header() {
            match parse_as::<JoinRequest>(s, at) {
                Err(e) => Err(e),
                Ok((m, next)) => Ok((MessageBodyView::JoinRequest(m), next)),
            }
        } else if header == JoinResponse::spec_message_header() {
            match parse_as::<JoinResponse>(s, at) {
                Err(e) => Err(e),
                Ok((m, next)) => Ok((MessageBodyView::JoinResponse(m), next)),
            }
        } else if header == LeaveRequest::spec_message_header() {
            match parse_as::<LeaveRequest>(s, at) {
                Err(e) => Err(e),
                Ok((m, next)) => Ok((MessageBodyView::LeaveRequest(m), next)),
            }
        } else if header == LeaveResponse::spec_message_header() {
            match parse_as::<LeaveResponse>(s, at) {
                Err(e) => Err(e),
                Ok((m, next)) => Ok((MessageBodyView::LeaveResponse(m), next)),
            }
        } else if header == ConfigurationRequest::spec_message_header() {
            match parse_as::<ConfigurationRequest>(s, at) {
                Err(e) => Err(e),
                Ok((m, next)) => Ok((MessageBodyView::ConfigurationRequest(m), next)),
            }
        } else if header == ConfigurationResponse::spec_message_header() {
            match parse_as::<ConfigurationResponse>(s, at) {
                Err(e) => Err(e),
                Ok((m, next)) => Ok((MessageBodyView::ConfigurationResponse(m), next)),
            }
        } else if header == PollRequest::spec_message_header() {
            match parse_as::<PollRequest>(s, at) {
                Err(e) => Err(e),
                Ok((m, next)) => Ok((MessageBodyView::PollRequest(m), next)),
            }
        } else if header == PollResponse::spec_message_header() {
            match parse_as::<PollResponse>(s, at) {
                Err(e) => Err(e),
                Ok((m, next)) => Ok((MessageBodyView::PollResponse(m), next)),
            }
        } else if header == VoteRequest::spec_message_header() {
            match parse_as::<VoteRequest>(s, at) {
                Err(e) => Err(e),
                Ok((m, next)) => Ok((MessageBodyView::VoteRequest(m), next)),
            }
        } else if header == VoteResponse::spec_message_header() {
            match parse_as::<VoteResponse>(s, at) {
                Err(e) => Err(e),
                Ok((m, next)) => Ok((MessageBodyView::VoteResponse(m), next)),
            }
        } else if header == AppendRequest::spec_message_header() {
            match parse_as::<AppendRequest>(s, at) {
                Err(e) => Err(e),
                Ok((m, next)) => Ok((MessageBodyView::AppendRequest(m), next)),
            }
        } else if header == AppendResponse::spec_message_header() {
            match parse_as::<AppendResponse>(s, at) {
                Err(e) => Err(e),
                Ok((m, next)) => Ok((MessageBodyView::AppendResponse(m), next)),
            }
        } else if header == Gossip::spec_message_header() {
            match parse_as::<Gossip>(s, at) {
                Err(e) => Err(e),
                Ok((m, next)) => Ok((MessageBodyView::Gossip(m), next)),
            }
        } else if header == Probe::spec_message_header() {
            match parse_as::<Probe>(s, at) {
                Err(e) => Err(e),
                Ok((m, next)) => Ok((MessageBodyView::Probe(m), next)),
            }
        } else if header == PeerDescriptor::spec_message_header() {
            match parse_as::<PeerDescriptor>(s, at) {
                Err(e) => Err(e),
                Ok((m, next)) => Ok((MessageBodyView::PeerDescriptor(m), next)),
            }
        } else {
            Err((unknown_message(header), at))
        }
    }

    /// Decodes the message that `header` announces.
    pub fn read_body(header: &MessageHeader, buf: &[u8], at: usize) -> (r: Result<
        (Self, usize),
        Stop,
    >)
        ensures
            match Self::parse_body(*header, buf@, at as int) {
                Ok((m, next)) => r matches Ok((v, n)) && v.deep_view() == m && n == next,
                Err((e, stop)) => r matches Err((x, p)) && x == e && p == stop,
            },
            r matches Ok((_, n)) ==> (at <= n && (n <= buf@.len() || n == at)),
            r matches Err((_, p)) ==> (at <= p && (p <= buf@.len() || p == at)),
    {
        proof {
            reveal(MessageBody::parse_body);
        }
        if *header == ErrorResponse::message_header() {
            let (m, next) = read_as::<ErrorResponse>(buf, at)?;
            Ok((MessageBody::ErrorResponse(m), next))
        } else if *header == ControlMessageRequest::message_header() {
            let (m, next) = read_as::<ControlMessageRequest>(buf, at)?;
            Ok((MessageBody::ControlMessageRequest(m), next))
        } else if *header == ControlMessageResponse::message_header() {
            let (m, next) = read_as::<ControlMessageResponse>(buf, at)?;
            Ok((MessageBody::ControlMessageResponse(m), next))
        } else if *header == ExecuteCommandRequest::message_header() {
            let (m, next) = read_as::<ExecuteCommandRequest>(buf, at)?;
            Ok((MessageBody::ExecuteCommandRequest(m), next))
        } else if *header == ExecuteCommandResponse::message_header() {
            let (m, next) = read_as::<ExecuteCommandResponse>(buf, at)?;
            Ok((MessageBody::ExecuteCommandResponse(m), next))
        } else if *header == SubscribedEvent::message_header() {
            let (m, next) = read_as::<SubscribedEvent>(buf, at)?;
            Ok((MessageBody::SubscribedEvent(m), next))
        } else if *header == BrokerEventMetadata::message_header() {
            let (m, next) = read_as::<BrokerEventMetadata>(buf, at)?;
            Ok((MessageBody::BrokerEventMetadata(m), next))
        } else if *header == InvitationRequest::message_header() {
            let (m, next) = read_as::<InvitationRequest>(buf, at)?;
            Ok((MessageBody::InvitationRequest(m), next))
        } else if *header == InvitationResponse::message_header() {
            let (m, next) = read_as::<InvitationResponse>(buf, at)?;
            Ok((MessageBody::InvitationResponse(m), next))
        } else if *header == JoinRequest::message_header() {
            let (m, next) = read_as::<JoinRequest>(buf, at)?;
            Ok((MessageBody::JoinRequest(m), next))
        } else if *header == JoinResponse::message_header() {
            let (m, next) = read_as::<JoinResponse>(buf, at)?;
            Ok((MessageBody::JoinResponse(m), next))
        } else if *header == LeaveRequest::message_header() {
            let (m, next) = read_as::<LeaveRequest>(buf, at)?;
            Ok((MessageBody::LeaveRequest(m), next))
        } else if *header == LeaveResponse::message_header() {
            let (m, next) = read_as::<LeaveResponse>(buf, at)?;
            Ok((MessageBody::LeaveResponse(m), next))
        } else if *header == ConfigurationRequest::message_header() {
            let (m, next) = read_as::<ConfigurationRequest>(buf, at)?;
            Ok((MessageBody::ConfigurationRequest(m), next))
        } else if *header == ConfigurationResponse::message_header() {
            let (m, next) = read_as::<ConfigurationResponse>(buf, at)?;
            Ok((MessageBody::ConfigurationResponse(m), next))
        } else if *header == PollRequest::message_header() {
            let (m, next) = read_as::<PollRequest>(buf, at)?;
            Ok((MessageBody::PollRequest(m), next))
        } else if *header == PollResponse::message_header() {
            let (m, next) = read_as::<PollResponse>(buf, at)?;
            Ok((MessageBody::PollResponse(m), next))
        } else if *header == VoteRequest::message_header() {
            let (m, next) = read_as::<VoteRequest>(buf, at)?;
            Ok((MessageBody::VoteRequest(m), next))
        } else if *header == VoteResponse::message_header() {
            let (m, next) = read_as::<VoteResponse>(buf, at)?;
            Ok((MessageBody::VoteResponse(m), next))
        } else if *header == AppendRequest::message_header() {
            let (m, next) = read_as::<AppendRequest>(buf, at)?;
            Ok((MessageBody::AppendRequest(m), next))
        } else if *header == AppendResponse::message_header() {
            let (m, next) = read_as::<AppendResponse>(buf, at)?;
            Ok((MessageBody::AppendResponse(m), next))
        } else if *header == Gossip::message_header() {
            let (m, next) = read_as::<Gossip>(buf, at)?;
            Ok((MessageBody::Gossip(m), next))
        } else if *header == Probe::message_header() {
            let (m, next) = read_as::<Probe>(buf, at)?;
            Ok((MessageBody::Probe(m), next))
        } else if *header == PeerDescriptor::message_header() {
            let (m, next) = read_as::<PeerDescriptor>(buf, at)?;
            Ok((MessageBody::PeerDescriptor(m), next))
        } else {
            Err(
                (
                    DecodeError::UnknownMessage {
                        block_length: header.block_length,
                        template_id: header.template_id,
                        schema_id: header.schema_id,
                        version: header.version,
                    },
                    at,
                ),
            )
        }
    }

    /// The bytes of a message without its header. The definition is kept
    /// folded; a proof that needs it reveals it.
    #[verifier::opaque]
    pub open spec fn wire_body(m: MessageBodyView) -> Seq<u8> {
        match m {
            MessageBodyView::ErrorResponse(x) => ErrorResponse::wire(x),
            MessageBodyView::ControlMessageRequest(x) => ControlMessageRequest::wire(x),
            MessageBodyView::ControlMessageResponse(x) => ControlMessageResponse::wire(x),
            MessageBodyView::ExecuteCommandRequest(x) => ExecuteCommandRequest::wire(x),
            MessageBodyView::ExecuteCommandResponse(x) => ExecuteCommandResponse::wire(x),
            MessageBodyView::SubscribedEvent(x) => SubscribedEvent::wire(x),
            MessageBodyView::BrokerEventMetadata(x) => BrokerEventMetadata::wire(x),
            MessageBodyView::InvitationRequest(x) => InvitationRequest::wire(x),
            MessageBodyView::InvitationResponse(x) => InvitationResponse::wire(x),
            MessageBodyView::JoinRequest(x) => JoinRequest::wire(x),
            MessageBodyView::JoinResponse(x) => JoinResponse::wire(x),
            MessageBodyView::LeaveRequest(x) => LeaveRequest::wire(x),
            MessageBodyView::LeaveResponse(x) => LeaveResponse::wire(x),
            MessageBodyView::ConfigurationRequest(x) => ConfigurationRequest::wire(x),
            MessageBodyView::ConfigurationResponse(x) => ConfigurationResponse::wire(x),
            MessageBodyView::PollRequest(x) => PollRequest::wire(x),
            MessageBodyView::PollResponse(x) => PollResponse::wire(x),
            MessageBodyView::VoteRequest(x) => VoteRequest::wire(x),
            MessageBodyView::VoteResponse(x) => VoteResponse::wire(x),
            MessageBodyView::AppendRequest(x) => AppendRequest::wire(x),
            MessageBodyView::AppendResponse(x) => AppendResponse::wire(x),
            MessageBodyView::Gossip(x) => Gossip::wire(x),
            MessageBodyView::Probe(x) => Probe::wire(x),
            MessageBodyView::PeerDescriptor(x) => PeerDescriptor::wire(x),
        }
    }

    /// Whether a message can be encoded. The definition is kept folded; a
    /// proof that needs it reveals it.
    #[verifier::opaque]
    pub open spec fn encodable_body(m: MessageBodyView) -> bool {
        match m {
            MessageBodyView::ErrorResponse(x) => ErrorResponse::encodable(x),
            MessageBodyView::ControlMessageRequest(x) => ControlMessageRequest::encodable(x),
            MessageBodyView::ControlMessageResponse(x) => ControlMessageResponse::encodable(x),
            MessageBodyView::ExecuteCommandRequest(x) => ExecuteCommandRequest::encodable(x),
            MessageBodyView::ExecuteCommandResponse(x) => ExecuteCommandResponse::encodable(x),
            MessageBodyView::SubscribedEvent(x) => SubscribedEvent::encodable(x),
            MessageBodyView::BrokerEventMetadata(x) => BrokerEventMetadata::encodable(x),
            MessageBodyView::InvitationRequest(x) => InvitationRequest::encodable(x),
            MessageBodyView::InvitationResponse(x) => InvitationResponse::encodable(x),
            MessageBodyView::JoinRequest(x) => JoinRequest::encodable(x),
            MessageBodyView::JoinResponse(x) => JoinResponse::encodable(x),
            MessageBodyView::LeaveRequest(x) => LeaveRequest::encodable(x),
            MessageBodyView::LeaveResponse(x) => LeaveResponse::encodable(x),
            MessageBodyView::ConfigurationRequest(x) => ConfigurationRequest::encodable(x),
            MessageBodyView::ConfigurationResponse(x) => ConfigurationResponse::encodable(x),
            MessageBodyView::PollRequest(x) => PollRequest::encodable(x),
            MessageBodyView::PollResponse(x) => PollResponse::encodable(x),
            MessageBodyView::VoteRequest(x) => VoteRequest::encodable(x),
            MessageBodyView::VoteResponse(x) => VoteResponse::encodable(x),
            MessageBodyView::AppendRequest(x) => AppendRequest::encodable(x),
            MessageBodyView::AppendResponse(x) => AppendResponse::encodable(x),
            MessageBodyView::Gossip(x) => Gossip::encodable(x),
            MessageBodyView::Probe(x) => Probe::encodable(x),
            MessageBodyView::PeerDescriptor(x) => PeerDescriptor::encodable(x),
        }
    }

    /// Decoding the bytes of a message under the header of its type gives
    /// the message back.
    pub proof fn lemma_body_round_trip(m: MessageBodyView, s: Seq<u8>, at: int)
        requires
            Self::encodable(m),
            stands_at(s, at, Self::wire_body(m)),
        ensures
            Self::parse_body(Self::header_of(m), s, at) == Ok::<(MessageBodyView, int), Failure>(
                (m, at + Self::wire_body(m).len()),
            ),
    {
        reveal(MessageBody::header_of);
        reveal(MessageBody::parse_body);
        reveal(MessageBody::wire_body);
        reveal(MessageBody::encodable_body);
        match m {
            MessageBodyView::ErrorResponse(x) => lemma_round_trip_as::<ErrorResponse>(x, s, at),
            MessageBodyView::ControlMessageRequest(x) => lemma_round_trip_as::<ControlMessageRequest>(x, s, at),
            MessageBodyView::ControlMessageResponse(x) => lemma_round_trip_as::<ControlMessageResponse>(x, s, at),
            MessageBodyView::ExecuteCommandRequest(x) => lemma_round_trip_as::<ExecuteCommandRequest>(x, s, at),
            MessageBodyView::ExecuteCommandResponse(x) => lemma_round_trip_as::<ExecuteCommandResponse>(x, s, at),
            MessageBodyView::SubscribedEvent(x) => lemma_round_trip_as::<SubscribedEvent>(x, s, at),
            MessageBodyView::BrokerEventMetadata(x) => lemma_round_trip_as::<BrokerEventMetadata>(x, s, at),
            MessageBodyView::InvitationRequest(x) => lemma_round_trip_as::<InvitationRequest>(x, s, at),
            MessageBodyView::InvitationResponse(x) => lemma_round_trip_as::<InvitationResponse>(x, s, at),
            MessageBodyView::JoinRequest(x) => lemma_round_trip_as::<JoinRequest>(x, s, at),
            MessageBodyView::JoinResponse(x) => lemma_round_trip_as::<JoinResponse>(x, s, at),
            MessageBodyView::LeaveRequest(x) => lemma_round_trip_as::<LeaveRequest>(x, s, at),
            MessageBodyView::LeaveResponse(x) => lemma_round_trip_as::<LeaveResponse>(x, s, at),
            MessageBodyView::ConfigurationRequest(x) => lemma_round_trip_as::<ConfigurationRequest>(x, s, at),
            MessageBodyView::ConfigurationResponse(x) => lemma_round_trip_as::<ConfigurationResponse>(x, s, at),
            MessageBodyView::PollRequest(x) => lemma_round_trip_as::<PollRequest>(x, s, at),
            MessageBodyView::PollResponse(x) => lemma_round_trip_as::<PollResponse>(x, s, at),
            MessageBodyView::VoteRequest(x) => lemma_round_trip_as::<VoteRequest>(x, s, at),
            MessageBodyView::VoteResponse(x) => lemma_round_trip_as::<VoteResponse>(x, s, at),
            MessageBodyView::AppendRequest(x) => lemma_round_trip_as::<AppendRequest>(x, s, at),
            MessageBodyView::AppendResponse(x) => lemma_round_trip_as::<AppendResponse>(x, s, at),
            MessageBodyView::Gossip(x) => lemma_round_trip_as::<Gossip>(x, s, at),
            MessageBodyView::Probe(x) => lemma_round_trip_as::<Probe>(x, s, at),
            MessageBodyView::PeerDescriptor(x) => lemma_round_trip_as::<PeerDescriptor>(x, s, at),
        }
    }

    /// The blobs of a message, in the order of its fields: what may hold a
    /// structured value of its own.
    pub open spec fn blobs_of(m: MessageBodyView) -> Seq<Seq<u8>> {
        match m {
            MessageBodyView::ErrorResponse(x) => seq![x.error_data, x.failed_request],
            MessageBodyView::ControlMessageRequest(x) => seq![x.data],
            MessageBodyView::ControlMessageResponse(x) => seq![x.data],
            MessageBodyView::ExecuteCommandRequest(x) => seq![x.command],
            MessageBodyView::ExecuteCommandResponse(x) => seq![x.event],
            MessageBodyView::SubscribedEvent(x) => seq![x.event],
            MessageBodyView::AppendRequest(x) => seq![x.data],
            _ => Seq::empty(),
        }
    }

    /// The blobs of the message, in the order of its fields.
    pub fn blobs(&self) -> (r: Vec<&Data>)
        ensures
            r.deep_view() == Self::blobs_of(self.deep_view()),
    {
        match self {
            MessageBody::ErrorResponse(m) => {
                let r = vec![&m.error_data, &m.failed_request];
                assert(r.deep_view() =~= seq![m.error_data.deep_view(), m.failed_request.deep_view()]);
                r
            },
            MessageBody::ControlMessageRequest(m) => {
                let r = vec![&m.data];
                assert(r.deep_view() =~= seq![m.data.deep_view()]);
                r
            },
            MessageBody::ControlMessageResponse(m) => {
                let r = vec![&m.data];
                assert(r.deep_view() =~= seq![m.data.deep_view()]);
                r
            },
            MessageBody::ExecuteCommandRequest(m) => {
                let r = vec![&m.command];
                assert(r.deep_view() =~= seq![m.command.deep_view()]);
                r
            },
            MessageBody::ExecuteCommandResponse(m) => {
                let r = vec![&m.event];
                assert(r.deep_view() =~= seq![m.event.deep_view()]);
                r
            },
            MessageBody::SubscribedEvent(m) => {
                let r = vec![&m.event];
                assert(r.deep_view() =~= seq![m.event.deep_view()]);
                r
            },
            MessageBody::AppendRequest(m) => {
                let r = vec![&m.data];
                assert(r.deep_view() =~= seq![m.data.deep_view()]);
                r
            },
            _ => {
                let r: Vec<&Data> = Vec::new();
                assert(r.deep_view() =~= Seq::<Seq<u8>>::empty());
                r
            },
        }
    }

    /// Appends the bytes of the message, without its header, to `out`.
    pub fn write_body(&self, out: &mut Vec<u8>)
        requires
            Self::encodable(self.deep_view()),
        ensures
            final(out)@ == old(out)@ + Self::wire_body(self.deep_view()),
    {
        proof {
            reveal(MessageBody::wire_body);
            reveal(MessageBody::encodable_body);
        }
        match self {
            MessageBody::ErrorResponse(m) => m.write(out),
            MessageBody::ControlMessageRequest(m) => m.write(out),
            MessageBody::ControlMessageResponse(m) => m.write(out),
            MessageBody::ExecuteCommandRequest(m) => m.write(out),
            MessageBody::ExecuteCommandResponse(m) => m.write(out),
            MessageBody::SubscribedEvent(m) => m.write(out),
            MessageBody::BrokerEventMetadata(m) => m.write(out),
            MessageBody::InvitationRequest(m) => m.write(out),
            MessageBody::InvitationResponse(m) => m.write(out),
            MessageBody::JoinRequest(m) => m.write(out),
            MessageBody::JoinResponse(m) => m.write(out),
            MessageBody::LeaveRequest(m) => m.write(out),
            MessageBody::LeaveResponse(m) => m.write(out),
            MessageBody::ConfigurationRequest(m) => m.write(out),
            MessageBody::ConfigurationResponse(m) => m.write(out),
            MessageBody::PollRequest(m) => m.write(out),
            MessageBody::PollResponse(m) => m.write(out),
            MessageBody::VoteRequest(m) => m.write(out),
            MessageBody::VoteResponse(m) => m.write(out),
            MessageBody::AppendRequest(m) => m.write(out),
            MessageBody::AppendResponse(m) => m.write(out),
            MessageBody::Gossip(m) => m.write(out),
            MessageBody::Probe(m) => m.write(out),
            MessageBody::PeerDescriptor(m) => m.write(out),
        }
    }
}

impl FromBytes for MessageBody {
    /// A message stands behind its header. The header selects the type.
    open spec fn parse(s: Seq<u8>, at: int) -> Result<(MessageBodyView, int), Failure> {
        match MessageHeader::parse(s, at) {
            Err(e) => Err(e),
            Ok((header, at)) => Self::parse_body(header, s, at),
        }
    }

    fn read_at(buf: &[u8], at: usize) -> (r: Result<(Self, usize), Stop>) {
        let (header, at) = MessageHeader::read_at(buf, at)?;
        Self::read_body(&header, buf, at)
    }
}

impl ToBytes for MessageBody {
    open spec fn wire(m: MessageBodyView) -> Seq<u8> {
        MessageHeader::wire(Self::header_of(m)) + Self::wire_body(m)
    }

    open spec fn encodable(m: MessageBodyView) -> bool {
        Self::encodable_body(m)
    }


    proof fn lemma_round_trip(m: MessageBodyView, s: Seq<u8>, at: int) {
        let head = MessageHeader::wire(Self::header_of(m));
        lemma_first_stands(s, at, head, Self::wire_body(m));
        MessageHeader::lemma_round_trip(Self::header_of(m), s, at);
        lemma_last_stands(s, at, head, Self::wire_body(m));
        Self::lemma_body_round_trip(m, s, at + head.len());
    }

    fn is_encodable(&self) -> (r: bool) {
        proof {
            reveal(MessageBody::encodable_body);
        }
        match self {
            MessageBody::ErrorResponse(m) => m.is_encodable(),
            MessageBody::ControlMessageRequest(m) => m.is_encodable(),
            MessageBody::ControlMessageResponse(m) => m.is_encodable(),
            MessageBody::ExecuteCommandRequest(m) => m.is_encodable(),
            MessageBody::ExecuteCommandResponse(m) => m.is_encodable(),
            MessageBody::SubscribedEvent(m) => m.is_encodable(),
            MessageBody::BrokerEventMetadata(m) => m.is_encodable(),
            MessageBody::InvitationRequest(m) => m.is_encodable(),
            MessageBody::InvitationResponse(m) => m.is_encodable(),
            MessageBody::JoinRequest(m) => m.is_encodable(),
            MessageBody::JoinResponse(m) => m.is_encodable(),
            MessageBody::LeaveRequest(m) => m.is_encodable(),
            MessageBody::LeaveResponse(m) => m.is_encodable(),
            MessageBody::ConfigurationRequest(m) => m.is_encodable(),
            MessageBody::ConfigurationResponse(m) => m.is_encodable(),
            MessageBody::PollRequest(m) => m.is_encodable(),
            MessageBody::PollResponse(m) => m.is_encodable(),
            MessageBody::VoteRequest(m) => m.is_encodable(),
            MessageBody::VoteResponse(m) => m.is_encodable(),
            MessageBody::AppendRequest(m) => m.is_encodable(),
            MessageBody::AppendResponse(m) => m.is_encodable(),
            MessageBody::Gossip(m) => m.is_encodable(),
            MessageBody::Probe(m) => m.is_encodable(),
            MessageBody::PeerDescriptor(m) => m.is_encodable(),
        }
    }

    fn write(&self, out: &mut Vec<u8>) {
        self.header().write(out);
        self.write_body(out);
        assert(out@ =~= old(out)@ + Self::wire(self.deep_view()));
    }
}

} // verus!
