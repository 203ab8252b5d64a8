//! The messages between a client and the broker (schema family 0).

use crate::convert::{
    lemma_concat_assoc, lemma_first_stands, lemma_last_stands, lemma_part_stands, BlockLength,
    Data, FromBytes, Message, ToBytes,
};
use crate::errors::{Failure, Stop};
use vstd::prelude::*;

verus! {

/// Why the broker rejected a request.
#[derive(Debug, Clone, Copy, PartialEq, Eq, Structural)]
pub enum ErrorCode {
    MessageNotSupported,
    TopicNotFound,
    RequestWriteFailure,
    InvalidClientVersion,
    RequestTimeout,
    RequestProcessingFailure,
    /// Every discriminant that stands for no other variant.
    Unknown,
}

impl Default for ErrorCode {
    fn default() -> (r: Self)
        ensures
            r == ErrorCode::Unknown,
    {
        ErrorCode::Unknown
    }
}

impl DeepView for ErrorCode {
    type V = ErrorCode;

    open spec fn deep_view(&self) -> ErrorCode {
        *self
    }
}

impl ErrorCode {
    /// The variant that a discriminant stands for. A value that no variant is
    /// mapped to stands for `Unknown`.
    pub open spec fn of(value: u8) -> ErrorCode {
        if value == 0 {
            ErrorCode::MessageNotSupported
        } else if value == 1 {
            ErrorCode::TopicNotFound
        } else if value == 2 {
            ErrorCode::RequestWriteFailure
        } else if value == 3 {
            ErrorCode::InvalidClientVersion
        } else if value == 4 {
            ErrorCode::RequestTimeout
        } else if value == 5 {
            ErrorCode::RequestProcessingFailure
        } else {
            ErrorCode::Unknown
        }
    }

    /// The discriminant that a variant is written as. `Unknown` is written as
    /// the largest value of the discriminant's type.
    pub open spec fn discriminant(self) -> u8 {
        match self {
            ErrorCode::MessageNotSupported => 0,
            ErrorCode::TopicNotFound => 1,
            ErrorCode::RequestWriteFailure => 2,
            ErrorCode::InvalidClientVersion => 3,
            ErrorCode::RequestTimeout => 4,
            ErrorCode::RequestProcessingFailure => 5,
            ErrorCode::Unknown => 0xFF,
        }
    }

    /// Every discriminant stands for a variant, and never for more than it
    /// says: one that no variant is written as stands for `Unknown`, any other
    /// for the variant that is written as it, and what `Unknown` is written as
    /// stands for `Unknown`.
    pub proof fn lemma_of_discriminant(value: u8)
        ensures
            Self::of(value) != ErrorCode::Unknown ==> Self::of(value).discriminant()
                == value,
            (forall|v: ErrorCode|
                v != ErrorCode::Unknown ==> #[trigger] v.discriminant() != value) ==> Self::of(value)
                == ErrorCode::Unknown,
            forall|v: ErrorCode| Self::of(#[trigger] v.discriminant()) == v,
    {
        if Self::of(value) != ErrorCode::Unknown {
            assert(Self::of(value).discriminant() == value);
        }
    }

    /// The variant that a discriminant stands for.
    pub fn from_discriminant(value: u8) -> (r: Self)
        ensures
            r == Self::of(value),
    {
        if value == 0 {
            ErrorCode::MessageNotSupported
        } else if value == 1 {
            ErrorCode::TopicNotFound
        } else if value == 2 {
            ErrorCode::RequestWriteFailure
        } else if value == 3 {
            ErrorCode::InvalidClientVersion
        } else if value == 4 {
            ErrorCode::RequestTimeout
        } else if value == 5 {
            ErrorCode::RequestProcessingFailure
        } else {
            ErrorCode::Unknown
        }
    }

    /// The discriminant that the variant is written as.
    pub fn to_discriminant(&self) -> (r: u8)
        ensures
            r == self.discriminant(),
    {
        match self {
            ErrorCode::MessageNotSupported => 0,
            ErrorCode::TopicNotFound => 1,
            ErrorCode::RequestWriteFailure => 2,
            ErrorCode::InvalidClientVersion => 3,
            ErrorCode::RequestTimeout => 4,
            ErrorCode::RequestProcessingFailure => 5,
            ErrorCode::Unknown => 0xFF,
        }
    }
}

impl FromBytes for ErrorCode {
    /// An enumeration is its discriminant. Every discriminant decodes.
    open spec fn parse(s: Seq<u8>, at: int) -> Result<(ErrorCode, int), Failure> {
        match u8::parse(s, at) {
            Err(e) => Err(e),
            Ok((value, next)) => Ok((ErrorCode::of(value), next)),
        }
    }

    fn read_at(buf: &[u8], at: usize) -> (r: Result<(Self, usize), Stop>) {
        let (value, next) = u8::read_at(buf, at)?;
        Ok((ErrorCode::from_discriminant(value), next))
    }
}

impl ToBytes for ErrorCode {
    open spec fn wire(m: ErrorCode) -> Seq<u8> {
        u8::wire(m.discriminant())
    }

    open spec fn encodable(m: ErrorCode) -> bool {
        true
    }

    proof fn lemma_round_trip(m: ErrorCode, s: Seq<u8>, at: int) {
        u8::lemma_round_trip(m.discriminant(), s, at);
    }

    fn is_encodable(&self) -> (r: bool) {
        true
    }

    fn write(&self, out: &mut Vec<u8>) {
        self.to_discriminant().write(out);
    }
}

impl BlockLength for ErrorCode {
    open spec fn fixed_length() -> nat {
        u8::fixed_length()
    }

    fn block_length() -> (n: u16) {
        u8::block_length()
    }
}

/// The kind of event that a command or a subscribed event is about.
#[derive(Debug, Clone, Copy, PartialEq, Eq, Structural)]
pub enum EventType {
    TaskEvent,
    RaftEvent,
    SubscriptionEvent,
    SubscriberEvent,
    DeploymentEvent,
    WorkflowEvent,
    IncidentEvent,
    /// Every discriminant that stands for no other variant.
    Unknown,
}

impl Default for EventType {
    fn default() -> (r: Self)
        ensures
            r == EventType::Unknown,
    {
        EventType::Unknown
    }
}

impl DeepView for EventType {
    type V = EventType;

    open spec fn deep_view(&self) -> EventType {
        *self
    }
}

impl EventType {
    /// The variant that a discriminant stands for. A value that no variant is
    /// mapped to stands for `Unknown`.
    pub open spec fn of(value: u8) -> EventType {
        if value == 0 {
            EventType::TaskEvent
        } else if value == 1 {
            EventType::RaftEvent
        } else if value == 2 {
            EventType::SubscriptionEvent
        } else if value == 3 {
            EventType::SubscriberEvent
        } else if value == 4 {
            EventType::DeploymentEvent
        } else if value == 5 {
            EventType::WorkflowEvent
        } else if value == 6 {
            EventType::IncidentEvent
        } else {
            EventType::Unknown
        }
    }

    /// The discriminant that a variant is written as. `Unknown` is written as
    /// the largest value of the discriminant's type.
    pub open spec fn discriminant(self) -> u8 {
        match self {
            EventType::TaskEvent => 0,
            EventType::RaftEvent => 1,
            EventType::SubscriptionEvent => 2,
            EventType::SubscriberEvent => 3,
            EventType::DeploymentEvent => 4,
            EventType::WorkflowEvent => 5,
            EventType::IncidentEvent => 6,
            EventType::Unknown => 0xFF,
        }
    }

    /// Every discriminant stands for a variant, and never for more than it
    /// says: one that no variant is written as stands for `Unknown`, any other
    /// for the variant that is written as it, and what `Unknown` is written as
    /// stands for `Unknown`.
    pub proof fn lemma_of_discriminant(value: u8)
        ensures
            Self::of(value) != EventType::Unknown ==> Self::of(value).discriminant()
                == value,
            (forall|v: EventType|
                v != EventType::Unknown ==> #[trigger] v.discriminant() != value) ==> Self::of(value)
                == EventType::Unknown,
            forall|v: EventType| Self::of(#[trigger] v.discriminant()) == v,
    {
        if Self::of(value) != EventType::Unknown {
            assert(Self::of(value).discriminant() == value);
        }
    }

    /// The variant that a discriminant stands for.
    pub fn from_discriminant(value: u8) -> (r: Self)
        ensures
            r == Self::of(value),
    {
        if value == 0 {
            EventType::TaskEvent
        } else if value == 1 {
            EventType::RaftEvent
        } else if value == 2 {
            EventType::SubscriptionEvent
        } else if value == 3 {
            EventType::SubscriberEvent
        } else if value == 4 {
            EventType::DeploymentEvent
        } else if value == 5 {
            EventType::WorkflowEvent
        } else if value == 6 {
            EventType::IncidentEvent
        } else {
            EventType::Unknown
        }
    }

    /// The discriminant that the variant is written as.
    pub fn to_discriminant(&self) -> (r: u8)
        ensures
            r == self.discriminant(),
    {
        match self {
            EventType::TaskEvent => 0,
            EventType::RaftEvent => 1,
            EventType::SubscriptionEvent => 2,
            EventType::SubscriberEvent => 3,
            EventType::DeploymentEvent => 4,
            EventType::WorkflowEvent => 5,
            EventType::IncidentEvent => 6,
            EventType::Unknown => 0xFF,
        }
    }
}

impl FromBytes for EventType {
    /// An enumeration is its discriminant. Every discriminant decodes.
    open spec fn parse(s: Seq<u8>, at: int) -> Result<(EventType, int), Failure> {
        match u8::parse(s, at) {
            Err(e) => Err(e),
            Ok((value, next)) => Ok((EventType::of(value), next)),
        }
    }

    fn read_at(buf: &[u8], at: usize) -> (r: Result<(Self, usize), Stop>) {
        let (value, next) = u8::read_at(buf, at)?;
        Ok((EventType::from_discriminant(value), next))
    }
}

impl ToBytes for EventType {
    open spec fn wire(m: EventType) -> Seq<u8> {
        u8::wire(m.discriminant())
    }

    open spec fn encodable(m: EventType) -> bool {
        true
    }

    proof fn lemma_round_trip(m: EventType, s: Seq<u8>, at: int) {
        u8::lemma_round_trip(m.discriminant(), s, at);
    }

    fn is_encodable(&self) -> (r: bool) {
        true
    }

    fn write(&self, out: &mut Vec<u8>) {
        self.to_discriminant().write(out);
    }
}

impl BlockLength for EventType {
    open spec fn fixed_length() -> nat {
        u8::fixed_length()
    }

    fn block_length() -> (n: u16) {
        u8::block_length()
    }
}

/// What a control message asks the broker to do.
#[derive(Debug, Clone, Copy, PartialEq, Eq, Structural)]
pub enum ControlMessageType {
    AddTaskSubscription,
    RemoveTaskSubscription,
    IncreaseTaskSubscriptionCredits,
    RemoveTopicSubscription,
    RequestTopology,
    /// Every discriminant that stands for no other variant.
    Unknown,
}

impl Default for ControlMessageType {
    fn default() -> (r: Self)
        ensures
            r == ControlMessageType::Unknown,
    {
        ControlMessageType::Unknown
    }
}

impl DeepView for ControlMessageType {
    type V = ControlMessageType;

    open spec fn deep_view(&self) -> ControlMessageType {
        *self
    }
}

impl ControlMessageType {
    /// The variant that a discriminant stands for. A value that no variant is
    /// mapped to stands for `Unknown`.
    pub open spec fn of(value: u8) -> ControlMessageType {
        if value == 0 {
            ControlMessageType::AddTaskSubscription
        } else if value == 1 {
            ControlMessageType::RemoveTaskSubscription
        } else if value == 2 {
            ControlMessageType::IncreaseTaskSubscriptionCredits
        } else if value == 3 {
            ControlMessageType::RemoveTopicSubscription
        } else if value == 4 {
            ControlMessageType::RequestTopology
        } else {
            ControlMessageType::Unknown
        }
    }

    /// The discriminant that a variant is written as. `Unknown` is written as
    /// the largest value of the discriminant's type.
    pub open spec fn discriminant(self) -> u8 {
        match self {
            ControlMessageType::AddTaskSubscription => 0,
            ControlMessageType::RemoveTaskSubscription => 1,
            ControlMessageType::IncreaseTaskSubscriptionCredits => 2,
            ControlMessageType::RemoveTopicSubscription => 3,
            ControlMessageType::RequestTopology => 4,
            ControlMessageType::Unknown => 0xFF,
        }
    }

    /// Every discriminant stands for a variant, and never for more than it
    /// says: one that no variant is written as stands for `Unknown`, any other
    /// for the variant that is written as it, and what `Unknown` is written as
    /// stands for `Unknown`.
    pub proof fn lemma_of_discriminant(value: u8)
        ensures
            Self::of(value) != ControlMessageType::Unknown ==> Self::of(value).discriminant()
                == value,
            (forall|v: ControlMessageType|
                v != ControlMessageType::Unknown ==> #[trigger] v.discriminant() != value) ==> Self::of(value)
                == ControlMessageType::Unknown,
            forall|v: ControlMessageType| Self::of(#[trigger] v.discriminant()) == v,
    {
        if Self::of(value) != ControlMessageType::Unknown {
            assert(Self::of(value).discriminant() == value);
        }
    }

    /// The variant that a discriminant stands for.
    pub fn from_discriminant(value: u8) -> (r: Self)
        ensures
            r == Self::of(value),
    {
        if value == 0 {
            ControlMessageType::AddTaskSubscription
        } else if value == 1 {
            ControlMessageType::RemoveTaskSubscription
        } else if value == 2 {
            ControlMessageType::IncreaseTaskSubscriptionCredits
        } else if value == 3 {
            ControlMessageType::RemoveTopicSubscription
        } else if value == 4 {
            ControlMessageType::RequestTopology
        } else {
            ControlMessageType::Unknown
        }
    }

    /// The discriminant that the variant is written as.
    pub fn to_discriminant(&self) -> (r: u8)
        ensures
            r == self.discriminant(),
    {
        match self {
            ControlMessageType::AddTaskSubscription => 0,
            ControlMessageType::RemoveTaskSubscription => 1,
            ControlMessageType::IncreaseTaskSubscriptionCredits => 2,
            ControlMessageType::RemoveTopicSubscription => 3,
            ControlMessageType::RequestTopology => 4,
            ControlMessageType::Unknown => 0xFF,
        }
    }
}

impl FromBytes for ControlMessageType {
    /// An enumeration is its discriminant. Every discriminant decodes.
    open spec fn parse(s: Seq<u8>, at: int) -> Result<(ControlMessageType, int), Failure> {
        match u8::parse(s, at) {
            Err(e) => Err(e),
            Ok((value, next)) => Ok((ControlMessageType::of(value), next)),
        }
    }

    fn read_at(buf: &[u8], at: usize) -> (r: Result<(Self, usize), Stop>) {
        let (value, next) = u8::read_at(buf, at)?;
        Ok((ControlMessageType::from_discriminant(value), next))
    }
}

impl ToBytes for ControlMessageType {
    open spec fn wire(m: ControlMessageType) -> Seq<u8> {
        u8::wire(m.discriminant())
    }

    open spec fn encodable(m: ControlMessageType) -> bool {
        true
    }

    proof fn lemma_round_trip(m: ControlMessageType, s: Seq<u8>, at: int) {
        u8::lemma_round_trip(m.discriminant(), s, at);
    }

    fn is_encodable(&self) -> (r: bool) {
        true
    }

    fn write(&self, out: &mut Vec<u8>) {
        self.to_discriminant().write(out);
    }
}

impl BlockLength for ControlMessageType {
    open spec fn fixed_length() -> nat {
        u8::fixed_length()
    }

    fn block_length() -> (n: u16) {
        u8::block_length()
    }
}

/// The kind of subscription that an event was delivered for.
#[derive(Debug, Clone, Copy, PartialEq, Eq, Structural)]
pub enum SubscriptionType {
    TaskSubscription,
    TopicSubscription,
    /// Every discriminant that stands for no other variant.
    Unknown,
}

impl Default for SubscriptionType {
    fn default() -> (r: Self)
        ensures
            r == SubscriptionType::Unknown,
    {
        SubscriptionType::Unknown
    }
}

impl DeepView for SubscriptionType {
    type V = SubscriptionType;

    open spec fn deep_view(&self) -> SubscriptionType {
        *self
    }
}

impl SubscriptionType {
    /// The variant that a discriminant stands for. A value that no variant is
    /// mapped to stands for `Unknown`.
    pub open spec fn of(value: u8) -> SubscriptionType {
        if value == 0 {
            SubscriptionType::TaskSubscription
        } else if value == 1 {
            SubscriptionType::TopicSubscription
        } else {
            SubscriptionType::Unknown
        }
    }

    /// The discriminant that a variant is written as. `Unknown` is written as
    /// the largest value of the discriminant's type.
    pub open spec fn discriminant(self) -> u8 {
        match self {
            SubscriptionType::TaskSubscription => 0,
            SubscriptionType::TopicSubscription => 1,
            SubscriptionType::Unknown => 0xFF,
        }
    }

    /// Every discriminant stands for a variant, and never for more than it
    /// says: one that no variant is written as stands for `Unknown`, any other
    /// for the variant that is written as it, and what `Unknown` is written as
    /// stands for `Unknown`.
    pub proof fn lemma_of_discriminant(value: u8)
        ensures
            Self::of(value) != SubscriptionType::Unknown ==> Self::of(value).discriminant()
                == value,
            (forall|v: SubscriptionType|
                v != SubscriptionType::Unknown ==> #[trigger] v.discriminant() != value) ==> Self::of(value)
                == SubscriptionType::Unknown,
            forall|v: SubscriptionType| Self::of(#[trigger] v.discriminant()) == v,
    {
        if Self::of(value) != SubscriptionType::Unknown {
            assert(Self::of(value).discriminant() == value);
        }
    }

    /// The variant that a discriminant stands for.
    pub fn from_discriminant(value: u8) -> (r: Self)
        ensures
            r == Self::of(value),
    {
        if value == 0 {
            SubscriptionType::TaskSubscription
        } else if value == 1 {
            SubscriptionType::TopicSubscription
        } else {
            SubscriptionType::Unknown
        }
    }

    /// The discriminant that the variant is written as.
    pub fn to_discriminant(&self) -> (r: u8)
        ensures
            r == self.discriminant(),
    {
        match self {
            SubscriptionType::TaskSubscription => 0,
            SubscriptionType::TopicSubscription => 1,
            SubscriptionType::Unknown => 0xFF,
        }
    }
}

impl FromBytes for SubscriptionType {
    /// An enumeration is its discriminant. Every discriminant decodes.
    open spec fn parse(s: Seq<u8>, at: int) -> Result<(SubscriptionType, int), Failure> {
        match u8::parse(s, at) {
            Err(e) => Err(e),
            Ok((value, next)) => Ok((SubscriptionType::of(value), next)),
        }
    }

    fn read_at(buf: &[u8], at: usize) -> (r: Result<(Self, usize), Stop>) {
        let (value, next) = u8::read_at(buf, at)?;
        Ok((SubscriptionType::from_discriminant(value), next))
    }
}

impl ToBytes for SubscriptionType {
    open spec fn wire(m: SubscriptionType) -> Seq<u8> {
        u8::wire(m.discriminant())
    }

    open spec fn encodable(m: SubscriptionType) -> bool {
        true
    }

    proof fn lemma_round_trip(m: SubscriptionType, s: Seq<u8>, at: int) {
        u8::lemma_round_trip(m.discriminant(), s, at);
    }

    fn is_encodable(&self) -> (r: bool) {
        true
    }

    fn write(&self, out: &mut Vec<u8>) {
        self.to_discriminant().write(out);
    }
}

impl BlockLength for SubscriptionType {
    open spec fn fixed_length() -> nat {
        u8::fixed_length()
    }

    fn block_length() -> (n: u16) {
        u8::block_length()
    }
}

/// The broker's answer to a request that it could not serve.
#[derive(Debug, PartialEq, Eq, Default)]
pub struct ErrorResponse {
    pub error_code: ErrorCode,
    pub error_data: Data,
    pub failed_request: Data,
}

/// The model of `ErrorResponse`.
pub struct ErrorResponseView {
    pub error_code: ErrorCode,
    pub error_data: Seq<u8>,
    pub failed_request: Seq<u8>,
}

impl DeepView for ErrorResponse {
    type V = ErrorResponseView;

    open spec fn deep_view(&self) -> ErrorResponseView {
        ErrorResponseView {
            error_code: self.error_code,
            error_data: self.error_data.deep_view(),
            failed_request: self.failed_request.deep_view(),
        }
    }
}

impl FromBytes for ErrorResponse {
    /// The fields in the order of their declaration.
    open spec fn parse(s: Seq<u8>, at: int) -> Result<(ErrorResponseView, int), Failure> {
        match ErrorCode::parse(s, at) {
            Err(e) => Err(e),
            Ok((error_code, at)) => match Data::parse(s, at) {
                Err(e) => Err(e),
                Ok((error_data, at)) => match Data::parse(s, at) {
                    Err(e) => Err(e),
                    Ok((failed_request, at)) => Ok((ErrorResponseView { error_code, error_data, failed_request }, at)),
                },
            },
        }
    }

    fn read_at(buf: &[u8], at: usize) -> (r: Result<(Self, usize), Stop>) {
        let (error_code, at) = ErrorCode::read_at(buf, at)?;
        let (error_data, at) = Data::read_at(buf, at)?;
        let (failed_request, at) = Data::read_at(buf, at)?;
        Ok((ErrorResponse { error_code, error_data, failed_request }, at))
    }
}

impl ToBytes for ErrorResponse {
    open spec fn wire(m: ErrorResponseView) -> Seq<u8> {
        ErrorCode::wire(m.error_code)
            + Data::wire(m.error_data)
            + Data::wire(m.failed_request)
    }

    open spec fn encodable(m: ErrorResponseView) -> bool {
        Data::encodable(m.error_data) && Data::encodable(m.failed_request)
    }

    proof fn lemma_round_trip(m: ErrorResponseView, s: Seq<u8>, at: int) {
        let w0 = ErrorCode::wire(m.error_code);
        let w1 = Data::wire(m.error_data);
        let w2 = Data::wire(m.failed_request);
        let a0 = w0;
        let a1 = a0 + w1;
        let b1 = w2;
        let b0 = w1 + b1;
        lemma_last_stands(s, at, a1, w2);
        lemma_part_stands(s, at, a0, w1, b1);
        lemma_concat_assoc(a0, w1, b1);
        lemma_first_stands(s, at, w0, b0);
        ErrorCode::lemma_round_trip(m.error_code, s, at);
        Data::lemma_round_trip(m.error_data, s, at + a0.len());
        Data::lemma_round_trip(m.failed_request, s, at + a1.len());
    }

    fn is_encodable(&self) -> (r: bool) {
        self.error_data.is_encodable() && self.failed_request.is_encodable()
    }

    fn write(&self, out: &mut Vec<u8>) {
        self.error_code.write(out);
        self.error_data.write(out);
        self.failed_request.write(out);
        assert(out@ =~= old(out)@ + Self::wire(self.deep_view()));
    }
}

impl BlockLength for ErrorResponse {
    open spec fn fixed_length() -> nat {
        ErrorCode::fixed_length()
            + Data::fixed_length()
            + Data::fixed_length()
    }

    fn block_length() -> (n: u16) {
        ErrorCode::block_length()
            + Data::block_length()
            + Data::block_length()
    }
}

impl Message for ErrorResponse {
    open spec fn spec_template_id() -> u16 {
        0
    }

    open spec fn spec_schema_id() -> u16 {
        0
    }

    open spec fn spec_version() -> u16 {
        1
    }

    fn template_id() -> (r: u16) {
        0
    }

    fn schema_id() -> (r: u16) {
        0
    }

    fn version() -> (r: u16) {
        1
    }
}

/// A request that manages the connection's subscriptions.
#[derive(Debug, PartialEq, Eq, Default)]
pub struct ControlMessageRequest {
    pub message_type: ControlMessageType,
    pub data: Data,
}

/// The model of `ControlMessageRequest`.
pub struct ControlMessageRequestView {
    pub message_type: ControlMessageType,
    pub data: Seq<u8>,
}

impl DeepView for ControlMessageRequest {
    type V = ControlMessageRequestView;

    open spec fn deep_view(&self) -> ControlMessageRequestView {
        ControlMessageRequestView {
            message_type: self.message_type,
            data: self.data.deep_view(),
        }
    }
}

impl FromBytes for ControlMessageRequest {
    /// The fields in the order of their declaration.
    open spec fn parse(s: Seq<u8>, at: int) -> Result<(ControlMessageRequestView, int), Failure> {
        match ControlMessageType::parse(s, at) {
            Err(e) => Err(e),
            Ok((message_type, at)) => match Data::parse(s, at) {
                Err(e) => Err(e),
                Ok((data, at)) => Ok((ControlMessageRequestView { message_type, data }, at)),
            },
        }
    }

    fn read_at(buf: &[u8], at: usize) -> (r: Result<(Self, usize), Stop>) {
        let (message_type, at) = ControlMessageType::read_at(buf, at)?;
        let (data, at) = Data::read_at(buf, at)?;
        Ok((ControlMessageRequest { message_type, data }, at))
    }
}

impl ToBytes for ControlMessageRequest {
    open spec fn wire(m: ControlMessageRequestView) -> Seq<u8> {
        ControlMessageType::wire(m.message_type)
            + Data::wire(m.data)
    }

    open spec fn encodable(m: ControlMessageRequestView) -> bool {
        Data::encodable(m.data)
    }

    proof fn lemma_round_trip(m: ControlMessageRequestView, s: Seq<u8>, at: int) {
        let w0 = ControlMessageType::wire(m.message_type);
        let w1 = Data::wire(m.data);
        let a0 = w0;
        let b0 = w1;
        lemma_last_stands(s, at, a0, w1);
        lemma_first_stands(s, at, w0, b0);
        ControlMessageType::lemma_round_trip(m.message_type, s, at);
        Data::lemma_round_trip(m.data, s, at + a0.len());
    }

    fn is_encodable(&self) -> (r: bool) {
        self.data.is_encodable()
    }

    fn write(&self, out: &mut Vec<u8>) {
        self.message_type.write(out);
        self.data.write(out);
        assert(out@ =~= old(out)@ + Self::wire(self.deep_view()));
    }
}

impl BlockLength for ControlMessageRequest {
    open spec fn fixed_length() -> nat {
        ControlMessageType::fixed_length()
            + Data::fixed_length()
    }

    fn block_length() -> (n: u16) {
        ControlMessageType::block_length()
            + Data::block_length()
    }
}

impl Message for ControlMessageRequest {
    open spec fn spec_template_id() -> u16 {
        10
    }

    open spec fn spec_schema_id() -> u16 {
        0
    }

    open spec fn spec_version() -> u16 {
        1
    }

    fn template_id() -> (r: u16) {
        10
    }

    fn schema_id() -> (r: u16) {
        0
    }

    fn version() -> (r: u16) {
        1
    }
}

/// The answer to a control message.
#[derive(Debug, PartialEq, Eq, Default)]
pub struct ControlMessageResponse {
    pub data: Data,
}

/// The model of `ControlMessageResponse`.
pub struct ControlMessageResponseView {
    pub data: Seq<u8>,
}

impl DeepView for ControlMessageResponse {
    type V = ControlMessageResponseView;

    open spec fn deep_view(&self) -> ControlMessageResponseView {
        ControlMessageResponseView {
            data: self.data.deep_view(),
        }
    }
}

impl FromBytes for ControlMessageResponse {
    /// The fields in the order of their declaration.
    open spec fn parse(s: Seq<u8>, at: int) -> Result<(ControlMessageResponseView, int), Failure> {
        match Data::parse(s, at) {
            Err(e) => Err(e),
            Ok((data, at)) => Ok((ControlMessageResponseView { data }, at)),
        }
    }

    fn read_at(buf: &[u8], at: usize) -> (r: Result<(Self, usize), Stop>) {
        let (data, at) = Data::read_at(buf, at)?;
        Ok((ControlMessageResponse { data }, at))
    }
}

impl ToBytes for ControlMessageResponse {
    open spec fn wire(m: ControlMessageResponseView) -> Seq<u8> {
        Data::wire(m.data)
    }

    open spec fn encodable(m: ControlMessageResponseView) -> bool {
        Data::encodable(m.data)
    }

    proof fn lemma_round_trip(m: ControlMessageResponseView, s: Seq<u8>, at: int) {
        Data::lemma_round_trip(m.data, s, at);
    }

    fn is_encodable(&self) -> (r: bool) {
        self.data.is_encodable()
    }

    fn write(&self, out: &mut Vec<u8>) {
        self.data.write(out);
        assert(out@ =~= old(out)@ + Self::wire(self.deep_view()));
    }
}

impl BlockLength for ControlMessageResponse {
    open spec fn fixed_length() -> nat {
        Data::fixed_length()
    }

    fn block_length() -> (n: u16) {
        Data::block_length()
    }
}

impl Message for ControlMessageResponse {
    open spec fn spec_template_id() -> u16 {
        11
    }

    open spec fn spec_schema_id() -> u16 {
        0
    }

    open spec fn spec_version() -> u16 {
        1
    }

    fn template_id() -> (r: u16) {
        11
    }

    fn schema_id() -> (r: u16) {
        0
    }

    fn version() -> (r: u16) {
        1
    }
}

/// A command on one partition of a topic.
#[derive(Debug, PartialEq, Eq, Default)]
pub struct ExecuteCommandRequest {
    pub partition_id: u16,
    pub key: u64,
    pub event_type: EventType,
    pub topic_name: String,
    pub command: Data,
}

/// The model of `ExecuteCommandRequest`.
pub struct ExecuteCommandRequestView {
    pub partition_id: u16,
    pub key: u64,
    pub event_type: EventType,
    pub topic_name: Seq<char>,
    pub command: Seq<u8>,
}

impl DeepView for ExecuteCommandRequest {
    type V = ExecuteCommandRequestView;

    open spec fn deep_view(&self) -> ExecuteCommandRequestView {
        ExecuteCommandRequestView {
            partition_id: self.partition_id,
            key: self.key,
            event_type: self.event_type,
            topic_name: self.topic_name.deep_view(),
            command: self.command.deep_view(),
        }
    }
}

impl FromBytes for ExecuteCommandRequest {
    /// The fields in the order of their declaration.
    open spec fn parse(s: Seq<u8>, at: int) -> Result<(ExecuteCommandRequestView, int), Failure> {
        match u16::parse(s, at) {
            Err(e) => Err(e),
            Ok((partition_id, at)) => match u64::parse(s, at) {
                Err(e) => Err(e),
                Ok((key, at)) => match EventType::parse(s, at) {
                    Err(e) => Err(e),
                    Ok((event_type, at)) => match String::parse(s, at) {
                        Err(e) => Err(e),
                        Ok((topic_name, at)) => match Data::parse(s, at) {
                            Err(e) => Err(e),
                            Ok((command, at)) => Ok((
                                ExecuteCommandRequestView {
                                    partition_id,
                                    key,
                                    event_type,
                                    topic_name,
                                    command,
                                },
                                at,
                            )),
                        },
                    },
                },
            },
        }
    }

    fn read_at(buf: &[u8], at: usize) -> (r: Result<(Self, usize), Stop>) {
        let (partition_id, at) = u16::read_at(buf, at)?;
        let (key, at) = u64::read_at(buf, at)?;
        let (event_type, at) = EventType::read_at(buf, at)?;
        let (topic_name, at) = String::read_at(buf, at)?;
        let (command, at) = Data::read_at(buf, at)?;
        Ok((ExecuteCommandRequest { partition_id, key, event_type, topic_name, command }, at))
    }
}

impl ToBytes for ExecuteCommandRequest {
    open spec fn wire(m: ExecuteCommandRequestView) -> Seq<u8> {
        u16::wire(m.partition_id)
            + u64::wire(m.key)
            + EventType::wire(m.event_type)
            + String::wire(m.topic_name)
            + Data::wire(m.command)
    }

    open spec fn encodable(m: ExecuteCommandRequestView) -> bool {
        String::encodable(m.topic_name) && Data::encodable(m.command)
    }

    proof fn lemma_round_trip(m: ExecuteCommandRequestView, s: Seq<u8>, at: int) {
        let w0 = u16::wire(m.partition_id);
        let w1 = u64::wire(m.key);
        let w2 = EventType::wire(m.event_type);
        let w3 = String::wire(m.topic_name);
        let w4 = Data::wire(m.command);
        let a0 = w0;
        let a1 = a0 + w1;
        let a2 = a1 + w2;
        let a3 = a2 + w3;
        let b3 = w4;
        let b2 = w3 + b3;
        let b1 = w2 + b2;
        let b0 = w1 + b1;
        lemma_last_stands(s, at, a3, w4);
        lemma_part_stands(s, at, a2, w3, b3);
        lemma_concat_assoc(a2, w3, b3);
        lemma_part_stands(s, at, a1, w2, b2);
        lemma_concat_assoc(a1, w2, b2);
        lemma_part_stands(s, at, a0, w1, b1);
        lemma_concat_assoc(a0, w1, b1);
        lemma_first_stands(s, at, w0, b0);
        u16::lemma_round_trip(m.partition_id, s, at);
        u64::lemma_round_trip(m.key, s, at + a0.len());
        EventType::lemma_round_trip(m.event_type, s, at + a1.len());
        String::lemma_round_trip(m.topic_name, s, at + a2.len());
        Data::lemma_round_trip(m.command, s, at + a3.len());
    }

    fn is_encodable(&self) -> (r: bool) {
        self.topic_name.is_encodable() && self.command.is_encodable()
    }

    fn write(&self, out: &mut Vec<u8>) {
        self.partition_id.write(out);
        self.key.write(out);
        self.event_type.write(out);
        self.topic_name.write(out);
        self.command.write(out);
        assert(out@ =~= old(out)@ + Self::wire(self.deep_view()));
    }
}

impl BlockLength for ExecuteCommandRequest {
    open spec fn fixed_length() -> nat {
        u16::fixed_length()
            + u64::fixed_length()
            + EventType::fixed_length()
            + String::fixed_length()
            + Data::fixed_length()
    }

    fn block_length() -> (n: u16) {
        u16::block_length()
            + u64::block_length()
            + EventType::block_length()
            + String::block_length()
            + Data::block_length()
    }
}

impl Message for ExecuteCommandRequest {
    open spec fn spec_template_id() -> u16 {
        20
    }

    open spec fn spec_schema_id() -> u16 {
        0
    }

    open spec fn spec_version() -> u16 {
        1
    }

    fn template_id() -> (r: u16) {
        20
    }

    fn schema_id() -> (r: u16) {
        0
    }

    fn version() -> (r: u16) {
        1
    }
}

/// The event that a command led to.
#[derive(Debug, PartialEq, Eq, Default)]
pub struct ExecuteCommandResponse {
    pub partition_id: u16,
    pub key: u64,
    pub topic_name: String,
    pub event: Data,
}

/// The model of `ExecuteCommandResponse`.
pub struct ExecuteCommandResponseView {
    pub partition_id: u16,
    pub key: u64,
    pub topic_name: Seq<char>,
    pub event: Seq<u8>,
}

impl DeepView for ExecuteCommandResponse {
    type V = ExecuteCommandResponseView;

    open spec fn deep_view(&self) -> ExecuteCommandResponseView {
        ExecuteCommandResponseView {
            partition_id: self.partition_id,
            key: self.key,
            topic_name: self.topic_name.deep_view(),
            event: self.event.deep_view(),
        }
    }
}

impl FromBytes for ExecuteCommandResponse {
    /// The fields in the order of their declaration.
    open spec fn parse(s: Seq<u8>, at: int) -> Result<(ExecuteCommandResponseView, int), Failure> {
        match u16::parse(s, at) {
            Err(e) => Err(e),
            Ok((partition_id, at)) => match u64::parse(s, at) {
                Err(e) => Err(e),
                Ok((key, at)) => match String::parse(s, at) {
                    Err(e) => Err(e),
                    Ok((topic_name, at)) => match Data::parse(s, at) {
                        Err(e) => Err(e),
                        Ok((event, at)) => Ok((
                            ExecuteCommandResponseView {
                                partition_id,
                                key,
                                topic_name,
                                event,
                            },
                            at,
                        )),
                    },
                },
            },
        }
    }

    fn read_at(buf: &[u8], at: usize) -> (r: Result<(Self, usize), Stop>) {
        let (partition_id, at) = u16::read_at(buf, at)?;
        let (key, at) = u64::read_at(buf, at)?;
        let (topic_name, at) = String::read_at(buf, at)?;
        let (event, at) = Data::read_at(buf, at)?;
        Ok((ExecuteCommandResponse { partition_id, key, topic_name, event }, at))
    }
}

impl ToBytes for ExecuteCommandResponse {
    open spec fn wire(m: ExecuteCommandResponseView) -> Seq<u8> {
        u16::wire(m.partition_id)
            + u64::wire(m.key)
            + String::wire(m.topic_name)
            + Data::wire(m.event)
    }

    open spec fn encodable(m: ExecuteCommandResponseView) -> bool {
        String::encodable(m.topic_name) && Data::encodable(m.event)
    }

    proof fn lemma_round_trip(m: ExecuteCommandResponseView, s: Seq<u8>, at: int) {
        let w0 = u16::wire(m.partition_id);
        let w1 = u64::wire(m.key);
        let w2 = String::wire(m.topic_name);
        let w3 = Data::wire(m.event);
        let a0 = w0;
        let a1 = a0 + w1;
        let a2 = a1 + w2;
        let b2 = w3;
        let b1 = w2 + b2;
        let b0 = w1 + b1;
        lemma_last_stands(s, at, a2, w3);
        lemma_part_stands(s, at, a1, w2, b2);
        lemma_concat_assoc(a1, w2, b2);
        lemma_part_stands(s, at, a0, w1, b1);
        lemma_concat_assoc(a0, w1, b1);
        lemma_first_stands(s, at, w0, b0);
        u16::lemma_round_trip(m.partition_id, s, at);
        u64::lemma_round_trip(m.key, s, at + a0.len());
        String::lemma_round_trip(m.topic_name, s, at + a1.len());
        Data::lemma_round_trip(m.event, s, at + a2.len());
    }

    fn is_encodable(&self) -> (r: bool) {
        self.topic_name.is_encodable() && self.event.is_encodable()
    }

    fn write(&self, out: &mut Vec<u8>) {
        self.partition_id.write(out);
        self.key.write(out);
        self.topic_name.write(out);
        self.event.write(out);
        assert(out@ =~= old(out)@ + Self::wire(self.deep_view()));
    }
}

impl BlockLength for ExecuteCommandResponse {
    open spec fn fixed_length() -> nat {
        u16::fixed_length()
            + u64::fixed_length()
            + String::fixed_length()
            + Data::fixed_length()
    }

    fn block_length() -> (n: u16) {
        u16::block_length()
            + u64::block_length()
            + String::block_length()
            + Data::block_length()
    }
}

impl Message for ExecuteCommandResponse {
    open spec fn spec_template_id() -> u16 {
        21
    }

    open spec fn spec_schema_id() -> u16 {
        0
    }

    open spec fn spec_version() -> u16 {
        1
    }

    fn template_id() -> (r: u16) {
        21
    }

    fn schema_id() -> (r: u16) {
        0
    }

    fn version() -> (r: u16) {
        1
    }
}

/// An event pushed to a subscriber.
#[derive(Debug, PartialEq, Eq, Default)]
pub struct SubscribedEvent {
    pub partition_id: u16,
    pub position: u64,
    pub key: u64,
    pub subscriber_key: u64,
    pub subscription_type: SubscriptionType,
    pub event_type: EventType,
    pub topic_name: String,
    pub event: Data,
}

/// The model of `SubscribedEvent`.
pub struct SubscribedEventView {
    pub partition_id: u16,
    pub position: u64,
    pub key: u64,
    pub subscriber_key: u64,
    pub subscription_type: SubscriptionType,
    pub event_type: EventType,
    pub topic_name: Seq<char>,
    pub event: Seq<u8>,
}

impl DeepView for SubscribedEvent {
    type V = SubscribedEventView;

    open spec fn deep_view(&self) -> SubscribedEventView {
        SubscribedEventView {
            partition_id: self.partition_id,
            position: self.position,
            key: self.key,
            subscriber_key: self.subscriber_key,
            subscription_type: self.subscription_type,
            event_type: self.event_type,
            topic_name: self.topic_name.deep_view(),
            event: self.event.deep_view(),
        }
    }
}

impl FromBytes for SubscribedEvent {
    /// The fields in the order of their declaration.
    open spec fn parse(s: Seq<u8>, at: int) -> Result<(SubscribedEventView, int), Failure> {
        match u16::parse(s, at) {
            Err(e) => Err(e),
            Ok((partition_id, at)) => match u64::parse(s, at) {
                Err(e) => Err(e),
                Ok((position, at)) => match u64::parse(s, at) {
                    Err(e) => Err(e),
                    Ok((key, at)) => match u64::parse(s, at) {
                        Err(e) => Err(e),
                        Ok((subscriber_key, at)) => match SubscriptionType::parse(s, at) {
                            Err(e) => Err(e),
                            Ok((subscription_type, at)) => match EventType::parse(s, at) {
                                Err(e) => Err(e),
                                Ok((event_type, at)) => match String::parse(s, at) {
                                    Err(e) => Err(e),
                                    Ok((topic_name, at)) => match Data::parse(s, at) {
                                        Err(e) => Err(e),
                                        Ok((event, at)) => Ok((
                                            SubscribedEventView {
                                                partition_id,
                                                position,
                                                key,
                                                subscriber_key,
                                                subscription_type,
                                                event_type,
                                                topic_name,
                                                event,
                                            },
                                            at,
                                        )),
                                    },
                                },
                            },
                        },
                    },
                },
            },
        }
    }

    fn read_at(buf: &[u8], at: usize) -> (r: Result<(Self, usize), Stop>) {
        let (partition_id, at) = u16::read_at(buf, at)?;
        let (position, at) = u64::read_at(buf, at)?;
        let (key, at) = u64::read_at(buf, at)?;
        let (subscriber_key, at) = u64::read_at(buf, at)?;
        let (subscription_type, at) = SubscriptionType::read_at(buf, at)?;
        let (event_type, at) = EventType::read_at(buf, at)?;
        let (topic_name, at) = String::read_at(buf, at)?;
        let (event, at) = Data::read_at(buf, at)?;
        Ok((
            SubscribedEvent {
                partition_id,
                position,
                key,
                subscriber_key,
                subscription_type,
                event_type,
                topic_name,
                event,
            },
            at,
        ))
    }
}

impl ToBytes for SubscribedEvent {
    open spec fn wire(m: SubscribedEventView) -> Seq<u8> {
        u16::wire(m.partition_id)
            + u64::wire(m.position)
            + u64::wire(m.key)
            + u64::wire(m.subscriber_key)
            + SubscriptionType::wire(m.subscription_type)
            + EventType::wire(m.event_type)
            + String::wire(m.topic_name)
            + Data::wire(m.event)
    }

    open spec fn encodable(m: SubscribedEventView) -> bool {
        String::encodable(m.topic_name) && Data::encodable(m.event)
    }

    proof fn lemma_round_trip(m: SubscribedEventView, s: Seq<u8>, at: int) {
        let w0 = u16::wire(m.partition_id);
        let w1 = u64::wire(m.position);
        let w2 = u64::wire(m.key);
        let w3 = u64::wire(m.subscriber_key);
        let w4 = SubscriptionType::wire(m.subscription_type);
        let w5 = EventType::wire(m.event_type);
        let w6 = String::wire(m.topic_name);
        let w7 = Data::wire(m.event);
        let a0 = w0;
        let a1 = a0 + w1;
        let a2 = a1 + w2;
        let a3 = a2 + w3;
        let a4 = a3 + w4;
        let a5 = a4 + w5;
        let a6 = a5 + w6;
        let b6 = w7;
        let b5 = w6 + b6;
        let b4 = w5 + b5;
        let b3 = w4 + b4;
        let b2 = w3 + b3;
        let b1 = w2 + b2;
        let b0 = w1 + b1;
        lemma_last_stands(s, at, a6, w7);
        lemma_part_stands(s, at, a5, w6, b6);
        lemma_concat_assoc(a5, w6, b6);
        lemma_part_stands(s, at, a4, w5, b5);
        lemma_concat_assoc(a4, w5, b5);
        lemma_part_stands(s, at, a3, w4, b4);
        lemma_concat_assoc(a3, w4, b4);
        lemma_part_stands(s, at, a2, w3, b3);
        lemma_concat_assoc(a2, w3, b3);
        lemma_part_stands(s, at, a1, w2, b2);
        lemma_concat_assoc(a1, w2, b2);
        lemma_part_stands(s, at, a0, w1, b1);
        lemma_concat_assoc(a0, w1, b1);
        lemma_first_stands(s, at, w0, b0);
        u16::lemma_round_trip(m.partition_id, s, at);
        u64::lemma_round_trip(m.position, s, at + a0.len());
        u64::lemma_round_trip(m.key, s, at + a1.len());
        u64::lemma_round_trip(m.subscriber_key, s, at + a2.len());
        SubscriptionType::lemma_round_trip(m.subscription_type, s, at + a3.len());
        EventType::lemma_round_trip(m.event_type, s, at + a4.len());
        String::lemma_round_trip(m.topic_name, s, at + a5.len());
        Data::lemma_round_trip(m.event, s, at + a6.len());
    }

    fn is_encodable(&self) -> (r: bool) {
        self.topic_name.is_encodable() && self.event.is_encodable()
    }

    fn write(&self, out: &mut Vec<u8>) {
        self.partition_id.write(out);
        self.position.write(out);
        self.key.write(out);
        self.subscriber_key.write(out);
        self.subscription_type.write(out);
        self.event_type.write(out);
        self.topic_name.write(out);
        self.event.write(out);
        assert(out@ =~= old(out)@ + Self::wire(self.deep_view()));
    }
}

impl BlockLength for SubscribedEvent {
    open spec fn fixed_length() -> nat {
        u16::fixed_length()
            + u64::fixed_length()
            + u64::fixed_length()
            + u64::fixed_length()
            + SubscriptionType::fixed_length()
            + EventType::fixed_length()
            + String::fixed_length()
            + Data::fixed_length()
    }

    fn block_length() -> (n: u16) {
        u16::block_length()
            + u64::block_length()
            + u64::block_length()
            + u64::block_length()
            + SubscriptionType::block_length()
            + EventType::block_length()
            + String::block_length()
            + Data::block_length()
    }
}

impl Message for SubscribedEvent {
    open spec fn spec_template_id() -> u16 {
        30
    }

    open spec fn spec_schema_id() -> u16 {
        0
    }

    open spec fn spec_version() -> u16 {
        1
    }

    fn template_id() -> (r: u16) {
        30
    }

    fn schema_id() -> (r: u16) {
        0
    }

    fn version() -> (r: u16) {
        1
    }
}

/// What the broker records with every event in its log.
#[derive(Debug, Clone, Copy, PartialEq, Eq, Structural, Default)]
pub struct BrokerEventMetadata {
    pub req_channel_id: i32,
    pub req_connection_id: u64,
    pub req_request_id: u64,
    pub raft_term_id: i32,
    pub subscription_id: u64,
    pub protocol_version: u16,
    pub event_type: EventType,
    pub incident_key: u64,
}

impl DeepView for BrokerEventMetadata {
    type V = BrokerEventMetadata;

    open spec fn deep_view(&self) -> BrokerEventMetadata {
        *self
    }
}

impl FromBytes for BrokerEventMetadata {
    /// The fields in the order of their declaration.
    open spec fn parse(s: Seq<u8>, at: int) -> Result<(BrokerEventMetadata, int), Failure> {
        match i32::parse(s, at) {
            Err(e) => Err(e),
            Ok((req_channel_id, at)) => match u64::parse(s, at) {
                Err(e) => Err(e),
                Ok((req_connection_id, at)) => match u64::parse(s, at) {
                    Err(e) => Err(e),
                    Ok((req_request_id, at)) => match i32::parse(s, at) {
                        Err(e) => Err(e),
                        Ok((raft_term_id, at)) => match u64::parse(s, at) {
                            Err(e) => Err(e),
                            Ok((subscription_id, at)) => match u16::parse(s, at) {
                                Err(e) => Err(e),
                                Ok((protocol_version, at)) => match EventType::parse(s, at) {
                                    Err(e) => Err(e),
                                    Ok((event_type, at)) => match u64::parse(s, at) {
                                        Err(e) => Err(e),
                                        Ok((incident_key, at)) => Ok((
                                            BrokerEventMetadata {
                                                req_channel_id,
                                                req_connection_id,
                                                req_request_id,
                                                raft_term_id,
                                                subscription_id,
                                                protocol_version,
                                                event_type,
                                                incident_key,
                                            },
                                            at,
                                        )),
                                    },
                                },
                            },
                        },
                    },
                },
            },
        }
    }

    fn read_at(buf: &[u8], at: usize) -> (r: Result<(Self, usize), Stop>) {
        let (req_channel_id, at) = i32::read_at(buf, at)?;
        let (req_connection_id, at) = u64::read_at(buf, at)?;
        let (req_request_id, at) = u64::read_at(buf, at)?;
        let (raft_term_id, at) = i32::read_at(buf, at)?;
        let (subscription_id, at) = u64::read_at(buf, at)?;
        let (protocol_version, at) = u16::read_at(buf, at)?;
        let (event_type, at) = EventType::read_at(buf, at)?;
        let (incident_key, at) = u64::read_at(buf, at)?;
        Ok((
            BrokerEventMetadata {
                req_channel_id,
                req_connection_id,
                req_request_id,
                raft_term_id,
                subscription_id,
                protocol_version,
                event_type,
                incident_key,
            },
            at,
        ))
    }
}

impl ToBytes for BrokerEventMetadata {
    open spec fn wire(m: BrokerEventMetadata) -> Seq<u8> {
        i32::wire(m.req_channel_id)
            + u64::wire(m.req_connection_id)
            + u64::wire(m.req_request_id)
            + i32::wire(m.raft_term_id)
            + u64::wire(m.subscription_id)
            + u16::wire(m.protocol_version)
            + EventType::wire(m.event_type)
            + u64::wire(m.incident_key)
    }

    open spec fn encodable(m: BrokerEventMetadata) -> bool {
        true
    }

    proof fn lemma_round_trip(m: BrokerEventMetadata, s: Seq<u8>, at: int) {
        let w0 = i32::wire(m.req_channel_id);
        let w1 = u64::wire(m.req_connection_id);
        let w2 = u64::wire(m.req_request_id);
        let w3 = i32::wire(m.raft_term_id);
        let w4 = u64::wire(m.subscription_id);
        let w5 = u16::wire(m.protocol_version);
        let w6 = EventType::wire(m.event_type);
        let w7 = u64::wire(m.incident_key);
        let a0 = w0;
        let a1 = a0 + w1;
        let a2 = a1 + w2;
        let a3 = a2 + w3;
        let a4 = a3 + w4;
        let a5 = a4 + w5;
        let a6 = a5 + w6;
        let b6 = w7;
        let b5 = w6 + b6;
        let b4 = w5 + b5;
        let b3 = w4 + b4;
        let b2 = w3 + b3;
        let b1 = w2 + b2;
        let b0 = w1 + b1;
        lemma_last_stands(s, at, a6, w7);
        lemma_part_stands(s, at, a5, w6, b6);
        lemma_concat_assoc(a5, w6, b6);
        lemma_part_stands(s, at, a4, w5, b5);
        lemma_concat_assoc(a4, w5, b5);
        lemma_part_stands(s, at, a3, w4, b4);
        lemma_concat_assoc(a3, w4, b4);
        lemma_part_stands(s, at, a2, w3, b3);
        lemma_concat_assoc(a2, w3, b3);
        lemma_part_stands(s, at, a1, w2, b2);
        lemma_concat_assoc(a1, w2, b2);
        lemma_part_stands(s, at, a0, w1, b1);
        lemma_concat_assoc(a0, w1, b1);
        lemma_first_stands(s, at, w0, b0);
        i32::lemma_round_trip(m.req_channel_id, s, at);
        u64::lemma_round_trip(m.req_connection_id, s, at + a0.len());
        u64::lemma_round_trip(m.req_request_id, s, at + a1.len());
        i32::lemma_round_trip(m.raft_term_id, s, at + a2.len());
        u64::lemma_round_trip(m.subscription_id, s, at + a3.len());
        u16::lemma_round_trip(m.protocol_version, s, at + a4.len());
        EventType::lemma_round_trip(m.event_type, s, at + a5.len());
        u64::lemma_round_trip(m.incident_key, s, at + a6.len());
    }

    fn is_encodable(&self) -> (r: bool) {
        true
    }

    fn write(&self, out: &mut Vec<u8>) {
        self.req_channel_id.write(out);
        self.req_connection_id.write(out);
        self.req_request_id.write(out);
        self.raft_term_id.write(out);
        self.subscription_id.write(out);
        self.protocol_version.write(out);
        self.event_type.write(out);
        self.incident_key.write(out);
        assert(out@ =~= old(out)@ + Self::wire(self.deep_view()));
    }
}

impl BlockLength for BrokerEventMetadata {
    open spec fn fixed_length() -> nat {
        i32::fixed_length()
            + u64::fixed_length()
            + u64::fixed_length()
            + i32::fixed_length()
            + u64::fixed_length()
            + u16::fixed_length()
            + EventType::fixed_length()
            + u64::fixed_length()
    }

    fn block_length() -> (n: u16) {
        i32::block_length()
            + u64::block_length()
            + u64::block_length()
            + i32::block_length()
            + u64::block_length()
            + u16::block_length()
            + EventType::block_length()
            + u64::block_length()
    }
}

impl Message for BrokerEventMetadata {
    open spec fn spec_template_id() -> u16 {
        200
    }

    open spec fn spec_schema_id() -> u16 {
        0
    }

    open spec fn spec_version() -> u16 {
        1
    }

    fn template_id() -> (r: u16) {
        200
    }

    fn schema_id() -> (r: u16) {
        0
    }

    fn version() -> (r: u16) {
        1
    }
}

} // verus!
