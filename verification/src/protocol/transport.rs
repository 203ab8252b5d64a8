//! The headers of the frame layer.

use crate::convert::{
    lemma_concat_assoc, lemma_first_stands, lemma_last_stands, lemma_part_stands, BlockLength,
    FromBytes, Message, ToBytes, ToMessageHeader,
};
use crate::errors::{Failure, Stop};
use vstd::std_specs::convert::FromSpecImpl;
use vstd::prelude::*;

verus! {

/// The outer header of every frame: the number of bytes that follow the header,
/// the frame's type and the stream it belongs to.
#[derive(Debug, Clone, Copy, PartialEq, Eq, Structural, Default)]
pub struct FrameHeader {
    pub length: u32,
    pub version: u8,
    pub flags: u8,
    pub type_id: FrameType,
    pub stream_id: u32,
}

impl DeepView for FrameHeader {
    type V = FrameHeader;

    open spec fn deep_view(&self) -> FrameHeader {
        *self
    }
}

impl FromBytes for FrameHeader {
    /// The fields in the order of their declaration.
    open spec fn parse(s: Seq<u8>, at: int) -> Result<(FrameHeader, int), Failure> {
        match u32::parse(s, at) {
            Err(e) => Err(e),
            Ok((length, at)) => match u8::parse(s, at) {
                Err(e) => Err(e),
                Ok((version, at)) => match u8::parse(s, at) {
                    Err(e) => Err(e),
                    Ok((flags, at)) => match FrameType::parse(s, at) {
                        Err(e) => Err(e),
                        Ok((type_id, at)) => match u32::parse(s, at) {
                            Err(e) => Err(e),
                            Ok((stream_id, at)) => Ok((FrameHeader { length, version, flags, type_id, stream_id }, at)),
                        },
                    },
                },
            },
        }
    }

    fn read_at(buf: &[u8], at: usize) -> (r: Result<(Self, usize), Stop>) {
        let (length, at) = u32::read_at(buf, at)?;
        let (version, at) = u8::read_at(buf, at)?;
        let (flags, at) = u8::read_at(buf, at)?;
        let (type_id, at) = FrameType::read_at(buf, at)?;
        let (stream_id, at) = u32::read_at(buf, at)?;
        Ok((FrameHeader { length, version, flags, type_id, stream_id }, at))
    }
}

impl ToBytes for FrameHeader {
    open spec fn wire(m: FrameHeader) -> Seq<u8> {
        u32::wire(m.length)
            + u8::wire(m.version)
            + u8::wire(m.flags)
            + FrameType::wire(m.type_id)
            + u32::wire(m.stream_id)
    }

    open spec fn encodable(m: FrameHeader) -> bool {
        true
    }

    proof fn lemma_round_trip(m: FrameHeader, s: Seq<u8>, at: int) {
        let w0 = u32::wire(m.length);
        let w1 = u8::wire(m.version);
        let w2 = u8::wire(m.flags);
        let w3 = FrameType::wire(m.type_id);
        let w4 = u32::wire(m.stream_id);
        let a0 = w0;
        let a1 = a0 + w1;
        let a2 = a1 + w2;
        let a3 = a2 + w3;
        let b3 = w4;
        let b2 = w3 + b3;
        let b1 = w2 + b2;
        let b0 = w1 + b1;
        lemma_last_stands(s, at, a3, w4);
        lemma_part_stands(s, at, a2, w3, b3);
        lemma_concat_assoc(a2, w3, b3);
        lemma_part_stands(s, at, a1, w2, b2);
        lemma_concat_assoc(a1, w2, b2);
        lemma_part_stands(s, at, a0, w1, b1);
        lemma_concat_assoc(a0, w1, b1);
        lemma_first_stands(s, at, w0, b0);
        u32::lemma_round_trip(m.length, s, at);
        u8::lemma_round_trip(m.version, s, at + a0.len());
        u8::lemma_round_trip(m.flags, s, at + a1.len());
        FrameType::lemma_round_trip(m.type_id, s, at + a2.len());
        u32::lemma_round_trip(m.stream_id, s, at + a3.len());
    }

    fn is_encodable(&self) -> (r: bool) {
        true
    }

    fn write(&self, out: &mut Vec<u8>) {
        self.length.write(out);
        self.version.write(out);
        self.flags.write(out);
        self.type_id.write(out);
        self.stream_id.write(out);
        assert(out@ =~= old(out)@ + Self::wire(self.deep_view()));
    }
}

impl BlockLength for FrameHeader {
    open spec fn fixed_length() -> nat {
        u32::fixed_length()
            + u8::fixed_length()
            + u8::fixed_length()
            + FrameType::fixed_length()
            + u32::fixed_length()
    }

    fn block_length() -> (n: u16) {
        u32::block_length()
            + u8::block_length()
            + u8::block_length()
            + FrameType::block_length()
            + u32::block_length()
    }
}

/// What a frame carries. Only a `Message` frame has a payload of headers and a
/// message; the others are control frames.
#[derive(Debug, Clone, Copy, PartialEq, Eq, Structural)]
pub enum FrameType {
    Message,
    Padding,
    ControlClose,
    ControlEndOfStream,
    ControlKeepAlive,
    ProtocolControlFrame,
    /// Every discriminant that stands for no other variant.
    Unknown,
}

impl Default for FrameType {
    fn default() -> (r: Self)
        ensures
            r == FrameType::Unknown,
    {
        FrameType::Unknown
    }
}

impl DeepView for FrameType {
    type V = FrameType;

    open spec fn deep_view(&self) -> FrameType {
        *self
    }
}

impl FrameType {
    /// The variant that a discriminant stands for. A value that no variant is
    /// mapped to stands for `Unknown`.
    pub open spec fn of(value: u16) -> FrameType {
        if value == 0 {
            FrameType::Message
        } else if value == 1 {
            FrameType::Padding
        } else if value == 100 {
            FrameType::ControlClose
        } else if value == 101 {
            FrameType::ControlEndOfStream
        } else if value == 102 {
            FrameType::ControlKeepAlive
        } else if value == 103 {
            FrameType::ProtocolControlFrame
        } else {
            FrameType::Unknown
        }
    }

    /// The discriminant that a variant is written as. `Unknown` is written as
    /// the largest value of the discriminant's type.
    pub open spec fn discriminant(self) -> u16 {
        match self {
            FrameType::Message => 0,
            FrameType::Padding => 1,
            FrameType::ControlClose => 100,
            FrameType::ControlEndOfStream => 101,
            FrameType::ControlKeepAlive => 102,
            FrameType::ProtocolControlFrame => 103,
            FrameType::Unknown => 0xFFFF,
        }
    }

    /// Every discriminant stands for a variant, and never for more than it
    /// says: one that no variant is written as stands for `Unknown`, any other
    /// for the variant that is written as it, and what `Unknown` is written as
    /// stands for `Unknown`.
    pub proof fn lemma_of_discriminant(value: u16)
        ensures
            Self::of(value) != FrameType::Unknown ==> Self::of(value).discriminant()
                == value,
            (forall|v: FrameType|
                v != FrameType::Unknown ==> #[trigger] v.discriminant() != value) ==> Self::of(value)
                == FrameType::Unknown,
            forall|v: FrameType| Self::of(#[trigger] v.discriminant()) == v,
    {
        if Self::of(value) != FrameType::Unknown {
            assert(Self::of(value).discriminant() == value);
        }
    }

    /// The variant that a discriminant stands for.
    pub fn from_discriminant(value: u16) -> (r: Self)
        ensures
            r == Self::of(value),
    {
        if value == 0 {
            FrameType::Message
        } else if value == 1 {
            FrameType::Padding
        } else if value == 100 {
            FrameType::ControlClose
        } else if value == 101 {
            FrameType::ControlEndOfStream
        } else if value == 102 {
            FrameType::ControlKeepAlive
        } else if value == 103 {
            FrameType::ProtocolControlFrame
        } else {
            FrameType::Unknown
        }
    }

    /// The discriminant that the variant is written as.
    pub fn to_discriminant(&self) -> (r: u16)
        ensures
            r == self.discriminant(),
    {
        match self {
            FrameType::Message => 0,
            FrameType::Padding => 1,
            FrameType::ControlClose => 100,
            FrameType::ControlEndOfStream => 101,
            FrameType::ControlKeepAlive => 102,
            FrameType::ProtocolControlFrame => 103,
            FrameType::Unknown => 0xFFFF,
        }
    }
}

impl FromBytes for FrameType {
    /// An enumeration is its discriminant. Every discriminant decodes.
    open spec fn parse(s: Seq<u8>, at: int) -> Result<(FrameType, int), Failure> {
        match u16::parse(s, at) {
            Err(e) => Err(e),
            Ok((value, next)) => Ok((FrameType::of(value), next)),
        }
    }

    fn read_at(buf: &[u8], at: usize) -> (r: Result<(Self, usize), Stop>) {
        let (value, next) = u16::read_at(buf, at)?;
        Ok((FrameType::from_discriminant(value), next))
    }
}

impl ToBytes for FrameType {
    open spec fn wire(m: FrameType) -> Seq<u8> {
        u16::wire(m.discriminant())
    }

    open spec fn encodable(m: FrameType) -> bool {
        true
    }

    proof fn lemma_round_trip(m: FrameType, s: Seq<u8>, at: int) {
        u16::lemma_round_trip(m.discriminant(), s, at);
    }

    fn is_encodable(&self) -> (r: bool) {
        true
    }

    fn write(&self, out: &mut Vec<u8>) {
        self.to_discriminant().write(out);
    }
}

impl BlockLength for FrameType {
    open spec fn fixed_length() -> nat {
        u16::fixed_length()
    }

    fn block_length() -> (n: u16) {
        u16::block_length()
    }
}

/// The header that selects the transport protocol of a message frame.
#[derive(Debug, Clone, Copy, PartialEq, Eq, Structural, Default)]
pub struct TransportHeader {
    pub protocol_id: TransportProtocol,
}

impl DeepView for TransportHeader {
    type V = TransportHeader;

    open spec fn deep_view(&self) -> TransportHeader {
        *self
    }
}

impl FromBytes for TransportHeader {
    /// The fields in the order of their declaration.
    open spec fn parse(s: Seq<u8>, at: int) -> Result<(TransportHeader, int), Failure> {
        match TransportProtocol::parse(s, at) {
            Err(e) => Err(e),
            Ok((protocol_id, at)) => Ok((TransportHeader { protocol_id }, at)),
        }
    }

    fn read_at(buf: &[u8], at: usize) -> (r: Result<(Self, usize), Stop>) {
        let (protocol_id, at) = TransportProtocol::read_at(buf, at)?;
        Ok((TransportHeader { protocol_id }, at))
    }
}

impl ToBytes for TransportHeader {
    open spec fn wire(m: TransportHeader) -> Seq<u8> {
        TransportProtocol::wire(m.protocol_id)
    }

    open spec fn encodable(m: TransportHeader) -> bool {
        true
    }

    proof fn lemma_round_trip(m: TransportHeader, s: Seq<u8>, at: int) {
        TransportProtocol::lemma_round_trip(m.protocol_id, s, at);
    }

    fn is_encodable(&self) -> (r: bool) {
        true
    }

    fn write(&self, out: &mut Vec<u8>) {
        self.protocol_id.write(out);
        assert(out@ =~= old(out)@ + Self::wire(self.deep_view()));
    }
}

impl BlockLength for TransportHeader {
    open spec fn fixed_length() -> nat {
        TransportProtocol::fixed_length()
    }

    fn block_length() -> (n: u16) {
        TransportProtocol::block_length()
    }
}

/// The transport protocol of a message frame.
#[derive(Debug, Clone, Copy, PartialEq, Eq, Structural)]
pub enum TransportProtocol {
    RequestResponse,
    FullDuplexSingleMessage,
    /// Every discriminant that stands for no other variant.
    Unknown,
}

impl Default for TransportProtocol {
    fn default() -> (r: Self)
        ensures
            r == TransportProtocol::Unknown,
    {
        TransportProtocol::Unknown
    }
}

impl DeepView for TransportProtocol {
    type V = TransportProtocol;

    open spec fn deep_view(&self) -> TransportProtocol {
        *self
    }
}

impl TransportProtocol {
    /// The variant that a discriminant stands for. A value that no variant is
    /// mapped to stands for `Unknown`.
    pub open spec fn of(value: u16) -> TransportProtocol {
        if value == 0 {
            TransportProtocol::RequestResponse
        } else if value == 1 {
            TransportProtocol::FullDuplexSingleMessage
        } else {
            TransportProtocol::Unknown
        }
    }

    /// The discriminant that a variant is written as. `Unknown` is written as
    /// the largest value of the discriminant's type.
    pub open spec fn discriminant(self) -> u16 {
        match self {
            TransportProtocol::RequestResponse => 0,
            TransportProtocol::FullDuplexSingleMessage => 1,
            TransportProtocol::Unknown => 0xFFFF,
        }
    }

    /// Every discriminant stands for a variant, and never for more than it
    /// says: one that no variant is written as stands for `Unknown`, any other
    /// for the variant that is written as it, and what `Unknown` is written as
    /// stands for `Unknown`.
    pub proof fn lemma_of_discriminant(value: u16)
        ensures
            Self::of(value) != TransportProtocol::Unknown ==> Self::of(value).discriminant()
                == value,
            (forall|v: TransportProtocol|
                v != TransportProtocol::Unknown ==> #[trigger] v.discriminant() != value) ==> Self::of(value)
                == TransportProtocol::Unknown,
            forall|v: TransportProtocol| Self::of(#[trigger] v.discriminant()) == v,
    {
        if Self::of(value) != TransportProtocol::Unknown {
            assert(Self::of(value).discriminant() == value);
        }
    }

    /// The variant that a discriminant stands for.
    pub fn from_discriminant(value: u16) -> (r: Self)
        ensures
            r == Self::of(value),
    {
        if value == 0 {
            TransportProtocol::RequestResponse
        } else if value == 1 {
            TransportProtocol::FullDuplexSingleMessage
        } else {
            TransportProtocol::Unknown
        }
    }

    /// The discriminant that the variant is written as.
    pub fn to_discriminant(&self) -> (r: u16)
        ensures
            r == self.discriminant(),
    {
        match self {
            TransportProtocol::RequestResponse => 0,
            TransportProtocol::FullDuplexSingleMessage => 1,
            TransportProtocol::Unknown => 0xFFFF,
        }
    }
}

impl FromBytes for TransportProtocol {
    /// An enumeration is its discriminant. Every discriminant decodes.
    open spec fn parse(s: Seq<u8>, at: int) -> Result<(TransportProtocol, int), Failure> {
        match u16::parse(s, at) {
            Err(e) => Err(e),
            Ok((value, next)) => Ok((TransportProtocol::of(value), next)),
        }
    }

    fn read_at(buf: &[u8], at: usize) -> (r: Result<(Self, usize), Stop>) {
        let (value, next) = u16::read_at(buf, at)?;
        Ok((TransportProtocol::from_discriminant(value), next))
    }
}

impl ToBytes for TransportProtocol {
    open spec fn wire(m: TransportProtocol) -> Seq<u8> {
        u16::wire(m.discriminant())
    }

    open spec fn encodable(m: TransportProtocol) -> bool {
        true
    }

    proof fn lemma_round_trip(m: TransportProtocol, s: Seq<u8>, at: int) {
        u16::lemma_round_trip(m.discriminant(), s, at);
    }

    fn is_encodable(&self) -> (r: bool) {
        true
    }

    fn write(&self, out: &mut Vec<u8>) {
        self.to_discriminant().write(out);
    }
}

impl BlockLength for TransportProtocol {
    open spec fn fixed_length() -> nat {
        u16::fixed_length()
    }

    fn block_length() -> (n: u16) {
        u16::block_length()
    }
}

/// The header of a request or of its response: the connection, and the id by
/// which the two are matched.
#[derive(Debug, Clone, Copy, PartialEq, Eq, Structural, Default)]
pub struct RequestResponseHeader {
    pub connection_id: u64,
    pub request_id: u64,
}

impl DeepView for RequestResponseHeader {
    type V = RequestResponseHeader;

    open spec fn deep_view(&self) -> RequestResponseHeader {
        *self
    }
}

impl FromBytes for RequestResponseHeader {
    /// The fields in the order of their declaration.
    open spec fn parse(s: Seq<u8>, at: int) -> Result<(RequestResponseHeader, int), Failure> {
        match u64::parse(s, at) {
            Err(e) => Err(e),
            Ok((connection_id, at)) => match u64::parse(s, at) {
                Err(e) => Err(e),
                Ok((request_id, at)) => Ok((RequestResponseHeader { connection_id, request_id }, at)),
            },
        }
    }

    fn read_at(buf: &[u8], at: usize) -> (r: Result<(Self, usize), Stop>) {
        let (connection_id, at) = u64::read_at(buf, at)?;
        let (request_id, at) = u64::read_at(buf, at)?;
        Ok((RequestResponseHeader { connection_id, request_id }, at))
    }
}

impl ToBytes for RequestResponseHeader {
    open spec fn wire(m: RequestResponseHeader) -> Seq<u8> {
        u64::wire(m.connection_id)
            + u64::wire(m.request_id)
    }

    open spec fn encodable(m: RequestResponseHeader) -> bool {
        true
    }

    proof fn lemma_round_trip(m: RequestResponseHeader, s: Seq<u8>, at: int) {
        let w0 = u64::wire(m.connection_id);
        let w1 = u64::wire(m.request_id);
        let a0 = w0;
        let b0 = w1;
        lemma_last_stands(s, at, a0, w1);
        lemma_first_stands(s, at, w0, b0);
        u64::lemma_round_trip(m.connection_id, s, at);
        u64::lemma_round_trip(m.request_id, s, at + a0.len());
    }

    fn is_encodable(&self) -> (r: bool) {
        true
    }

    fn write(&self, out: &mut Vec<u8>) {
        self.connection_id.write(out);
        self.request_id.write(out);
        assert(out@ =~= old(out)@ + Self::wire(self.deep_view()));
    }
}

impl BlockLength for RequestResponseHeader {
    open spec fn fixed_length() -> nat {
        u64::fixed_length()
            + u64::fixed_length()
    }

    fn block_length() -> (n: u16) {
        u64::block_length()
            + u64::block_length()
    }
}

/// The header of a message that is no request and no response. It is empty.
#[derive(Debug, Clone, Copy, PartialEq, Eq, Structural, Default)]
pub struct SingleMessageHeader {}

impl DeepView for SingleMessageHeader {
    type V = SingleMessageHeader;

    open spec fn deep_view(&self) -> SingleMessageHeader {
        *self
    }
}

impl FromBytes for SingleMessageHeader {
    /// No byte at all.
    open spec fn parse(s: Seq<u8>, at: int) -> Result<(SingleMessageHeader, int), Failure> {
        Ok((SingleMessageHeader {}, at))
    }

    fn read_at(buf: &[u8], at: usize) -> (r: Result<(Self, usize), Stop>) {
        Ok((SingleMessageHeader {}, at))
    }
}

impl ToBytes for SingleMessageHeader {
    open spec fn wire(m: SingleMessageHeader) -> Seq<u8> {
        Seq::empty()
    }

    open spec fn encodable(m: SingleMessageHeader) -> bool {
        true
    }

    proof fn lemma_round_trip(m: SingleMessageHeader, s: Seq<u8>, at: int) {
    }

    fn is_encodable(&self) -> (r: bool) {
        true
    }

    fn write(&self, out: &mut Vec<u8>) {
        assert(out@ =~= old(out)@ + Self::wire(self.deep_view()));
    }
}

impl BlockLength for SingleMessageHeader {
    open spec fn fixed_length() -> nat {
        0
    }

    fn block_length() -> (n: u16) {
        0
    }
}

/// The header in front of every message: the length of the message's fixed
/// block and the triple that names its type.
#[derive(Debug, Clone, Copy, PartialEq, Eq, Structural, Default)]
pub struct MessageHeader {
    pub block_length: u16,
    pub template_id: u16,
    pub schema_id: u16,
    pub version: u16,
}

impl DeepView for MessageHeader {
    type V = MessageHeader;

    open spec fn deep_view(&self) -> MessageHeader {
        *self
    }
}

impl FromBytes for MessageHeader {
    /// The fields in the order of their declaration.
    open spec fn parse(s: Seq<u8>, at: int) -> Result<(MessageHeader, int), Failure> {
        match u16::parse(s, at) {
            Err(e) => Err(e),
            Ok((block_length, at)) => match u16::parse(s, at) {
                Err(e) => Err(e),
                Ok((template_id, at)) => match u16::parse(s, at) {
                    Err(e) => Err(e),
                    Ok((schema_id, at)) => match u16::parse(s, at) {
                        Err(e) => Err(e),
                        Ok((version, at)) => Ok((MessageHeader { block_length, template_id, schema_id, version }, at)),
                    },
                },
            },
        }
    }

    fn read_at(buf: &[u8], at: usize) -> (r: Result<(Self, usize), Stop>) {
        let (block_length, at) = u16::read_at(buf, at)?;
        let (template_id, at) = u16::read_at(buf, at)?;
        let (schema_id, at) = u16::read_at(buf, at)?;
        let (version, at) = u16::read_at(buf, at)?;
        Ok((MessageHeader { block_length, template_id, schema_id, version }, at))
    }
}

impl ToBytes for MessageHeader {
    open spec fn wire(m: MessageHeader) -> Seq<u8> {
        u16::wire(m.block_length)
            + u16::wire(m.template_id)
            + u16::wire(m.schema_id)
            + u16::wire(m.version)
    }

    open spec fn encodable(m: MessageHeader) -> bool {
        true
    }

    proof fn lemma_round_trip(m: MessageHeader, s: Seq<u8>, at: int) {
        let w0 = u16::wire(m.block_length);
        let w1 = u16::wire(m.template_id);
        let w2 = u16::wire(m.schema_id);
        let w3 = u16::wire(m.version);
        let a0 = w0;
        let a1 = a0 + w1;
        let a2 = a1 + w2;
        let b2 = w3;
        let b1 = w2 + b2;
        let b0 = w1 + b1;
        lemma_last_stands(s, at, a2, w3);
        lemma_part_stands(s, at, a1, w2, b2);
        lemma_concat_assoc(a1, w2, b2);
        lemma_part_stands(s, at, a0, w1, b1);
        lemma_concat_assoc(a0, w1, b1);
        lemma_first_stands(s, at, w0, b0);
        u16::lemma_round_trip(m.block_length, s, at);
        u16::lemma_round_trip(m.template_id, s, at + a0.len());
        u16::lemma_round_trip(m.schema_id, s, at + a1.len());
        u16::lemma_round_trip(m.version, s, at + a2.len());
    }

    fn is_encodable(&self) -> (r: bool) {
        true
    }

    fn write(&self, out: &mut Vec<u8>) {
        self.block_length.write(out);
        self.template_id.write(out);
        self.schema_id.write(out);
        self.version.write(out);
        assert(out@ =~= old(out)@ + Self::wire(self.deep_view()));
    }
}

impl BlockLength for MessageHeader {
    open spec fn fixed_length() -> nat {
        u16::fixed_length()
            + u16::fixed_length()
            + u16::fixed_length()
            + u16::fixed_length()
    }

    fn block_length() -> (n: u16) {
        u16::block_length()
            + u16::block_length()
            + u16::block_length()
            + u16::block_length()
    }
}

impl<T: Message + BlockLength> ToMessageHeader for T {
    open spec fn spec_message_header() -> MessageHeader {
        MessageHeader {
            block_length: T::fixed_length() as u16,
            template_id: T::spec_template_id(),
            schema_id: T::spec_schema_id(),
            version: T::spec_version(),
        }
    }

    fn message_header() -> (r: MessageHeader) {
        MessageHeader {
            block_length: T::block_length(),
            template_id: T::template_id(),
            schema_id: T::schema_id(),
            version: T::version(),
        }
    }
}

impl<'a, T: Message + BlockLength> From<&'a T> for MessageHeader {
    /// The header of a message is the header of its type, whatever the
    /// message holds.
    fn from(message: &'a T) -> (r: Self) {
        T::message_header()
    }
}

impl<'a, T: Message + BlockLength> FromSpecImpl<&'a T> for MessageHeader {
    open spec fn obeys_from_spec() -> bool {
        true
    }

    open spec fn from_spec(message: &'a T) -> MessageHeader {
        T::spec_message_header()
    }
}

} // verus!
