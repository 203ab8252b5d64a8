//! The frame layer: a frame header, and for a message frame the headers of
//! the transport and the message behind it.
//!
//! A frame is decoded header by header. The frame header says what the frame
//! carries; only a message frame carries more than its header. The length in
//! the frame header does not drive the decoding: the headers and the message
//! say themselves how many bytes they take.

use crate::convert::{
    lemma_first_stands, lemma_last_stands, offset_of, Cursor, FromBytes, ToBytes,
};
use crate::errors::{DecodeError, Failure, Stop};
use crate::protocol::message::{MessageBody, MessageBodyView};
use crate::protocol::transport::{
    FrameHeader, FrameType, MessageHeader, RequestResponseHeader, SingleMessageHeader,
    TransportHeader, TransportProtocol,
};
use vstd::prelude::*;

verus! {

/// The header that a transport protocol puts in front of the message header.
#[derive(Debug, Clone, Copy, PartialEq, Eq, Structural)]
pub enum ProtocolHeader {
    RequestResponse(RequestResponseHeader),
    SingleMessage(SingleMessageHeader),
}

impl DeepView for ProtocolHeader {
    type V = ProtocolHeader;

    open spec fn deep_view(&self) -> ProtocolHeader {
        *self
    }
}

impl ProtocolHeader {
    /// The transport protocol that the header belongs to.
    pub open spec fn protocol(self) -> TransportProtocol {
        match self {
            ProtocolHeader::RequestResponse(_) => TransportProtocol::RequestResponse,
            ProtocolHeader::SingleMessage(_) => TransportProtocol::FullDuplexSingleMessage,
        }
    }

    /// The transport header that announces this header.
    pub fn transport(&self) -> (r: TransportHeader)
        ensures
            r == (TransportHeader { protocol_id: self.protocol() }),
    {
        match self {
            ProtocolHeader::RequestResponse(_) => TransportHeader {
                protocol_id: TransportProtocol::RequestResponse,
            },
            ProtocolHeader::SingleMessage(_) => TransportHeader {
                protocol_id: TransportProtocol::FullDuplexSingleMessage,
            },
        }
    }
}

impl FromBytes for ProtocolHeader {
    /// The transport header, and then the header of the protocol that it
    /// selects. A transport header that selects no known protocol is
    /// followed by nothing that could be decoded.
    open spec fn parse(s: Seq<u8>, at: int) -> Result<(ProtocolHeader, int), Failure> {
        match TransportHeader::parse(s, at) {
            Err(e) => Err(e),
            Ok((transport, at)) => match transport.protocol_id {
                TransportProtocol::RequestResponse => match RequestResponseHeader::parse(s, at) {
                    Err(e) => Err(e),
                    Ok((header, at)) => Ok((ProtocolHeader::RequestResponse(header), at)),
                },
                TransportProtocol::FullDuplexSingleMessage => match SingleMessageHeader::parse(
                    s,
                    at,
                ) {
                    Err(e) => Err(e),
                    Ok((header, at)) => Ok((ProtocolHeader::SingleMessage(header), at)),
                },
                TransportProtocol::Unknown => Err((DecodeError::UnknownTransportProtocol, at)),
            },
        }
    }

    fn read_at(buf: &[u8], at: usize) -> (r: Result<(Self, usize), Stop>) {
        let (transport, at) = TransportHeader::read_at(buf, at)?;
        match transport.protocol_id {
            TransportProtocol::RequestResponse => {
                let (header, at) = RequestResponseHeader::read_at(buf, at)?;
                Ok((ProtocolHeader::RequestResponse(header), at))
            },
            TransportProtocol::FullDuplexSingleMessage => {
                let (header, at) = SingleMessageHeader::read_at(buf, at)?;
                Ok((ProtocolHeader::SingleMessage(header), at))
            },
            TransportProtocol::Unknown => Err((DecodeError::UnknownTransportProtocol, at)),
        }
    }
}

impl ToBytes for ProtocolHeader {
    open spec fn wire(m: ProtocolHeader) -> Seq<u8> {
        TransportHeader::wire(TransportHeader { protocol_id: m.protocol() }) + match m {
            ProtocolHeader::RequestResponse(header) => RequestResponseHeader::wire(header),
            ProtocolHeader::SingleMessage(header) => SingleMessageHeader::wire(header),
        }
    }

    open spec fn encodable(m: ProtocolHeader) -> bool {
        true
    }

    proof fn lemma_round_trip(m: ProtocolHeader, s: Seq<u8>, at: int) {
        let transport = TransportHeader { protocol_id: m.protocol() };
        let head = TransportHeader::wire(transport);
        match m {
            ProtocolHeader::RequestResponse(header) => {
                let tail = RequestResponseHeader::wire(header);
                lemma_first_stands(s, at, head, tail);
                lemma_last_stands(s, at, head, tail);
                TransportHeader::lemma_round_trip(transport, s, at);
                RequestResponseHeader::lemma_round_trip(header, s, at + head.len());
            },
            ProtocolHeader::SingleMessage(header) => {
                let tail = SingleMessageHeader::wire(header);
                lemma_first_stands(s, at, head, tail);
                lemma_last_stands(s, at, head, tail);
                TransportHeader::lemma_round_trip(transport, s, at);
                SingleMessageHeader::lemma_round_trip(header, s, at + head.len());
            },
        }
    }

    fn is_encodable(&self) -> (r: bool) {
        true
    }

    fn write(&self, out: &mut Vec<u8>) {
        self.transport().write(out);
        match self {
            ProtocolHeader::RequestResponse(header) => header.write(out),
            ProtocolHeader::SingleMessage(header) => header.write(out),
        }
        assert(out@ =~= old(out)@ + Self::wire(self.deep_view()));
    }
}

/// What a message frame carries behind its frame header: the headers of the
/// transport, and the message behind its own header.
#[derive(Debug, PartialEq, Eq)]
pub struct Payload {
    pub protocol: ProtocolHeader,
    pub message: MessageBody,
}

/// The model of `Payload`.
pub struct PayloadView {
    pub protocol: ProtocolHeader,
    pub message: MessageBodyView,
}

impl DeepView for Payload {
    type V = PayloadView;

    open spec fn deep_view(&self) -> PayloadView {
        PayloadView { protocol: self.protocol, message: self.message.deep_view() }
    }
}

impl FromBytes for Payload {
    /// The headers of the transport, and then the message.
    open spec fn parse(s: Seq<u8>, at: int) -> Result<(PayloadView, int), Failure> {
        match ProtocolHeader::parse(s, at) {
            Err(e) => Err(e),
            Ok((protocol, at)) => match MessageBody::parse(s, at) {
                Err(e) => Err(e),
                Ok((message, at)) => Ok((PayloadView { protocol, message }, at)),
            },
        }
    }

    fn read_at(buf: &[u8], at: usize) -> (r: Result<(Self, usize), Stop>) {
        let (protocol, at) = ProtocolHeader::read_at(buf, at)?;
        let (message, at) = MessageBody::read_at(buf, at)?;
        Ok((Payload { protocol, message }, at))
    }
}

impl ToBytes for Payload {
    open spec fn wire(m: PayloadView) -> Seq<u8> {
        ProtocolHeader::wire(m.protocol) + MessageBody::wire(m.message)
    }

    open spec fn encodable(m: PayloadView) -> bool {
        MessageBody::encodable(m.message)
    }

    proof fn lemma_round_trip(m: PayloadView, s: Seq<u8>, at: int) {
        let head = ProtocolHeader::wire(m.protocol);
        let tail = MessageBody::wire(m.message);
        lemma_first_stands(s, at, head, tail);
        lemma_last_stands(s, at, head, tail);
        ProtocolHeader::lemma_round_trip(m.protocol, s, at);
        MessageBody::lemma_round_trip(m.message, s, at + head.len());
    }

    fn is_encodable(&self) -> (r: bool) {
        self.message.is_encodable()
    }

    fn write(&self, out: &mut Vec<u8>) {
        self.protocol.write(out);
        self.message.write(out);
        assert(out@ =~= old(out)@ + Self::wire(self.deep_view()));
    }
}

impl FrameHeader {
    /// The number of bytes of the whole frame: those of the header and those
    /// that the header announces.
    pub fn message_length(&self) -> (n: u64)
        ensures
            n == 12 + self.length,
    {
        12 + self.length as u64
    }
}

/// A frame: its header, and the payload of a message frame.
#[derive(Debug, PartialEq, Eq)]
pub struct TransportMessage {
    pub frame: FrameHeader,
    pub payload: Option<Payload>,
}

/// The model of `TransportMessage`.
pub struct TransportMessageView {
    pub frame: FrameHeader,
    pub payload: Option<PayloadView>,
}

impl DeepView for TransportMessage {
    type V = TransportMessageView;

    open spec fn deep_view(&self) -> TransportMessageView {
        TransportMessageView { frame: self.frame, payload: self.payload.deep_view() }
    }
}

impl TransportMessage {
    /// What the bytes of `s` from `at` on decode to behind the frame header
    /// `frame`: the payload of a message frame, nothing for a control frame,
    /// and nothing that could be decoded for a frame of an unknown type.
    pub open spec fn parse_payload(frame: FrameHeader, s: Seq<u8>, at: int) -> Result<
        (TransportMessageView, int),
        Failure,
    > {
        match frame.type_id {
            FrameType::Unknown => Err((DecodeError::UnknownFrameType, at)),
            FrameType::Message => match Payload::parse(s, at) {
                Err(e) => Err(e),
                Ok((payload, at)) => Ok(
                    (TransportMessageView { frame, payload: Some(payload) }, at),
                ),
            },
            _ => Ok((TransportMessageView { frame, payload: None }, at)),
        }
    }

    /// Decodes what stands in `buf` at `at` behind the frame header `frame`.
    pub fn read(frame: FrameHeader, buf: &[u8], at: usize) -> (r: Result<
        (TransportMessage, usize),
        Stop,
    >)
        ensures
            match Self::parse_payload(frame, buf@, at as int) {
                Ok((m, next)) => r matches Ok((v, n)) && v.deep_view() == m && n == next,
                Err((e, stop)) => r matches Err((x, p)) && x == e && p == stop,
            },
            r matches Ok((_, n)) ==> (at <= n && (n <= buf@.len() || n == at)),
            r matches Err((_, p)) ==> (at <= p && (p <= buf@.len() || p == at)),
    {
        match frame.type_id {
            FrameType::Unknown => Err((DecodeError::UnknownFrameType, at)),
            FrameType::Message => {
                let (payload, at) = Payload::read_at(buf, at)?;
                Ok((TransportMessage { frame, payload: Some(payload) }, at))
            },
            _ => Ok((TransportMessage { frame, payload: None }, at)),
        }
    }

    /// A request with the message `message` on the stream `stream_id`: a
    /// message frame that does not say yet how long it is, nor which request
    /// it is.
    pub open spec fn request_spec(stream_id: u32, message: MessageBodyView) -> TransportMessageView {
        TransportMessageView {
            frame: FrameHeader {
                length: 0,
                version: 0,
                flags: 0,
                type_id: FrameType::Message,
                stream_id,
            },
            payload: Some(
                PayloadView {
                    protocol: ProtocolHeader::RequestResponse(
                        RequestResponseHeader { connection_id: 0, request_id: 0 },
                    ),
                    message,
                },
            ),
        }
    }

    /// A request with the message `message` on the stream `stream_id`. The
    /// codec gives it its request id and the length of its frame when it is
    /// sent.
    pub fn request(stream_id: u32, message: MessageBody) -> (r: TransportMessage)
        ensures
            r.deep_view() == Self::request_spec(stream_id, message.deep_view()),
    {
        TransportMessage {
            frame: FrameHeader {
                length: 0,
                version: 0,
                flags: 0,
                type_id: FrameType::Message,
                stream_id,
            },
            payload: Some(
                Payload {
                    protocol: ProtocolHeader::RequestResponse(
                        RequestResponseHeader { connection_id: 0, request_id: 0 },
                    ),
                    message,
                },
            ),
        }
    }

    /// Whether the type of the frame fits what it carries: a message frame
    /// carries a payload, a control frame carries none, and no frame has an
    /// unknown type.
    pub open spec fn consistent(m: TransportMessageView) -> bool {
        match m.payload {
            Some(_) => m.frame.type_id == FrameType::Message,
            None => m.frame.type_id != FrameType::Message && m.frame.type_id
                != FrameType::Unknown,
        }
    }

    /// The id by which a request and its response are matched, where the
    /// frame is one of the two.
    pub open spec fn request_id_of(m: TransportMessageView) -> Option<u64> {
        match m.payload {
            Some(PayloadView { protocol: ProtocolHeader::RequestResponse(header), .. }) => Some(
                header.request_id,
            ),
            _ => None,
        }
    }

    /// The id by which a request and its response are matched, where the
    /// frame is one of the two.
    pub fn request_id(&self) -> (r: Option<u64>)
        ensures
            r == Self::request_id_of(self.deep_view()),
    {
        match &self.payload {
            Some(payload) => match payload.protocol {
                ProtocolHeader::RequestResponse(header) => Some(header.request_id),
                ProtocolHeader::SingleMessage(_) => None,
            },
            None => None,
        }
    }

    /// The message of a message frame.
    pub fn message(&self) -> (r: Option<&MessageBody>)
        ensures
            match r {
                Some(message) => self.payload matches Some(payload) && payload.message
                    == *message,
                None => self.payload is None,
            },
    {
        match &self.payload {
            Some(payload) => Some(&payload.message),
            None => None,
        }
    }
}

impl FromBytes for TransportMessage {
    /// The frame header, and then what the frame carries.
    open spec fn parse(s: Seq<u8>, at: int) -> Result<(TransportMessageView, int), Failure> {
        match FrameHeader::parse(s, at) {
            Err(e) => Err(e),
            Ok((frame, at)) => Self::parse_payload(frame, s, at),
        }
    }

    fn read_at(buf: &[u8], at: usize) -> (r: Result<(Self, usize), Stop>) {
        let (frame, at) = FrameHeader::read_at(buf, at)?;
        Self::read(frame, buf, at)
    }
}

impl ToBytes for TransportMessage {
    open spec fn wire(m: TransportMessageView) -> Seq<u8> {
        FrameHeader::wire(m.frame) + match m.payload {
            Some(payload) => Payload::wire(payload),
            None => Seq::empty(),
        }
    }

    open spec fn encodable(m: TransportMessageView) -> bool {
        Self::consistent(m) && match m.payload {
            Some(payload) => Payload::encodable(payload),
            None => true,
        }
    }

    proof fn lemma_round_trip(m: TransportMessageView, s: Seq<u8>, at: int) {
        let head = FrameHeader::wire(m.frame);
        match m.payload {
            Some(payload) => {
                let tail = Payload::wire(payload);
                lemma_first_stands(s, at, head, tail);
                lemma_last_stands(s, at, head, tail);
                FrameHeader::lemma_round_trip(m.frame, s, at);
                Payload::lemma_round_trip(payload, s, at + head.len());
            },
            None => {
                lemma_first_stands(s, at, head, Seq::empty());
                FrameHeader::lemma_round_trip(m.frame, s, at);
            },
        }
    }

    fn is_encodable(&self) -> (r: bool) {
        match &self.payload {
            Some(payload) => self.frame.type_id == FrameType::Message && payload.is_encodable(),
            None => self.frame.type_id != FrameType::Message && self.frame.type_id
                != FrameType::Unknown,
        }
    }

    fn write(&self, out: &mut Vec<u8>) {
        self.frame.write(out);
        match &self.payload {
            Some(payload) => payload.write(out),
            None => {},
        }
        assert(out@ =~= old(out)@ + Self::wire(self.deep_view()));
    }
}

/// What one packet holds, for display: the headers and the message of its
/// frame, as far as there are any.
#[derive(Debug, PartialEq, Eq, Default)]
pub struct Protocol {
    pub frame: Option<FrameHeader>,
    pub transport: Option<TransportHeader>,
    pub protocol: Option<ProtocolHeader>,
    pub header: Option<MessageHeader>,
    pub message: Option<MessageBody>,
    pub pretty: bool,
}

/// The model of `Protocol`.
pub struct ProtocolView {
    pub frame: Option<FrameHeader>,
    pub transport: Option<TransportHeader>,
    pub protocol: Option<ProtocolHeader>,
    pub header: Option<MessageHeader>,
    pub message: Option<MessageBodyView>,
    pub pretty: bool,
}

impl DeepView for Protocol {
    type V = ProtocolView;

    open spec fn deep_view(&self) -> ProtocolView {
        ProtocolView {
            frame: self.frame,
            transport: self.transport,
            protocol: self.protocol,
            header: self.header,
            message: self.message.deep_view(),
            pretty: self.pretty,
        }
    }
}

impl Protocol {
    /// What is shown of a packet that does not even hold a frame header.
    pub open spec fn nothing(pretty: bool) -> ProtocolView {
        ProtocolView {
            frame: None,
            transport: None,
            protocol: None,
            header: None,
            message: None,
            pretty,
        }
    }

    /// What is shown of a frame.
    pub open spec fn of(m: TransportMessageView, pretty: bool) -> ProtocolView {
        match m.payload {
            None => ProtocolView {
                frame: Some(m.frame),
                transport: None,
                protocol: None,
                header: None,
                message: None,
                pretty,
            },
            Some(payload) => ProtocolView {
                frame: Some(m.frame),
                transport: Some(TransportHeader { protocol_id: payload.protocol.protocol() }),
                protocol: Some(payload.protocol),
                header: Some(MessageBody::header_of(payload.message)),
                message: Some(payload.message),
                pretty,
            },
        }
    }

    /// What the bytes of `s` from `at` on show: the frame that they decode
    /// to, and nothing yet where they end before the frame does, be it in the
    /// frame header or behind it. A frame that is cut short is no error: the
    /// rest of it may still arrive. Bytes that are no frame are one.
    pub open spec fn parsed(s: Seq<u8>, at: int, pretty: bool) -> Result<
        (ProtocolView, int),
        DecodeError,
    > {
        match FrameHeader::parse(s, at) {
            Err(_) => Ok((Self::nothing(pretty), at)),
            Ok((frame, next)) => match TransportMessage::parse_payload(frame, s, next) {
                Err((e, _)) => if e == DecodeError::UnexpectedEof {
                    Ok((Self::nothing(pretty), at))
                } else {
                    Err(e)
                },
                Ok((m, end)) => Ok((Self::of(m, pretty), end)),
            },
        }
    }

    /// Decodes what `buf` shows from `at` on.
    pub fn decode(buf: &[u8], at: usize, pretty: bool) -> (r: Result<(Protocol, usize), DecodeError>)
        ensures
            match Self::parsed(buf@, at as int, pretty) {
                Ok((m, next)) => r matches Ok((v, n)) && v.deep_view() == m && n == next,
                Err(e) => r matches Err(x) && x == e,
            },
            r matches Ok((_, n)) ==> (at <= n && (n <= buf@.len() || n == at)),
    {
        let nothing = Protocol {
            frame: None,
            transport: None,
            protocol: None,
            header: None,
            message: None,
            pretty,
        };
        let (frame, next) = match FrameHeader::decode(buf, at) {
            Ok(found) => found,
            Err(_) => {
                return Ok((nothing, at));
            },
        };
        let (found, end) = match TransportMessage::read(frame, buf, next) {
            Ok(found) => found,
            Err((DecodeError::UnexpectedEof, _)) => {
                return Ok((nothing, at));
            },
            Err((e, _)) => {
                return Err(e);
            },
        };
        let shown = match found.payload {
            None => Protocol {
                frame: Some(found.frame),
                transport: None,
                protocol: None,
                header: None,
                message: None,
                pretty,
            },
            Some(payload) => Protocol {
                frame: Some(found.frame),
                transport: Some(payload.protocol.transport()),
                protocol: Some(payload.protocol),
                header: Some(payload.message.header()),
                message: Some(payload.message),
                pretty,
            },
        };
        Ok((shown, end))
    }

    /// Decodes what the packet `payload` shows from `offset` on. The read
    /// position ends behind what was decoded, or at `offset` where nothing
    /// was.
    pub fn parse(payload: &mut Cursor, offset: u64, pretty: bool) -> (r: Result<
        Protocol,
        DecodeError,
    >)
        ensures
            final(payload).data == old(payload).data,
            match Self::parsed(old(payload).data@, offset_of(offset, old(payload).data@), pretty) {
                Ok((m, next)) => {
                    &&& r matches Ok(v) && v.deep_view() == m
                    &&& final(payload).position == offset + (next - offset_of(
                        offset,
                        old(payload).data@,
                    ))
                },
                Err(e) => r matches Err(x) && x == e && final(payload).position == offset,
            },
    {
        payload.set_position(offset);
        let at = payload.offset();
        match Self::decode(payload.data.as_slice(), at, pretty) {
            Ok((shown, next)) => {
                if next > at {
                    payload.position = next as u64;
                }
                Ok(shown)
            },
            Err(e) => Err(e),
        }
    }
}

/// What a packet shows from `at` on, frame by frame, and the error that
/// ended the decoding, if one did. Each frame is taken to be as long as its
/// header says; the next one stands behind it. The decoding ends at the end
/// of the packet, at a frame that is cut short, which is no error, or at
/// bytes that are no frame, which are one.
pub open spec fn frames_from(s: Seq<u8>, at: int, pretty: bool) -> (
    Seq<ProtocolView>,
    Option<DecodeError>,
)
    decreases s.len() - at,
{
    if at < 0 || at >= s.len() {
        (Seq::empty(), None)
    } else {
        match Protocol::parsed(s, at, pretty) {
            Err(e) => (Seq::empty(), Some(e)),
            Ok((shown, _)) => match shown.frame {
                None => (Seq::empty(), None),
                Some(frame) => if at + 12 + frame.length >= s.len() {
                    (seq![shown], None)
                } else {
                    (
                        seq![shown] + frames_from(s, at + 12 + frame.length, pretty).0,
                        frames_from(s, at + 12 + frame.length, pretty).1,
                    )
                },
            },
        }
    }
}

impl Protocol {
    /// Decodes what the packet `payload` shows, frame by frame.
    pub fn parse_all(payload: &[u8], pretty: bool) -> (r: (Vec<Protocol>, Option<DecodeError>))
        ensures
            r.0.deep_view() == frames_from(payload@, 0, pretty).0,
            r.1 == frames_from(payload@, 0, pretty).1,
    {
        let mut frames: Vec<Protocol> = Vec::new();
        let mut at: usize = 0;
        assert(frames.deep_view() =~= Seq::<ProtocolView>::empty());
        while at < payload.len()
            invariant
                frames_from(payload@, 0, pretty).0 == frames.deep_view() + frames_from(
                    payload@,
                    at as int,
                    pretty,
                ).0,
                frames_from(payload@, 0, pretty).1 == frames_from(payload@, at as int, pretty).1,
            decreases payload@.len() - at,
        {
            let ghost before = frames.deep_view();
            match Self::decode(payload, at, pretty) {
                Err(e) => {
                    assert(before + Seq::<ProtocolView>::empty() =~= before);
                    return (frames, Some(e));
                },
                Ok((shown, _)) => {
                    let length = match shown.frame {
                        None => {
                            assert(before + Seq::<ProtocolView>::empty() =~= before);
                            return (frames, None);
                        },
                        Some(frame) => frame.message_length(),
                    };
                    let ghost next = at + length;
                    let ghost rest = frames_from(payload@, next as int, pretty).0;
                    frames.push(shown);
                    assert(frames.deep_view() =~= before.push(shown.deep_view()));
                    if length >= (payload.len() - at) as u64 {
                        assert(before + seq![shown.deep_view()] =~= frames.deep_view());
                        return (frames, None);
                    }
                    assert(before + (seq![shown.deep_view()] + rest) =~= frames.deep_view()
                        + rest);
                    at = at + length as usize;
                },
            }
        }
        assert(frames.deep_view() + Seq::<ProtocolView>::empty() =~= frames.deep_view());
        (frames, None)
    }
}

} // verus!
