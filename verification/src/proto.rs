//! The multiplexed transport: frames of requests and responses on one
//! connection, each tagged with the id of its request.
//!
//! The codec turns the bytes that arrive into frames and the frames to send
//! into bytes. Frames arrive in pieces: the codec holds what it has read of a
//! frame that is not complete yet, and goes on from there when more bytes
//! have arrived.

use crate::convert::{lemma_first_stands, lemma_last_stands, stands_at, FromBytes, ToBytes};
use crate::errors::DecodeError;
use crate::errors::EncodeError;
use crate::frame::{Payload, PayloadView, ProtocolHeader, TransportMessage, TransportMessageView};
use crate::protocol::transport::{FrameHeader, FrameType, RequestResponseHeader};
use bytes::BytesMut;
use vstd::prelude::*;

verus! {

/// `bytes::BytesMut`: a buffer of bytes. Nothing is known of what is inside
/// it but what `buffered` names.
#[verifier::external_type_specification]
#[verifier::external_body]
pub struct ExBytesMut(BytesMut);

/// The bytes that a buffer holds, in their order.
pub uninterp spec fn buffered(buffer: BytesMut) -> Seq<u8>;

/// `BytesMut::len`: the number of bytes that the buffer holds.
pub assume_specification[ BytesMut::len ](buffer: &BytesMut) -> (n: usize)
    ensures
        n == buffered(*buffer).len(),
;

/// `BytesMut::split_to`: the buffer keeps the bytes from `at` on, and the
/// buffer that is returned holds the bytes in front of `at`. It panics where
/// `at` lies behind the end.
pub assume_specification[ BytesMut::split_to ](buffer: &mut BytesMut, at: usize) -> (front:
    BytesMut)
    requires
        at <= buffered(*old(buffer)).len(),
    ensures
        buffered(front) == buffered(*old(buffer)).take(at as int),
        buffered(*final(buffer)) == buffered(*old(buffer)).skip(at as int),
;

/// `BytesMut::extend_from_slice`: the bytes of `extend` are appended. It
/// panics where the new length overflows.
pub assume_specification[ BytesMut::extend_from_slice ](buffer: &mut BytesMut, extend: &[u8])
    requires
        buffered(*old(buffer)).len() + extend@.len() <= usize::MAX,
    ensures
        buffered(*final(buffer)) == buffered(*old(buffer)) + extend@,
;

/// `BytesMut`'s `Deref` to the slice of its bytes, and `to_vec` on that
/// slice: the bytes that the buffer holds, copied into a vector.
#[verifier::external_body]
fn contents(buffer: &BytesMut) -> (r: Vec<u8>)
    ensures
        r@ == buffered(*buffer),
{
    buffer.to_vec()
}

/// Why the transport gave up a frame.
#[derive(Debug, Clone, Copy, PartialEq, Eq, Structural)]
pub enum ProtocolError {
    /// The bytes of a frame could not be decoded.
    Decode(DecodeError),
    /// A frame could not be encoded.
    Encode(EncodeError),
    /// A frame is neither a request nor a response.
    UnexpectedFrame,
    /// A response carries the id of no request that waits for one.
    UnknownRequest(u64),
    /// No request id is left to give out.
    NoRequestId,
    /// The buffer cannot hold the bytes of one more frame.
    BufferFull,
}

/// The codec of a connection. It holds the header of a frame of which not
/// all bytes have arrived yet.
#[derive(Debug, PartialEq, Eq, Default)]
pub struct MultiplexedCodec {
    pub header: Option<FrameHeader>,
}

/// What one step of decoding makes of the bytes that have arrived.
pub enum Decoded {
    /// The next frame is not complete. The codec holds its header, if that
    /// is complete, and the buffer the bytes behind it.
    Incomplete { held: Option<FrameHeader>, rest: Seq<u8> },
    /// The next frame is a request or a response. The buffer holds the bytes
    /// behind it.
    Frame { request_id: u64, message: TransportMessageView, rest: Seq<u8> },
    /// The next frame is complete and no request or response. The buffer
    /// holds the bytes behind it.
    Failed { error: ProtocolError, rest: Seq<u8> },
}

impl MultiplexedCodec {
    /// What a step of decoding makes of the bytes behind a frame header that
    /// was read before: nothing yet while fewer bytes have arrived than the
    /// header announces, and else the frame that those bytes decode to. The
    /// definition is kept folded; a proof that needs it reveals it.
    #[verifier::opaque]
    pub open spec fn frame_step(header: FrameHeader, bytes: Seq<u8>) -> Decoded {
        if bytes.len() < header.length {
            Decoded::Incomplete { held: Some(header), rest: bytes }
        } else {
            let rest = bytes.skip(header.length as int);
            match TransportMessage::parse_payload(header, bytes.take(header.length as int), 0) {
                Err((e, _)) => Decoded::Failed { error: ProtocolError::Decode(e), rest },
                Ok((message, _)) => match TransportMessage::request_id_of(message) {
                    Some(request_id) => Decoded::Frame { request_id, message, rest },
                    None => Decoded::Failed { error: ProtocolError::UnexpectedFrame, rest },
                },
            }
        }
    }

    /// What a step of decoding makes of the bytes that have arrived, given
    /// the frame header that the codec holds, if it holds one. The definition
    /// is kept folded; a proof that needs it reveals it.
    #[verifier::opaque]
    pub open spec fn step(held: Option<FrameHeader>, bytes: Seq<u8>) -> Decoded {
        match held {
            Some(header) => Self::frame_step(header, bytes),
            None => match FrameHeader::parse(bytes, 0) {
                Err(_) => Decoded::Incomplete { held: None, rest: bytes },
                Ok((header, next)) => Self::frame_step(header, bytes.skip(next)),
            },
        }
    }

    /// A codec that holds nothing.
    pub fn new() -> (r: Self)
        ensures
            r.header is None,
    {
        MultiplexedCodec { header: None }
    }

    /// Decodes the frame behind `header` from the bytes in `buffer`, or holds
    /// `header` until the bytes that it announces have arrived.
    pub fn decode_frame(&mut self, header: FrameHeader, buffer: &mut BytesMut) -> (r: Result<
        Option<(u64, TransportMessage)>,
        ProtocolError,
    >)
        ensures
            match Self::frame_step(header, buffered(*old(buffer))) {
                Decoded::Incomplete { held, rest } => {
                    &&& r matches Ok(None)
                    &&& final(self).header == held
                    &&& buffered(*final(buffer)) == rest
                },
                Decoded::Frame { request_id, message, rest } => {
                    &&& r matches Ok(Some((id, m))) && id == request_id && m.deep_view()
                        == message
                    &&& final(self).header is None
                    &&& buffered(*final(buffer)) == rest
                },
                Decoded::Failed { error, rest } => {
                    &&& r matches Err(e) && e == error
                    &&& final(self).header is None
                    &&& buffered(*final(buffer)) == rest
                },
            },
    {
        proof {
            reveal(MultiplexedCodec::frame_step);
        }
        let frame_length = header.length as usize;
        if buffer.len() < frame_length {
            self.header = Some(header);
            Ok(None)
        } else {
            self.header = None;
            let frame = contents(&buffer.split_to(frame_length));
            match TransportMessage::read(header, frame.as_slice(), 0) {
                Err((e, _)) => Err(ProtocolError::Decode(e)),
                Ok((message, _)) => match message.request_id() {
                    Some(request_id) => Ok(Some((request_id, message))),
                    None => Err(ProtocolError::UnexpectedFrame),
                },
            }
        }
    }

    /// Decodes the next frame from the bytes in `buffer`, where they hold a
    /// whole frame. Where they do not, the codec and the buffer keep what a
    /// later call needs to go on.
    pub fn decode(&mut self, buffer: &mut BytesMut) -> (r: Result<
        Option<(u64, TransportMessage)>,
        ProtocolError,
    >)
        ensures
            match Self::step(old(self).header, buffered(*old(buffer))) {
                Decoded::Incomplete { held, rest } => {
                    &&& r matches Ok(None)
                    &&& final(self).header == held
                    &&& buffered(*final(buffer)) == rest
                },
                Decoded::Frame { request_id, message, rest } => {
                    &&& r matches Ok(Some((id, m))) && id == request_id && m.deep_view()
                        == message
                    &&& final(self).header is None
                    &&& buffered(*final(buffer)) == rest
                },
                Decoded::Failed { error, rest } => {
                    &&& r matches Err(e) && e == error
                    &&& final(self).header is None
                    &&& buffered(*final(buffer)) == rest
                },
            },
    {
        proof {
            reveal(MultiplexedCodec::step);
            reveal(MultiplexedCodec::frame_step);
        }
        let held = self.header;
        self.header = None;
        match held {
            Some(header) => self.decode_frame(header, buffer),
            None => {
                if buffer.len() < 12 {
                    Ok(None)
                } else {
                    let ghost whole = buffered(*buffer);
                    let head = contents(&buffer.split_to(12));
                    assert(head@ == whole.take(12));
                    assert forall|i: int| 0 <= i < 12 implies head@[i] == whole[i] by {}
                    match FrameHeader::decode(head.as_slice(), 0) {
                        Ok((header, _)) => self.decode_frame(header, buffer),
                        Err(e) => Err(ProtocolError::Decode(e)),
                    }
                }
            },
        }
    }
}

impl MultiplexedCodec {
    /// The frame that is sent for the request or response `m` under the id
    /// `request_id`: `m` with that id, as a message frame whose header
    /// announces the bytes that follow it.
    pub open spec fn stamped(m: TransportMessageView, request_id: u64) -> TransportMessageView {
        match m.payload {
            Some(
                PayloadView { protocol: ProtocolHeader::RequestResponse(header), message },
            ) => {
                let payload = PayloadView {
                    protocol: ProtocolHeader::RequestResponse(
                        RequestResponseHeader { connection_id: header.connection_id, request_id },
                    ),
                    message,
                };
                TransportMessageView {
                    frame: FrameHeader {
                        length: Payload::wire(payload).len() as u32,
                        version: m.frame.version,
                        flags: m.frame.flags,
                        type_id: FrameType::Message,
                        stream_id: m.frame.stream_id,
                    },
                    payload: Some(payload),
                }
            },
            _ => m,
        }
    }

    /// Whether `m` can be sent: it is a request or a response, its message
    /// can be encoded, and the frame header can say how many bytes follow it.
    pub open spec fn sendable(m: TransportMessageView) -> bool {
        match m.payload {
            Some(PayloadView { protocol: ProtocolHeader::RequestResponse(_), message }) => {
                &&& Payload::encodable(m.payload->0)
                &&& Payload::wire(m.payload->0).len() <= u32::MAX
            },
            _ => false,
        }
    }

    /// Appends to `buffer` the bytes of the frame that is sent for the
    /// request or response under the given id. The buffer is left as it was
    /// where nothing is sent.
    pub fn encode(&mut self, request: (u64, TransportMessage), buffer: &mut BytesMut) -> (r: Result<
        (),
        ProtocolError,
    >)
        ensures
            final(self).header == old(self).header,
            match r {
                Ok(()) => {
                    &&& Self::sendable(request.1.deep_view())
                    &&& buffered(*final(buffer)) == buffered(*old(buffer)) + TransportMessage::wire(
                        Self::stamped(request.1.deep_view(), request.0),
                    )
                },
                Err(e) => {
                    &&& buffered(*final(buffer)) == buffered(*old(buffer))
                    &&& e == if TransportMessage::request_id_of(request.1.deep_view()) is None {
                        ProtocolError::UnexpectedFrame
                    } else if !Self::sendable(request.1.deep_view()) {
                        ProtocolError::Encode(EncodeError::Unrepresentable)
                    } else {
                        ProtocolError::BufferFull
                    }
                    &&& e == ProtocolError::BufferFull ==> buffered(*old(buffer)).len()
                        + TransportMessage::wire(
                        Self::stamped(request.1.deep_view(), request.0),
                    ).len() > usize::MAX
                },
            },
    {
        let (request_id, message) = request;
        let ghost m = message.deep_view();
        let TransportMessage { frame, payload } = message;
        let payload = match payload {
            Some(Payload { protocol: ProtocolHeader::RequestResponse(header), message }) => Payload {
                protocol: ProtocolHeader::RequestResponse(
                    RequestResponseHeader { connection_id: header.connection_id, request_id },
                ),
                message,
            },
            _ => {
                return Err(ProtocolError::UnexpectedFrame);
            },
        };
        if !payload.is_encodable() {
            return Err(ProtocolError::Encode(EncodeError::Unrepresentable));
        }
        let mut body: Vec<u8> = Vec::new();
        payload.write(&mut body);
        assert(body@ =~= Payload::wire(payload.deep_view()));
        if body.len() > u32::MAX as usize {
            return Err(ProtocolError::Encode(EncodeError::Unrepresentable));
        }
        let header = FrameHeader {
            length: body.len() as u32,
            version: frame.version,
            flags: frame.flags,
            type_id: FrameType::Message,
            stream_id: frame.stream_id,
        };
        let sent = TransportMessage { frame: header, payload: Some(payload) };
        assert(sent.deep_view() == Self::stamped(m, request_id));
        let mut bytes: Vec<u8> = Vec::new();
        sent.write(&mut bytes);
        assert(bytes@ =~= TransportMessage::wire(sent.deep_view()));
        if buffer.len() > usize::MAX - bytes.len() {
            return Err(ProtocolError::BufferFull);
        }
        buffer.extend_from_slice(bytes.as_slice());
        Ok(())
    }
}

/// The number of bytes that the codec has still to deal with: those that
/// have arrived, and the twelve of a frame header that it holds.
pub open spec fn backlog(held: Option<FrameHeader>, bytes: Seq<u8>) -> nat {
    if held is Some {
        bytes.len() + 12
    } else {
        bytes.len()
    }
}

/// A step of decoding that gives a frame, or gives one up, takes the bytes
/// of that frame.
pub proof fn lemma_step_takes_bytes(held: Option<FrameHeader>, bytes: Seq<u8>)
    ensures
        match MultiplexedCodec::step(held, bytes) {
            Decoded::Frame { rest, .. } => rest.len() < backlog(held, bytes),
            Decoded::Failed { rest, .. } => rest.len() <= bytes.len(),
            Decoded::Incomplete { held: h, rest } => backlog(h, rest) == backlog(held, bytes),
        },
{
    reveal(MultiplexedCodec::step);
    reveal(MultiplexedCodec::frame_step);
    lemma_header_local(bytes, Seq::empty());
}

/// What the codec makes of all the bytes that have arrived: the requests
/// and responses that they hold, one after the other and each under its id,
/// up to the first frame that is not complete or is no request or response,
/// and what the step gives that finds that frame.
pub open spec fn drained(held: Option<FrameHeader>, bytes: Seq<u8>) -> (
    Seq<(u64, TransportMessageView)>,
    Decoded,
)
    decreases backlog(held, bytes),
    via drained_decreases
{
    match MultiplexedCodec::step(held, bytes) {
        Decoded::Frame { request_id, message, rest } => (
            seq![(request_id, message)] + drained(None, rest).0,
            drained(None, rest).1,
        ),
        end => (Seq::empty(), end),
    }
}

#[via_fn]
proof fn drained_decreases(held: Option<FrameHeader>, bytes: Seq<u8>) {
    lemma_step_takes_bytes(held, bytes);
}

impl MultiplexedCodec {
    /// Decodes the frames that the bytes in `buffer` hold, one after the
    /// other, until the next frame is not complete or is no request or
    /// response. Returns the frames, and the error that ended the decoding
    /// where one did.
    pub fn decode_all(&mut self, buffer: &mut BytesMut) -> (r: (
        Vec<(u64, TransportMessage)>,
        Option<ProtocolError>,
    ))
        ensures
            r.0.deep_view() == drained(old(self).header, buffered(*old(buffer))).0,
            match drained(old(self).header, buffered(*old(buffer))).1 {
                Decoded::Incomplete { held, rest } => {
                    &&& r.1 is None
                    &&& final(self).header == held
                    &&& buffered(*final(buffer)) == rest
                },
                Decoded::Failed { error, rest } => {
                    &&& r.1 == Some(error)
                    &&& final(self).header is None
                    &&& buffered(*final(buffer)) == rest
                },
                Decoded::Frame { .. } => false,
            },
    {
        let mut frames: Vec<(u64, TransportMessage)> = Vec::new();
        let ghost whole = drained(self.header, buffered(*buffer));
        assert(frames.deep_view() =~= Seq::empty());
        assert(frames.deep_view() + whole.0 =~= whole.0);
        loop
            invariant
                whole == drained(old(self).header, buffered(*old(buffer))),
                whole.0 == frames.deep_view() + drained(self.header, buffered(*buffer)).0,
                whole.1 == drained(self.header, buffered(*buffer)).1,
            decreases backlog(self.header, buffered(*buffer)),
        {
            let ghost held = self.header;
            let ghost bytes = buffered(*buffer);
            let ghost before = frames.deep_view();
            proof {
                lemma_step_takes_bytes(held, bytes);
            }
            match self.decode(buffer) {
                Ok(Some(frame)) => {
                    let ghost later = drained(None, buffered(*buffer)).0;
                    frames.push(frame);
                    assert(frames.deep_view() =~= before.push(frame.deep_view()));
                    assert(before + (seq![frame.deep_view()] + later) =~= frames.deep_view()
                        + later);
                },
                Ok(None) => {
                    assert(before + Seq::empty() =~= before);
                    return (frames, None);
                },
                Err(error) => {
                    assert(before + Seq::empty() =~= before);
                    return (frames, Some(error));
                },
            }
        }
    }
}

impl MultiplexedCodec {
    /// Takes the bytes `chunk` that have arrived into `buffer` and decodes
    /// the frames that the buffer then holds, as `decode_all` does. Where
    /// the buffer cannot hold the bytes, nothing is taken and nothing decoded.
    pub fn receive(&mut self, buffer: &mut BytesMut, chunk: &[u8]) -> (r: (
        Vec<(u64, TransportMessage)>,
        Option<ProtocolError>,
    ))
        ensures
            buffered(*old(buffer)).len() + chunk@.len() > usize::MAX ==> {
                &&& r.0@.len() == 0
                &&& r.1 == Some(ProtocolError::BufferFull)
                &&& final(self).header == old(self).header
                &&& buffered(*final(buffer)) == buffered(*old(buffer))
            },
            buffered(*old(buffer)).len() + chunk@.len() <= usize::MAX ==> {
                let all = drained(old(self).header, buffered(*old(buffer)) + chunk@);
                &&& r.0.deep_view() == all.0
                &&& match all.1 {
                    Decoded::Incomplete { held, rest } => {
                        &&& r.1 is None
                        &&& final(self).header == held
                        &&& buffered(*final(buffer)) == rest
                    },
                    Decoded::Failed { error, rest } => {
                        &&& r.1 == Some(error)
                        &&& final(self).header is None
                        &&& buffered(*final(buffer)) == rest
                    },
                    Decoded::Frame { .. } => false,
                }
            },
    {
        if buffer.len() > usize::MAX - chunk.len() {
            return (Vec::new(), Some(ProtocolError::BufferFull));
        }
        buffer.extend_from_slice(chunk);
        self.decode_all(buffer)
    }
}

/// What the codec makes of the bytes of a connection when they arrive in
/// the pieces `chunks` and it decodes all that it can after every piece:
/// the frames of all the pieces together, up to the first that is given up.
/// What has not arrived by then is behind what that step left.
pub open spec fn received(held: Option<FrameHeader>, bytes: Seq<u8>, chunks: Seq<Seq<u8>>) -> (
    Seq<(u64, TransportMessageView)>,
    Decoded,
)
    decreases chunks.len(),
{
    if chunks.len() == 0 {
        drained(held, bytes)
    } else {
        match drained(held, bytes).1 {
            Decoded::Incomplete { held: h, rest } => (
                drained(held, bytes).0 + received(h, rest + chunks[0], chunks.skip(1)).0,
                received(h, rest + chunks[0], chunks.skip(1)).1,
            ),
            Decoded::Failed { error, rest } => (
                drained(held, bytes).0,
                Decoded::Failed { error, rest: rest + joined(chunks) },
            ),
            end => (drained(held, bytes).0, end),
        }
    }
}

/// Decoding all the frames never ends with a frame.
pub proof fn lemma_drained_ends(held: Option<FrameHeader>, bytes: Seq<u8>)
    ensures
        !(drained(held, bytes).1 is Frame),
    decreases backlog(held, bytes),
{
    lemma_step_takes_bytes(held, bytes);
    match MultiplexedCodec::step(held, bytes) {
        Decoded::Frame { rest, .. } => lemma_drained_ends(None, rest),
        _ => {},
    }
}

/// Bytes that arrive later change nothing of the frames that were decoded
/// before: decoding all at once gives those frames, and then what going on
/// gives with the later bytes behind what was left. Behind a frame that was
/// given up nothing is decoded.
pub proof fn lemma_drained_goes_on(held: Option<FrameHeader>, a: Seq<u8>, b: Seq<u8>)
    ensures
        match drained(held, a).1 {
            Decoded::Incomplete { held: h, rest } => drained(held, a + b) == (
                drained(held, a).0 + drained(h, rest + b).0,
                drained(h, rest + b).1,
            ),
            Decoded::Failed { error, rest } => drained(held, a + b) == (
                drained(held, a).0,
                Decoded::Failed { error, rest: rest + b },
            ),
            Decoded::Frame { .. } => false,
        },
    decreases backlog(held, a),
{
    lemma_step_takes_bytes(held, a);
    lemma_drained_ends(held, a);
    match MultiplexedCodec::step(held, a) {
        Decoded::Frame { request_id, message, rest } => {
            lemma_extend(held, a, b);
            lemma_drained_goes_on(None, rest, b);
            let first = seq![(request_id, message)];
            match drained(None, rest).1 {
                Decoded::Incomplete { held: h, rest: left } => {
                    assert(first + (drained(None, rest).0 + drained(h, left + b).0) =~= (first
                        + drained(None, rest).0) + drained(h, left + b).0);
                },
                _ => {},
            }
        },
        Decoded::Incomplete { held: h, rest } => {
            lemma_resume(held, a, b);
            assert(Seq::<(u64, TransportMessageView)>::empty() + drained(h, rest + b).0
                =~= drained(h, rest + b).0);
        },
        Decoded::Failed { error, rest } => {
            lemma_extend(held, a, b);
        },
    }
}

/// Receiving the bytes of a connection in arbitrary pieces, down to one
/// byte at a time, gives the frames that receiving them all at once gives.
pub proof fn lemma_received(held: Option<FrameHeader>, bytes: Seq<u8>, chunks: Seq<Seq<u8>>)
    ensures
        received(held, bytes, chunks) == drained(held, bytes + joined(chunks)),
    decreases chunks.len(),
{
    if chunks.len() == 0 {
        assert(bytes + joined(chunks) =~= bytes);
    } else {
        let later = joined(chunks);
        lemma_drained_ends(held, bytes);
        lemma_drained_goes_on(held, bytes, later);
        match drained(held, bytes).1 {
            Decoded::Incomplete { held: h, rest } => {
                lemma_received(h, rest + chunks[0], chunks.skip(1));
                assert((rest + chunks[0]) + joined(chunks.skip(1)) =~= rest + later);
            },
            _ => {},
        }
    }
}

/// The bytes of the frames that `encode` appends for requests or responses
/// under their ids, one frame after the other.
pub open spec fn sent(frames: Seq<(u64, TransportMessageView)>) -> Seq<u8>
    decreases frames.len(),
{
    if frames.len() == 0 {
        Seq::empty()
    } else {
        TransportMessage::wire(MultiplexedCodec::stamped(frames[0].1, frames[0].0)) + sent(
            frames.skip(1),
        )
    }
}

/// The frames that are sent for requests or responses under their ids.
pub open spec fn stamped_all(frames: Seq<(u64, TransportMessageView)>) -> Seq<
    (u64, TransportMessageView),
> {
    Seq::new(
        frames.len(),
        |i: int| (frames[i].0, MultiplexedCodec::stamped(frames[i].1, frames[i].0)),
    )
}

/// Every frame is received under its own id: the bytes of any number of
/// requests or responses, sent one after the other under whatever ids,
/// decode to those frames in that order, each under the id that it was sent
/// with. None is lost, none comes twice, and nothing is left behind them.
pub proof fn lemma_all_sent_are_received(frames: Seq<(u64, TransportMessageView)>)
    requires
        forall|i: int| 0 <= i < frames.len() ==> MultiplexedCodec::sendable(#[trigger] frames[i].1),
    ensures
        drained(None, sent(frames)) == (
            stamped_all(frames),
            Decoded::Incomplete { held: None, rest: Seq::empty() },
        ),
    decreases frames.len(),
{
    let s = sent(frames);
    if frames.len() == 0 {
        reveal(MultiplexedCodec::step);
        lemma_header_local(s, Seq::empty());
        assert(stamped_all(frames) =~= Seq::empty());
    } else {
        let (id, m) = frames[0];
        let later = frames.skip(1);
        let w = TransportMessage::wire(MultiplexedCodec::stamped(m, id));
        assert(MultiplexedCodec::sendable(frames[0].1));
        assert(s.subrange(0, w.len() as int) =~= w);
        assert(s.skip(w.len() as int) =~= sent(later));
        lemma_sent_is_received(m, id, s);
        assert forall|i: int| 0 <= i < later.len() implies MultiplexedCodec::sendable(
            #[trigger] later[i].1,
        ) by {
            assert(later[i] == frames[i + 1]);
        }
        lemma_all_sent_are_received(later);
        assert(seq![(id, MultiplexedCodec::stamped(m, id))] + stamped_all(later) =~= stamped_all(
            frames,
        ));
    }
}

/// A frame header is decoded from its twelve bytes alone: bytes behind them
/// change nothing.
pub proof fn lemma_header_local(a: Seq<u8>, b: Seq<u8>)
    ensures
        FrameHeader::parse(a, 0) is Ok ==> FrameHeader::parse(a + b, 0) == FrameHeader::parse(
            a,
            0,
        ),
        FrameHeader::parse(a, 0) matches Ok((_, next)) ==> next == 12,
        FrameHeader::parse(a, 0) is Ok <==> a.len() >= 12,
{
    if a.len() >= 12 {
        assert forall|i: int| 0 <= i < 12 implies (a + b)[i] == a[i] by {}
    }
}

/// What the codec makes of the bytes of a connection when they arrive in
/// the pieces `chunks`, one piece at a time: it decodes after every piece
/// until a step finds more than an incomplete frame. What has not been fed
/// by then is behind what the step left.
pub open spec fn feed(held: Option<FrameHeader>, bytes: Seq<u8>, chunks: Seq<Seq<u8>>) -> Decoded
    decreases chunks.len(),
{
    if chunks.len() == 0 {
        MultiplexedCodec::step(held, bytes)
    } else {
        match MultiplexedCodec::step(held, bytes) {
            Decoded::Incomplete { held, rest } => feed(held, rest + chunks[0], chunks.skip(1)),
            Decoded::Frame { request_id, message, rest } => Decoded::Frame {
                request_id,
                message,
                rest: rest + joined(chunks),
            },
            Decoded::Failed { error, rest } => Decoded::Failed {
                error,
                rest: rest + joined(chunks),
            },
        }
    }
}

/// The pieces one after the other.
pub open spec fn joined(chunks: Seq<Seq<u8>>) -> Seq<u8>
    decreases chunks.len(),
{
    if chunks.len() == 0 {
        Seq::empty()
    } else {
        chunks[0] + joined(chunks.skip(1))
    }
}

/// A decoding that asked for more bytes has lost none: going on from what
/// it left, with the bytes that arrive later, gives what decoding all the
/// bytes at once gives.
pub proof fn lemma_resume(held: Option<FrameHeader>, a: Seq<u8>, b: Seq<u8>)
    requires
        MultiplexedCodec::step(held, a) is Incomplete,
    ensures
        MultiplexedCodec::step(held, a) matches Decoded::Incomplete { held: h, rest }
            && MultiplexedCodec::step(h, rest + b) == MultiplexedCodec::step(held, a + b),
{
    reveal(MultiplexedCodec::step);
    reveal(MultiplexedCodec::frame_step);
    match held {
        Some(header) => {},
        None => {
            lemma_header_local(a, b);
            if a.len() >= 12 {
                assert((a + b).skip(12) =~= a.skip(12) + b);
            }
        },
    }
}

/// Bytes behind a whole frame change nothing of what the frame decodes to:
/// they stay behind it.
pub proof fn lemma_extend(held: Option<FrameHeader>, a: Seq<u8>, b: Seq<u8>)
    requires
        !(MultiplexedCodec::step(held, a) is Incomplete),
    ensures
        match MultiplexedCodec::step(held, a) {
            Decoded::Frame { request_id, message, rest } => MultiplexedCodec::step(held, a + b)
                == (Decoded::Frame { request_id, message, rest: rest + b }),
            Decoded::Failed { error, rest } => MultiplexedCodec::step(held, a + b) == (
            Decoded::Failed { error, rest: rest + b }),
            Decoded::Incomplete { .. } => false,
        },
{
    reveal(MultiplexedCodec::step);
    reveal(MultiplexedCodec::frame_step);
    match held {
        Some(header) => {
            let n = header.length as int;
            assert((a + b).take(n) =~= a.take(n));
            assert((a + b).skip(n) =~= a.skip(n) + b);
        },
        None => {
            lemma_header_local(a, b);
            let header = FrameHeader::parse(a, 0)->Ok_0.0;
            let n = header.length as int;
            let tail = a.skip(12);
            assert((a + b).skip(12) =~= tail + b);
            assert((tail + b).take(n) =~= tail.take(n));
            assert((tail + b).skip(n) =~= tail.skip(n) + b);
        },
    }
}

/// Feeding the bytes of a connection in arbitrary pieces gives what feeding
/// them all at once gives.
pub proof fn lemma_feed(held: Option<FrameHeader>, bytes: Seq<u8>, chunks: Seq<Seq<u8>>)
    ensures
        feed(held, bytes, chunks) == MultiplexedCodec::step(held, bytes + joined(chunks)),
    decreases chunks.len(),
{
    if chunks.len() == 0 {
        assert(bytes + joined(chunks) =~= bytes);
    } else {
        let later = joined(chunks);
        match MultiplexedCodec::step(held, bytes) {
            Decoded::Incomplete { held: h, rest } => {
                lemma_resume(held, bytes, later);
                lemma_feed(h, rest + chunks[0], chunks.skip(1));
                assert((rest + chunks[0]) + joined(chunks.skip(1)) =~= rest + later);
            },
            _ => {
                lemma_extend(held, bytes, later);
            },
        }
    }
}

/// Where the bytes of a payload stand at the start of what has arrived behind
/// a header of a message frame that announces as many bytes, a step of
/// decoding gives the frame of that header and payload.
pub proof fn lemma_frame_received(frame: FrameHeader, payload: PayloadView, t: Seq<u8>)
    requires
        frame.type_id == FrameType::Message,
        frame.length == Payload::wire(payload).len(),
        Payload::encodable(payload),
        payload.protocol is RequestResponse,
        stands_at(t, 0, Payload::wire(payload)),
    ensures
        MultiplexedCodec::frame_step(frame, t) == (Decoded::Frame {
            request_id: payload.protocol->RequestResponse_0.request_id,
            message: TransportMessageView { frame, payload: Some(payload) },
            rest: t.skip(Payload::wire(payload).len() as int),
        }),
{
    reveal(MultiplexedCodec::frame_step);
    let body = Payload::wire(payload);
    assert(t.take(body.len() as int) =~= body);
    assert(body.subrange(0, body.len() as int) =~= body);
    Payload::lemma_round_trip(payload, body, 0);
}

/// Behind the bytes of a frame header, a step of decoding goes on as it
/// does for a codec that holds that header.
pub proof fn lemma_header_received(frame: FrameHeader, s: Seq<u8>)
    requires
        stands_at(s, 0, FrameHeader::wire(frame)),
    ensures
        MultiplexedCodec::step(None, s) == MultiplexedCodec::frame_step(frame, s.skip(12)),
        FrameHeader::wire(frame).len() == 12,
{
    reveal(MultiplexedCodec::step);
    FrameHeader::lemma_round_trip(frame, s, 0);
    lemma_header_local(s, Seq::empty());
}

/// What was sent is what is received: where the bytes that `encode` appends
/// for a request or response stand at the start of what has arrived, a step
/// of decoding gives that frame under that id and leaves what stands behind
/// those bytes.
pub proof fn lemma_sent_is_received(m: TransportMessageView, request_id: u64, s: Seq<u8>)
    requires
        MultiplexedCodec::sendable(m),
        stands_at(s, 0, TransportMessage::wire(MultiplexedCodec::stamped(m, request_id))),
    ensures
        MultiplexedCodec::step(None, s) == (Decoded::Frame {
            request_id,
            message: MultiplexedCodec::stamped(m, request_id),
            rest: s.skip(
                TransportMessage::wire(MultiplexedCodec::stamped(m, request_id)).len() as int,
            ),
        }),
{
    let sent = MultiplexedCodec::stamped(m, request_id);
    let payload = sent.payload->0;
    let head = FrameHeader::wire(sent.frame);
    let body = Payload::wire(payload);
    lemma_id_keeps_length(m.payload->0, request_id);
    lemma_first_stands(s, 0, head, body);
    lemma_last_stands(s, 0, head, body);
    lemma_header_received(sent.frame, s);
    let t = s.skip(12);
    assert(t.subrange(0, body.len() as int) =~= s.subrange(12, 12 + body.len() as int));
    assert(t.skip(body.len() as int) =~= s.skip(12 + body.len() as int));
    lemma_frame_received(sent.frame, payload, t);
}

/// A frame that arrives in pieces is received as it was sent: when the bytes
/// that `encode` appends for a request or response arrive in arbitrary
/// pieces, down to one byte at a time, the codec decodes that frame under
/// that id, and nothing is left behind it.
pub proof fn lemma_sent_in_pieces_is_received(
    m: TransportMessageView,
    request_id: u64,
    chunks: Seq<Seq<u8>>,
)
    requires
        MultiplexedCodec::sendable(m),
        joined(chunks) == TransportMessage::wire(MultiplexedCodec::stamped(m, request_id)),
    ensures
        feed(None, Seq::empty(), chunks) == (Decoded::Frame {
            request_id,
            message: MultiplexedCodec::stamped(m, request_id),
            rest: Seq::empty(),
        }),
{
    let sent = joined(chunks);
    lemma_feed(None, Seq::empty(), chunks);
    assert(Seq::<u8>::empty() + sent =~= sent);
    assert(sent.subrange(0, sent.len() as int) =~= sent);
    assert(sent.skip(sent.len() as int) =~= Seq::<u8>::empty());
    lemma_sent_is_received(m, request_id, sent);
}

/// The id of a request changes neither whether its payload can be encoded
/// nor how many bytes the payload takes.
pub proof fn lemma_id_keeps_length(payload: PayloadView, request_id: u64)
    requires
        payload.protocol is RequestResponse,
    ensures
        ({
            let header = payload.protocol->RequestResponse_0;
            let stamped = PayloadView {
                protocol: ProtocolHeader::RequestResponse(
                    RequestResponseHeader { connection_id: header.connection_id, request_id },
                ),
                message: payload.message,
            };
            &&& Payload::encodable(stamped) == Payload::encodable(payload)
            &&& Payload::wire(stamped).len() == Payload::wire(payload).len()
        }),
{
}

} // verus!
