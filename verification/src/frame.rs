//! Frame types, the encoding of the frames this endpoint sends and the decoding of frames from a
//! packet payload.
use vstd::prelude::*;

use crate::coding::{put_slice, UnexpectedEnd};
use crate::shared::{spec_encode_long, ConnectionId, EcnCodepoint};
use crate::token::ResetToken;
use crate::transport_error::Error as TransportError;
use crate::varint::{read_var_at, spec_varint_decode, spec_varint_encode, write_var, VarInt, VARINT_BOUND};
use crate::StreamId;

verus! {

/// A frame type
#[derive(Copy, Clone, Debug, PartialEq, Eq, Structural)]
pub struct Type(pub u64);

impl View for Type {
    type V = u64;

    open spec fn view(&self) -> u64 {
        self.0
    }
}

/// Whether `ty` is one of the STREAM frame types, 0x08 to 0x0f
pub open spec fn spec_is_stream_ty(ty: u64) -> bool {
    0x08 <= ty <= 0x0f
}

/// Whether `ty` is one of the DATAGRAM frame types, 0x30 and 0x31
pub open spec fn spec_is_datagram_ty(ty: u64) -> bool {
    0x30 <= ty <= 0x31
}

impl Type {
    /// PATH_RESPONSE
    #[verifier::allow_in_spec]
    #[allow(non_snake_case)]
    pub fn PATH_RESPONSE() -> Type
        returns
            Type(0x1b),
    {
        Type(0x1b)
    }

    /// HANDSHAKE_DONE
    #[verifier::allow_in_spec]
    #[allow(non_snake_case)]
    pub fn HANDSHAKE_DONE() -> Type
        returns
            Type(0x1e),
    {
        Type(0x1e)
    }

    /// IMMEDIATE_ACK
    #[verifier::allow_in_spec]
    #[allow(non_snake_case)]
    pub fn IMMEDIATE_ACK() -> Type
        returns
            Type(0x1f),
    {
        Type(0x1f)
    }

    /// ACK_FREQUENCY
    #[verifier::allow_in_spec]
    #[allow(non_snake_case)]
    pub fn ACK_FREQUENCY() -> Type
        returns
            Type(0xaf),
    {
        Type(0xaf)
    }

    /// PATH_CHALLENGE
    #[verifier::allow_in_spec]
    #[allow(non_snake_case)]
    pub fn PATH_CHALLENGE() -> Type
        returns
            Type(0x1a),
    {
        Type(0x1a)
    }

    /// CRYPTO
    #[verifier::allow_in_spec]
    #[allow(non_snake_case)]
    pub fn CRYPTO() -> Type
        returns
            Type(0x06),
    {
        Type(0x06)
    }

    /// NEW_CONNECTION_ID
    #[verifier::allow_in_spec]
    #[allow(non_snake_case)]
    pub fn NEW_CONNECTION_ID() -> Type
        returns
            Type(0x18),
    {
        Type(0x18)
    }

    /// RETIRE_CONNECTION_ID
    #[verifier::allow_in_spec]
    #[allow(non_snake_case)]
    pub fn RETIRE_CONNECTION_ID() -> Type
        returns
            Type(0x19),
    {
        Type(0x19)
    }

    /// PADDING
    #[verifier::allow_in_spec]
    #[allow(non_snake_case)]
    pub fn PADDING() -> Type
        returns
            Type(0x00),
    {
        Type(0x00)
    }

    /// PING
    #[verifier::allow_in_spec]
    #[allow(non_snake_case)]
    pub fn PING() -> Type
        returns
            Type(0x01),
    {
        Type(0x01)
    }

    /// The flags of a STREAM frame type, if this is one
    pub fn stream(self) -> (r: Option<StreamInfo>)
        ensures
            r == if spec_is_stream_ty(self@) {
                Some(StreamInfo(self@ as u8))
            } else {
                None
            },
    {
        if 0x08 <= self.0 && self.0 <= 0x0f {
            Some(StreamInfo(self.0 as u8))
        } else {
            None
        }
    }

    /// The flags of a DATAGRAM frame type, if this is one
    pub fn datagram(self) -> (r: Option<DatagramInfo>)
        ensures
            r == if spec_is_datagram_ty(self@) {
                Some(DatagramInfo(self@ as u8))
            } else {
                None
            },
    {
        if 0x30 <= self.0 && self.0 <= 0x31 {
            Some(DatagramInfo(self.0 as u8))
        } else {
            None
        }
    }

    /// Append the varint encoding of this type to `w`
    pub fn encode(&self, w: &mut Vec<u8>)
        requires
            self@ < VARINT_BOUND,
        ensures
            final(w)@ == old(w)@ + spec_varint_encode(self@),
    {
        write_var(w, self.0);
    }

    /// Decode a frame type from `r` at `pos`, returning it with the number of bytes read
    pub fn decode(r: &[u8], pos: usize) -> (res: Result<(Type, usize), UnexpectedEnd>)
        requires
            pos <= r@.len(),
        ensures
            match spec_varint_decode(r@.subrange(pos as int, r@.len() as int)) {
                Some((v, n)) => res == Ok::<(Type, usize), UnexpectedEnd>((Type(v), n as usize))
                    && pos + n <= r@.len() && 1 <= n,
                None => res is Err,
            },
    {
        match read_var_at(r, pos) {
            Ok((v, n)) => Ok((Type(v), n)),
            Err(e) => Err(e),
        }
    }
}

/// The flag bits of a STREAM frame type
#[derive(Copy, Clone, Debug, PartialEq, Eq, Structural)]
pub struct StreamInfo(pub u8);

impl StreamInfo {
    /// Whether the frame ends the stream
    pub fn fin(self) -> (r: bool)
        ensures
            r == (self.0 & 0x01u8 != 0),
    {
        self.0 & 0x01 != 0
    }

    /// Whether the frame carries an explicit length
    pub fn len(self) -> (r: bool)
        ensures
            r == (self.0 & 0x02u8 != 0),
    {
        self.0 & 0x02 != 0
    }

    /// Whether the frame carries an explicit offset
    pub fn off(self) -> (r: bool)
        ensures
            r == (self.0 & 0x04u8 != 0),
    {
        self.0 & 0x04 != 0
    }
}

/// The flag bits of a DATAGRAM frame type
#[derive(Copy, Clone, Debug, PartialEq, Eq, Structural)]
pub struct DatagramInfo(pub u8);

/// Data carried by a STREAM frame
#[derive(Debug, Clone)]
pub struct Stream {
    /// The stream the data belongs to
    pub id: StreamId,
    /// Offset of the data in the stream
    pub offset: u64,
    /// Whether the data ends the stream
    pub fin: bool,
    /// The data
    pub data: Vec<u8>,
}

/// A decoded frame
#[derive(Debug)]
pub enum Frame {
    /// PADDING
    Padding,
    /// PING
    Ping,
    /// STREAM
    Stream(Stream),
}

/// A decoded frame, with its data as a sequence of bytes
pub enum FrameView {
    /// PADDING
    Padding,
    /// PING
    Ping,
    /// STREAM
    Stream { id: u64, offset: u64, fin: bool, data: Seq<u8> },
}

impl Frame {
    /// The frame as a mathematical value
    pub open spec fn spec_view(&self) -> FrameView {
        match self {
            Frame::Padding => FrameView::Padding,
            Frame::Ping => FrameView::Ping,
            Frame::Stream(s) => FrameView::Stream {
                id: s.id.0,
                offset: s.offset,
                fin: s.fin,
                data: s.data@,
            },
        }
    }

    /// The type of this frame: a STREAM frame's type has the FIN and OFF bits set as its fields
    /// require, and never the LEN bit
    pub fn ty(&self) -> (r: Type)
        ensures
            r@ == match self {
                Frame::Padding => 0x00u64,
                Frame::Ping => 0x01u64,
                Frame::Stream(x) => (0x08 + (if x.fin {
                    0x01u64
                } else {
                    0
                }) + (if x.offset != 0 {
                    0x04u64
                } else {
                    0
                })) as u64,
            },
    {
        match self {
            Frame::Padding => Type::PADDING(),
            Frame::Ping => Type::PING(),
            Frame::Stream(x) => {
                let mut ty: u64 = 0x08;
                if x.fin {
                    ty = ty + 0x01;
                }
                if x.offset != 0 {
                    ty = ty + 0x04;
                }
                Type(ty)
            },
        }
    }
}

/// Reason for a failure to decode a frame
#[derive(Copy, Clone, Debug, PartialEq, Eq, Structural)]
pub enum IterErr {
    /// The payload ended inside the frame
    UnexpectedEnd,
    /// The frame type is not one this endpoint knows
    InvalidFrameId,
}

impl IterErr {
    /// Human-readable reason
    pub fn reason(&self) -> (r: &'static str)
        ensures
            r@ == match self {
                IterErr::UnexpectedEnd => "unexpected end"@,
                IterErr::InvalidFrameId => "invalid frame ID"@,
            },
    {
        match self {
            IterErr::UnexpectedEnd => "unexpected end",
            IterErr::InvalidFrameId => "invalid frame ID",
        }
    }
}

/// A frame that could not be decoded
#[derive(Debug)]
pub struct InvalidFrame {
    /// The type of the last frame whose type could be read
    pub ty: Option<Type>,
    /// Why decoding failed
    pub reason: &'static str,
}

impl InvalidFrame {
    /// The `FRAME_ENCODING_ERROR` transport error that reports this frame
    pub fn into_transport_error(self) -> (e: TransportError)
        ensures
            e.code == crate::transport_error::Code::FRAME_ENCODING_ERROR(),
            e.frame == self.ty,
            e.reason@ == self.reason@,
    {
        let mut te = TransportError::FRAME_ENCODING_ERROR(self.reason);
        te.frame = self.ty;
        te
    }
}

/// Outcome of decoding one frame from the front of a payload
pub enum FrameParse {
    /// The frame and the number of bytes it occupied
    Parsed(FrameView, nat),
    /// Decoding failed; the frame type, if it could be read, and the reason
    Failed(Option<u64>, IterErr),
    /// The frame is a DATAGRAM frame, which this endpoint cannot decode
    Unsupported,
}

/// Decoding of a varint at the start of `s`, kept folded in the proofs about frames
#[verifier::opaque]
pub open spec fn spec_read_var(s: Seq<u8>) -> Option<(u64, nat)> {
    spec_varint_decode(s)
}

/// Decoding of a varint at the start of `s`, or of nothing when `present` is false
pub open spec fn spec_opt_varint(present: bool, s: Seq<u8>) -> Option<(u64, nat)> {
    if present {
        spec_read_var(s)
    } else {
        Some((0, 0))
    }
}

/// Decoding of the body of a STREAM frame of type `ty` at the start of `s`: the stream ID, the
/// offset if the OFF bit is set, and the data, preceded by its length if the LEN bit is set and
/// otherwise running to the end of the payload. Gives the frame and the number of bytes it
/// occupies, or `None` where the payload ends inside the frame.
pub open spec fn spec_parse_stream(ty: u64, s: Seq<u8>) -> Option<(FrameView, nat)> {
    let info = ty as u8;
    match spec_read_var(s) {
        None => None,
        Some((id, n1)) => {
            let s1 = s.subrange(n1 as int, s.len() as int);
            match spec_opt_varint(info & 0x04u8 != 0, s1) {
                None => None,
                Some((offset, n2)) => {
                    let s2 = s1.subrange(n2 as int, s1.len() as int);
                    let fin = info & 0x01u8 != 0;
                    if info & 0x02u8 != 0 {
                        match spec_read_var(s2) {
                            None => None,
                            Some((len, n3)) => {
                                let s3 = s2.subrange(n3 as int, s2.len() as int);
                                if len > s3.len() {
                                    None
                                } else {
                                    Some(
                                        (
                                            FrameView::Stream {
                                                id,
                                                offset,
                                                fin,
                                                data: s3.take(len as int),
                                            },
                                            n1 + n2 + n3 + (len as nat),
                                        ),
                                    )
                                }
                            },
                        }
                    } else {
                        Some((FrameView::Stream { id, offset, fin, data: s2 }, s.len()))
                    }
                },
            }
        },
    }
}

/// The flag bits of a STREAM frame type decide what is read (RFC 9000, section 19.8): the
/// decoded frame ends the stream exactly when bit 0x01 (FIN) is set, its offset is zero when
/// bit 0x04 (OFF) is clear, and its data runs to the end of the payload when bit 0x02 (LEN) is
/// clear
pub proof fn lemma_stream_flags(ty: u64, s: Seq<u8>)
    requires
        spec_is_stream_ty(ty),
    ensures
        spec_parse_stream(ty, s) matches Some((FrameView::Stream { fin, .. }, _)) ==> fin == (ty
            % 2 == 1),
        spec_parse_stream(ty, s) matches Some((FrameView::Stream { offset, .. }, _)) ==> (ty & 0x04
            == 0 ==> offset == 0),
        spec_parse_stream(ty, s) matches Some((FrameView::Stream { data, .. }, n)) ==> (ty & 0x02
            == 0 ==> n == s.len()),
{
    let info = ty as u8;
    assert((info & 0x01u8 != 0) == (ty % 2 == 1)) by (bit_vector)
        requires
            info == ty as u8,
            0x08 <= ty <= 0x0f,
    ;
    assert((info & 0x04u8 != 0) == (ty & 0x04 != 0)) by (bit_vector)
        requires
            info == ty as u8,
            0x08 <= ty <= 0x0f,
    ;
    assert((info & 0x02u8 != 0) == (ty & 0x02 != 0)) by (bit_vector)
        requires
            info == ty as u8,
            0x08 <= ty <= 0x0f,
    ;
}

/// Decoding of the frame at the start of `s`: a varint type, then the body the type calls for
pub open spec fn spec_parse_frame(s: Seq<u8>) -> FrameParse {
    match spec_read_var(s) {
        None => FrameParse::Failed(None, IterErr::UnexpectedEnd),
        Some((ty, n0)) => {
            if ty == 0 {
                FrameParse::Parsed(FrameView::Padding, n0)
            } else if spec_is_stream_ty(ty) {
                match spec_parse_stream(ty, s.subrange(n0 as int, s.len() as int)) {
                    None => FrameParse::Failed(Some(ty), IterErr::UnexpectedEnd),
                    Some((f, c)) => FrameParse::Parsed(f, n0 + c),
                }
            } else if spec_is_datagram_ty(ty) {
                FrameParse::Unsupported
            } else {
                FrameParse::Failed(Some(ty), IterErr::InvalidFrameId)
            }
        },
    }
}

/// Iterator over the frames of a packet payload
pub struct Iter {
    bytes: Vec<u8>,
    pos: usize,
    last_ty: Option<Type>,
}

impl Iter {
    #[verifier::type_invariant]
    closed spec fn inv(self) -> bool {
        self.pos <= self.bytes@.len()
    }

    /// The bytes not yet decoded
    pub closed spec fn rest(self) -> Seq<u8> {
        self.bytes@.subrange(self.pos as int, self.bytes@.len() as int)
    }

    /// The type of the last frame whose type was read
    pub closed spec fn spec_last_ty(self) -> Option<Type> {
        self.last_ty
    }

    /// Start iterating over `payload`; a packet without frames is a protocol violation
    pub fn new(payload: Vec<u8>) -> (res: Result<Iter, TransportError>)
        ensures
            payload@.len() == 0 ==> res is Err && res->Err_0.code
                == crate::transport_error::Code::PROTOCOL_VIOLATION() && res->Err_0.frame is None
                && res->Err_0.reason@ == "packet payload is empty"@,
            payload@.len() > 0 ==> res is Ok && res->Ok_0.rest() == payload@
                && res->Ok_0.spec_last_ty() is None,
    {
        if payload.len() == 0 {
            return Err(TransportError::PROTOCOL_VIOLATION("packet payload is empty"));
        }
        let it = Iter { bytes: payload, pos: 0, last_ty: None };
        assert(it.rest() =~= payload@);
        Ok(it)
    }

    /// Decode the varint at `pos`, returning it and the number of bytes read
    fn var_at(&self, pos: usize) -> (res: Result<(u64, usize), IterErr>)
        requires
            pos <= self.bytes@.len(),
        ensures
            match spec_read_var(self.bytes@.subrange(pos as int, self.bytes@.len() as int)) {
                Some((v, n)) => res == Ok::<(u64, usize), IterErr>((v, n as usize)) && pos + n
                    <= self.bytes@.len() && 1 <= n,
                None => res == Err::<(u64, usize), IterErr>(IterErr::UnexpectedEnd),
            },
    {
        reveal(spec_read_var);
        match read_var_at(self.bytes.as_slice(), pos) {
            Ok(x) => Ok(x),
            Err(_) => Err(IterErr::UnexpectedEnd),
        }
    }

    /// Decode the body of a STREAM frame of type `ty` at `p0`, returning the frame and the number
    /// of bytes it occupies
    fn parse_stream(&self, ty: u64, p0: usize) -> (res: Option<(Frame, usize)>)
        requires
            p0 <= self.bytes@.len(),
            spec_is_stream_ty(ty),
        ensures
            match spec_parse_stream(ty, self.bytes@.subrange(p0 as int, self.bytes@.len() as int)) {
                None => res is None,
                Some((f, c)) => res is Some && res->Some_0.0.spec_view() == f && res->Some_0.1 == c
                    && p0 + c <= self.bytes@.len(),
            },
    {
        let len = self.bytes.len();
        let ghost s0 = self.bytes@.subrange(p0 as int, len as int);
        let info = StreamInfo(ty as u8);
        let (id, n1) = match self.var_at(p0) {
            Ok(x) => x,
            Err(_) => {
                return None;
            },
        };
        let p1 = p0 + n1;
        let ghost s1 = s0.subrange(n1 as int, s0.len() as int);
        assert(s1 =~= self.bytes@.subrange(p1 as int, len as int));
        let (offset, n2) = if info.off() {
            match self.var_at(p1) {
                Ok(x) => x,
                Err(_) => {
                    return None;
                },
            }
        } else {
            (0u64, 0usize)
        };
        let p2 = p1 + n2;
        let ghost s2 = s1.subrange(n2 as int, s1.len() as int);
        assert(s2 =~= self.bytes@.subrange(p2 as int, len as int));
        let fin = info.fin();
        if info.len() {
            let (dlen, n3) = match self.var_at(p2) {
                Ok(x) => x,
                Err(_) => {
                    return None;
                },
            };
            let p3 = p2 + n3;
            let ghost s3 = s2.subrange(n3 as int, s2.len() as int);
            assert(s3 =~= self.bytes@.subrange(p3 as int, len as int));
            if dlen > (len - p3) as u64 {
                return None;
            }
            let end = p3 + dlen as usize;
            let mut data: Vec<u8> = Vec::new();
            put_slice(&mut data, &self.bytes.as_slice()[p3..end]);
            assert(data@ =~= s3.take(dlen as int));
            Some((Frame::Stream(Stream { id: StreamId(id), offset, fin, data }), end - p0))
        } else {
            let mut data: Vec<u8> = Vec::new();
            put_slice(&mut data, &self.bytes.as_slice()[p2..len]);
            assert(data@ =~= s2);
            Some((Frame::Stream(Stream { id: StreamId(id), offset, fin, data }), len - p0))
        }
    }

    /// Decode the frame at the front of the remaining bytes
    fn try_next(&mut self) -> (res: Result<Frame, IterErr>)
        requires
            !(spec_parse_frame(old(self).rest()) is Unsupported),
        ensures
            match spec_parse_frame(old(self).rest()) {
                FrameParse::Parsed(f, n) => {
                    &&& res is Ok
                    &&& res->Ok_0.spec_view() == f
                    &&& n <= old(self).rest().len()
                    &&& final(self).rest() == old(self).rest().subrange(
                        n as int,
                        old(self).rest().len() as int,
                    )
                    &&& final(self).spec_last_ty() == Some(
                        Type(spec_read_var(old(self).rest())->Some_0.0),
                    )
                },
                FrameParse::Failed(ty, e) => {
                    &&& res == Err::<Frame, IterErr>(e)
                    &&& final(self).spec_last_ty() == match ty {
                        Some(t) => Some(Type(t)),
                        None => old(self).spec_last_ty(),
                    }
                },
                FrameParse::Unsupported => false,
            },
    {
        proof {
            use_type_invariant(&*self);
        }
        let len = self.bytes.len();
        let ghost s = self.rest();
        let (t, n0) = match self.var_at(self.pos) {
            Ok(x) => x,
            Err(e) => {
                return Err(e);
            },
        };
        let ty = Type(t);
        self.last_ty = Some(ty);
        let p0 = self.pos + n0;
        let ghost s0 = s.subrange(n0 as int, s.len() as int);
        assert(s0 =~= self.bytes@.subrange(p0 as int, len as int));
        if ty.0 == 0 {
            self.pos = p0;
            assert(self.rest() =~= s0);
            return Ok(Frame::Padding);
        }
        if ty.stream().is_none() {
            return Err(IterErr::InvalidFrameId);
        }
        match self.parse_stream(ty.0, p0) {
            None => Err(IterErr::UnexpectedEnd),
            Some((f, c)) => {
                self.pos = p0 + c;
                assert(self.rest() =~= s.subrange((n0 + c) as int, s.len() as int));
                Ok(f)
            },
        }
    }

    /// The next frame, or `None` at the end of the payload
    ///
    /// A frame that cannot be decoded is reported with the type of the last frame whose type
    /// could be read, and ends the iteration: the rest of the payload is skipped.
    pub fn next(&mut self) -> (res: Option<Result<Frame, InvalidFrame>>)
        requires
            old(self).rest().len() > 0 ==> !(spec_parse_frame(old(self).rest()) is Unsupported),
        ensures
            old(self).rest().len() == 0 ==> res is None && final(self).rest() == old(self).rest()
                && final(self).spec_last_ty() == old(self).spec_last_ty(),
            old(self).rest().len() > 0 ==> match spec_parse_frame(old(self).rest()) {
                FrameParse::Parsed(f, n) => {
                    &&& res is Some
                    &&& res->Some_0 is Ok
                    &&& res->Some_0->Ok_0.spec_view() == f
                    &&& final(self).rest() == old(self).rest().subrange(
                        n as int,
                        old(self).rest().len() as int,
                    )
                },
                FrameParse::Failed(ty, e) => {
                    &&& res is Some
                    &&& res->Some_0 is Err
                    &&& res->Some_0->Err_0.ty == match ty {
                        Some(t) => Some(Type(t)),
                        None => old(self).spec_last_ty(),
                    }
                    &&& res->Some_0->Err_0.reason@ == match e {
                        IterErr::UnexpectedEnd => "unexpected end"@,
                        IterErr::InvalidFrameId => "invalid frame ID"@,
                    }
                    &&& final(self).rest().len() == 0
                },
                FrameParse::Unsupported => false,
            },
    {
        proof {
            use_type_invariant(&*self);
        }
        if self.pos >= self.bytes.len() {
            return None;
        }
        match self.try_next() {
            Ok(x) => Some(Ok(x)),
            Err(e) => {
                self.pos = 0;
                self.bytes = Vec::new();
                assert(self.rest() =~= Seq::<u8>::empty());
                Some(Err(InvalidFrame { ty: self.last_ty, reason: e.reason() }))
            },
        }
    }
}

/// Reason given by the transport for closing the connection
#[derive(Debug, Clone, PartialEq, Eq)]
pub struct ConnectionClose {
    /// Human-readable reason for the close
    pub reason: Vec<u8>,
}

/// Reason given by an application for closing the connection
#[derive(Debug, Clone, PartialEq, Eq)]
pub struct ApplicationClose {}

/// Smallest number of bytes a DATAGRAM frame's type and length are guaranteed to fit within
pub const DATAGRAM_SIZE_BOUND: usize = 9;

/// An unreliable datagram
#[derive(Debug, Clone)]
pub struct Datagram {
    /// Payload
    pub data: Vec<u8>,
}

/// A CRYPTO frame: handshake data at an offset of the crypto stream
#[derive(Debug, Clone)]
pub struct Crypto {
    /// Offset of the data
    pub offset: u64,
    /// The data
    pub data: Vec<u8>,
}

/// Encoding of a CRYPTO frame
pub open spec fn spec_crypto_encode(offset: u64, data: Seq<u8>) -> Seq<u8> {
    spec_varint_encode(0x06) + spec_varint_encode(offset) + spec_varint_encode(data.len() as u64)
        + data
}

impl Crypto {
    /// Append the encoding of this frame to `out`
    pub fn encode(&self, out: &mut Vec<u8>)
        requires
            self.offset < VARINT_BOUND,
            self.data@.len() < VARINT_BOUND,
        ensures
            final(out)@ == old(out)@ + spec_crypto_encode(self.offset, self.data@),
    {
        Type::CRYPTO().encode(out);
        write_var(out, self.offset);
        write_var(out, self.data.len() as u64);
        put_slice(out, self.data.as_slice());
        assert(final(out)@ =~= old(out)@ + spec_crypto_encode(self.offset, self.data@));
    }
}

/// An ACK_FREQUENCY frame
#[derive(Debug, Copy, Clone, PartialEq, Eq, Structural)]
pub struct AckFrequency {
    /// Sequence number of this frame
    pub sequence: VarInt,
    /// Number of ack-eliciting packets the peer may receive before it must send an ACK
    pub ack_eliciting_threshold: VarInt,
    /// Largest delay, in microseconds, the peer may wait before sending an ACK
    pub request_max_ack_delay: VarInt,
    /// Reordering the peer tolerates before sending an ACK
    pub reordering_threshold: VarInt,
}

impl AckFrequency {
    /// Append the encoding of this frame to `buf`
    pub fn encode(&self, buf: &mut Vec<u8>)
        ensures
            final(buf)@ == old(buf)@ + spec_varint_encode(0xaf) + spec_varint_encode(
                self.sequence@,
            ) + spec_varint_encode(self.ack_eliciting_threshold@) + spec_varint_encode(
                self.request_max_ack_delay@,
            ) + spec_varint_encode(self.reordering_threshold@),
    {
        Type::ACK_FREQUENCY().encode(buf);
        self.sequence.encode(buf);
        self.ack_eliciting_threshold.encode(buf);
        self.request_max_ack_delay.encode(buf);
        self.reordering_threshold.encode(buf);
    }
}

/// A NEW_CONNECTION_ID frame
#[derive(Debug, Copy, Clone)]
pub struct NewConnectionId {
    /// Sequence number of the new identifier
    pub sequence: u64,
    /// Identifiers with lower sequence numbers are to be retired
    pub retire_prior_to: u64,
    /// The new identifier
    pub id: ConnectionId,
    /// Token for a stateless reset of connections using the new identifier
    pub reset_token: ResetToken,
}

impl NewConnectionId {
    /// Append the encoding of this frame to `out`
    pub fn encode(&self, out: &mut Vec<u8>)
        requires
            self.sequence < VARINT_BOUND,
            self.retire_prior_to < VARINT_BOUND,
        ensures
            final(out)@ == old(out)@ + spec_varint_encode(0x18) + spec_varint_encode(self.sequence)
                + spec_varint_encode(self.retire_prior_to) + spec_encode_long(self.id@)
                + self.reset_token@,
    {
        Type::NEW_CONNECTION_ID().encode(out);
        write_var(out, self.sequence);
        write_var(out, self.retire_prior_to);
        self.id.encode_long(out);
        self.reset_token.encode(out);
    }
}

/// Counts of packets received with each ECN codepoint
#[derive(Debug, Copy, Clone, PartialEq, Eq, Structural)]
pub struct EcnCounts {
    /// ECT(0)
    pub ect0: u64,
    /// ECT(1)
    pub ect1: u64,
    /// CE
    pub ce: u64,
}

impl EcnCounts {
    /// No packets counted
    #[verifier::allow_in_spec]
    #[allow(non_snake_case)]
    pub fn ZERO() -> EcnCounts
        returns
            (EcnCounts { ect0: 0, ect1: 0, ce: 0 }),
    {
        EcnCounts { ect0: 0, ect1: 0, ce: 0 }
    }

    /// Count one more packet received with codepoint `rhs`
    pub fn add_assign(&mut self, rhs: EcnCodepoint)
        requires
            match rhs {
                EcnCodepoint::Ect0 => old(self).ect0 < u64::MAX,
                EcnCodepoint::Ect1 => old(self).ect1 < u64::MAX,
                EcnCodepoint::Ce => old(self).ce < u64::MAX,
            },
        ensures
            *final(self) == match rhs {
                EcnCodepoint::Ect0 => EcnCounts { ect0: (old(self).ect0 + 1) as u64, ..*old(self) },
                EcnCodepoint::Ect1 => EcnCounts { ect1: (old(self).ect1 + 1) as u64, ..*old(self) },
                EcnCodepoint::Ce => EcnCounts { ce: (old(self).ce + 1) as u64, ..*old(self) },
            },
    {
        match rhs {
            EcnCodepoint::Ect0 => {
                self.ect0 = self.ect0 + 1;
            },
            EcnCodepoint::Ect1 => {
                self.ect1 = self.ect1 + 1;
            },
            EcnCodepoint::Ce => {
                self.ce = self.ce + 1;
            },
        }
    }
}

} // verus!
