//! Records of the peer wire protocol: the handshake and the length-prefixed
//! message frames, with their exact byte layouts.
use vstd::prelude::*;
use crate::be_bytes::{
    push_u32_be, spec_u32_from_be_bytes, spec_u32_to_be_bytes, lemma_u32_be_bytes_round_trip,
    u32_from_be,
};

verus! {

/// Malformed input at a parser boundary: the bytes do not carry a record.
#[derive(Debug, Clone, Copy, PartialEq, Eq, Structural)]
pub enum CodecError {
    BadFormat,
}

/// A record that travels on the peer wire: it encodes to its exact layout and
/// decodes back, failing with `BadFormat` on inputs that are too short.
pub trait PeerMessage: View + Sized {
    spec fn wf(&self) -> bool;

    spec fn spec_bytes(&self) -> Seq<u8>;

    spec fn spec_parse(bytes: Seq<u8>) -> Result<Self::V, CodecError>;

    fn to_bytes(&self) -> (r: Vec<u8>)
        requires
            self.wf(),
        ensures
            r@ == self.spec_bytes(),
    ;

    fn from_bytes(bytes: &[u8]) -> (r: Result<Self, CodecError>)
        ensures
            r.is_ok() == Self::spec_parse(bytes@).is_ok(),
            r matches Ok(m) ==> m@ == Self::spec_parse(bytes@).unwrap() && m.wf(),
    ;
}

/// The opening record of every peer connection:
/// `pstrlen(1) || pstr(pstrlen) || reserved(8 zero) || info_hash(20) || peer_id(20)`.
#[derive(Debug, PartialEq)]
pub struct HandShake {
    pub pstr: Vec<u8>,
    pub info_hash: Vec<u8>,
    pub peer_id: Vec<u8>,
}

pub struct HandShakeView {
    pub pstr: Seq<u8>,
    pub info_hash: Seq<u8>,
    pub peer_id: Seq<u8>,
}

impl View for HandShake {
    type V = HandShakeView;

    open spec fn view(&self) -> HandShakeView {
        HandShakeView { pstr: self.pstr@, info_hash: self.info_hash@, peer_id: self.peer_id@ }
    }
}

impl HandShakeView {
    pub open spec fn wf(self) -> bool {
        self.pstr.len() <= 255 && self.info_hash.len() == 20 && self.peer_id.len() == 20
    }
}

pub open spec fn spec_reserved_bytes() -> Seq<u8> {
    Seq::new(8, |i: int| 0u8)
}

pub open spec fn spec_handshake_bytes(h: HandShakeView) -> Seq<u8> {
    seq![h.pstr.len() as u8] + h.pstr + spec_reserved_bytes() + h.info_hash + h.peer_id
}

pub open spec fn spec_parse_handshake(b: Seq<u8>) -> Result<HandShakeView, CodecError> {
    if b.len() < 1 {
        Err(CodecError::BadFormat)
    } else {
        let n = b[0] as int;
        if b.len() < 49 + n {
            Err(CodecError::BadFormat)
        } else {
            Ok(
                HandShakeView {
                    pstr: b.subrange(1, 1 + n),
                    info_hash: b.subrange(9 + n, 29 + n),
                    peer_id: b.subrange(29 + n, 49 + n),
                },
            )
        }
    }
}

/// Round trip of the handshake layout: decoding what a well-formed handshake
/// encodes gives the handshake back.
pub proof fn lemma_handshake_round_trip(h: HandShakeView)
    requires
        h.wf(),
    ensures
        spec_parse_handshake(spec_handshake_bytes(h)) == Ok::<HandShakeView, CodecError>(h),
{
    let b = spec_handshake_bytes(h);
    let n = h.pstr.len() as int;
    assert(b[0] == n as u8);
    assert(b.len() == 49 + n);
    let parsed = spec_parse_handshake(b).unwrap();
    assert(parsed.pstr =~= h.pstr);
    assert(parsed.info_hash =~= h.info_hash);
    assert(parsed.peer_id =~= h.peer_id);
}

impl PeerMessage for HandShake {
    open spec fn wf(&self) -> bool {
        self@.wf()
    }

    open spec fn spec_bytes(&self) -> Seq<u8> {
        spec_handshake_bytes(self@)
    }

    open spec fn spec_parse(bytes: Seq<u8>) -> Result<HandShakeView, CodecError> {
        spec_parse_handshake(bytes)
    }

    fn to_bytes(&self) -> (r: Vec<u8>) {
        let mut out: Vec<u8> = Vec::new();
        out.push(self.pstr.len() as u8);
        out.extend_from_slice(self.pstr.as_slice());
        let mut i: usize = 0;
        while i < 8
            invariant
                i <= 8,
                out@ == seq![self.pstr@.len() as u8] + self.pstr@ + spec_reserved_bytes().take(
                    i as int,
                ),
            decreases 8 - i,
        {
            out.push(0);
            i = i + 1;
            proof {
                assert(out@ =~= seq![self.pstr@.len() as u8] + self.pstr@
                    + spec_reserved_bytes().take(i as int));
            }
        }
        out.extend_from_slice(self.info_hash.as_slice());
        out.extend_from_slice(self.peer_id.as_slice());
        proof {
            assert(spec_reserved_bytes().take(8) =~= spec_reserved_bytes());
            assert(out@ =~= spec_handshake_bytes(self@));
        }
        out
    }

    fn from_bytes(bytes: &[u8]) -> (r: Result<Self, CodecError>) {
        if bytes.len() < 1 {
            return Err(CodecError::BadFormat);
        }
        let n = bytes[0] as usize;
        if bytes.len() < 49 + n {
            return Err(CodecError::BadFormat);
        }
        let pstr = vstd::slice::slice_to_vec(vstd::slice::slice_subrange(bytes, 1, 1 + n));
        let info_hash = vstd::slice::slice_to_vec(
            vstd::slice::slice_subrange(bytes, 9 + n, 29 + n),
        );
        let peer_id = vstd::slice::slice_to_vec(
            vstd::slice::slice_subrange(bytes, 29 + n, 49 + n),
        );
        Ok(HandShake { pstr, info_hash, peer_id })
    }
}

/// The identifiers that the peer wire assigns to its messages.
#[derive(Debug, Clone, Copy, PartialEq, Eq, Structural)]
pub enum MessageTypes {
    Choke,
    Unchoke,
    Interested,
    NotInterested,
    Have,
    Bitfield,
    Request,
    Piece,
    Cancel,
    Port,
}

pub open spec fn spec_message_type_id(t: MessageTypes) -> u8 {
    match t {
        MessageTypes::Choke => 0,
        MessageTypes::Unchoke => 1,
        MessageTypes::Interested => 2,
        MessageTypes::NotInterested => 3,
        MessageTypes::Have => 4,
        MessageTypes::Bitfield => 5,
        MessageTypes::Request => 6,
        MessageTypes::Piece => 7,
        MessageTypes::Cancel => 8,
        MessageTypes::Port => 9,
    }
}

pub open spec fn spec_message_type_from_id(value: u8) -> Option<MessageTypes> {
    match value {
        0u8 => Some(MessageTypes::Choke),
        1u8 => Some(MessageTypes::Unchoke),
        2u8 => Some(MessageTypes::Interested),
        3u8 => Some(MessageTypes::NotInterested),
        4u8 => Some(MessageTypes::Have),
        5u8 => Some(MessageTypes::Bitfield),
        6u8 => Some(MessageTypes::Request),
        7u8 => Some(MessageTypes::Piece),
        8u8 => Some(MessageTypes::Cancel),
        9u8 => Some(MessageTypes::Port),
        _ => None,
    }
}

impl MessageTypes {
    /// A wire identifier names a message kind only for values 0 through 9;
    /// 0 is a valid `Choke`.
    pub fn from_id(value: u8) -> (r: Option<MessageTypes>)
        ensures
            r == spec_message_type_from_id(value),
    {
        match value {
            0u8 => Some(MessageTypes::Choke),
            1u8 => Some(MessageTypes::Unchoke),
            2u8 => Some(MessageTypes::Interested),
            3u8 => Some(MessageTypes::NotInterested),
            4u8 => Some(MessageTypes::Have),
            5u8 => Some(MessageTypes::Bitfield),
            6u8 => Some(MessageTypes::Request),
            7u8 => Some(MessageTypes::Piece),
            8u8 => Some(MessageTypes::Cancel),
            9u8 => Some(MessageTypes::Port),
            _ => None,
        }
    }

    pub fn id(&self) -> (r: u8)
        ensures
            r == spec_message_type_id(*self),
    {
        match self {
            MessageTypes::Choke => 0,
            MessageTypes::Unchoke => 1,
            MessageTypes::Interested => 2,
            MessageTypes::NotInterested => 3,
            MessageTypes::Have => 4,
            MessageTypes::Bitfield => 5,
            MessageTypes::Request => 6,
            MessageTypes::Piece => 7,
            MessageTypes::Cancel => 8,
            MessageTypes::Port => 9,
        }
    }
}

/// Identifiers round-trip: every message kind decodes from its own identifier.
pub proof fn lemma_message_type_id_round_trip(t: MessageTypes)
    ensures
        spec_message_type_from_id(spec_message_type_id(t)) == Some(t),
{
}

/// The unit that the framing layer delivers: a keep-alive (an empty frame,
/// which carries no identifier), or a message with its identifier and payload.
#[derive(Debug, PartialEq)]
pub enum RawMessage {
    KeepAlive,
    Message { message_id: u8, payload: Vec<u8> },
}

pub enum RawMessageView {
    KeepAlive,
    Message { message_id: u8, payload: Seq<u8> },
}

impl View for RawMessage {
    type V = RawMessageView;

    open spec fn view(&self) -> RawMessageView {
        match self {
            RawMessage::KeepAlive => RawMessageView::KeepAlive,
            RawMessage::Message { message_id, payload } => RawMessageView::Message {
                message_id: *message_id,
                payload: payload@,
            },
        }
    }
}

impl RawMessageView {
    /// The frame length (one byte for the identifier plus the payload) must
    /// fit the 4-byte length prefix.
    pub open spec fn wf(self) -> bool {
        match self {
            RawMessageView::KeepAlive => true,
            RawMessageView::Message { payload, .. } => payload.len() + 1 <= u32::MAX,
        }
    }
}

/// The bytes of a frame body, after the length prefix has been stripped.
pub open spec fn spec_raw_message_bytes(m: RawMessageView) -> Seq<u8> {
    match m {
        RawMessageView::KeepAlive => Seq::empty(),
        RawMessageView::Message { message_id, payload } => seq![message_id] + payload,
    }
}

/// What a frame body of the given bytes stands for: empty bodies are
/// keep-alives, anything else is an identifier followed by the payload.
pub open spec fn spec_raw_message_from_bytes(b: Seq<u8>) -> RawMessageView {
    if b.len() == 0 {
        RawMessageView::KeepAlive
    } else {
        RawMessageView::Message { message_id: b[0], payload: b.subrange(1, b.len() as int) }
    }
}

/// Round trip of the frame body: a message's bytes decode to the message.
pub proof fn lemma_raw_message_round_trip(m: RawMessageView)
    ensures
        spec_raw_message_from_bytes(spec_raw_message_bytes(m)) == m,
{
    match m {
        RawMessageView::KeepAlive => {},
        RawMessageView::Message { message_id, payload } => {
            let b = spec_raw_message_bytes(m);
            assert(b.subrange(1, b.len() as int) =~= payload);
        },
    }
}

impl RawMessage {
    /// Decode a frame body. The empty body is the keep-alive sentinel.
    pub fn from_bytes(bytes: &[u8]) -> (r: RawMessage)
        ensures
            r@ == spec_raw_message_from_bytes(bytes@),
    {
        if bytes.len() == 0 {
            return RawMessage::KeepAlive;
        }
        let message_id = bytes[0];
        let payload = vstd::slice::slice_to_vec(
            vstd::slice::slice_subrange(bytes, 1, bytes.len()),
        );
        RawMessage::Message { message_id, payload }
    }

    /// Encode the frame body: nothing for a keep-alive, the identifier
    /// followed by the payload otherwise.
    pub fn to_bytes(&self) -> (r: Vec<u8>)
        ensures
            r@ == spec_raw_message_bytes(self@),
    {
        match self {
            RawMessage::KeepAlive => Vec::new(),
            RawMessage::Message { message_id, payload } => {
                let mut out: Vec<u8> = Vec::new();
                out.push(*message_id);
                out.extend_from_slice(payload.as_slice());
                proof {
                    assert(out@ =~= spec_raw_message_bytes(self@));
                }
                out
            },
        }
    }

    /// The message identifier: 0 for a keep-alive, by convention of this
    /// codec (the wire carries no identifier byte in a keep-alive frame).
    pub fn message_id(&self) -> (r: u8)
        ensures
            r == (match self@ {
                RawMessageView::KeepAlive => 0u8,
                RawMessageView::Message { message_id, .. } => message_id,
            }),
    {
        match self {
            RawMessage::KeepAlive => 0,
            RawMessage::Message { message_id, .. } => *message_id,
        }
    }

    /// The payload: empty for a keep-alive.
    pub fn payload(&self) -> (r: Vec<u8>)
        ensures
            r@ == (match self@ {
                RawMessageView::KeepAlive => Seq::<u8>::empty(),
                RawMessageView::Message { payload, .. } => payload,
            }),
    {
        match self {
            RawMessage::KeepAlive => Vec::new(),
            RawMessage::Message { payload, .. } => {
                let mut out: Vec<u8> = Vec::new();
                out.extend_from_slice(payload.as_slice());
                proof {
                    assert(out@ =~= payload@);
                }
                out
            },
        }
    }
}

/// The bytes of a whole frame: `length: u32 (big-endian) || body`.
pub open spec fn spec_frame_bytes(m: RawMessageView) -> Seq<u8> {
    spec_u32_to_be_bytes(spec_raw_message_bytes(m).len() as u32) + spec_raw_message_bytes(m)
}

/// Parse one frame from the front of a buffer: the decoded message and how
/// many bytes it took. `BadFormat` when the buffer holds no complete frame.
pub open spec fn spec_parse_frame(b: Seq<u8>) -> Result<(RawMessageView, int), CodecError> {
    if b.len() < 4 {
        Err(CodecError::BadFormat)
    } else {
        let len = spec_u32_from_be_bytes(b.subrange(0, 4)) as int;
        if b.len() < 4 + len {
            Err(CodecError::BadFormat)
        } else {
            Ok((spec_raw_message_from_bytes(b.subrange(4, 4 + len)), 4 + len))
        }
    }
}

/// Round trip of the framing: a well-formed message's frame parses back to
/// the message, consuming the whole frame.
pub proof fn lemma_frame_round_trip(m: RawMessageView)
    requires
        m.wf(),
    ensures
        spec_parse_frame(spec_frame_bytes(m)) == Ok::<(RawMessageView, int), CodecError>(
            (m, spec_frame_bytes(m).len() as int),
        ),
{
    let body = spec_raw_message_bytes(m);
    let b = spec_frame_bytes(m);
    assert(b.subrange(0, 4) =~= spec_u32_to_be_bytes(body.len() as u32));
    lemma_u32_be_bytes_round_trip(body.len() as u32);
    assert(body.len() as u32 as int == body.len() as int);
    assert(b.subrange(4, 4 + body.len() as int) =~= body);
    lemma_raw_message_round_trip(m);
}

/// Parse one frame from the front of `buf`: the message and the bytes
/// consumed. Fails with `BadFormat` when `buf` holds no complete frame.
pub fn read_frame(buf: &[u8]) -> (r: Result<(RawMessage, usize), CodecError>)
    ensures
        r.is_ok() == spec_parse_frame(buf@).is_ok(),
        r matches Ok((m, used)) ==> {
            let parsed = spec_parse_frame(buf@).unwrap();
            m@ == parsed.0 && used as int == parsed.1
        },
{
    if buf.len() < 4 {
        return Err(CodecError::BadFormat);
    }
    let len = u32_from_be(vstd::slice::slice_subrange(buf, 0, 4)) as usize;
    if buf.len() - 4 < len {
        return Err(CodecError::BadFormat);
    }
    let body = vstd::slice::slice_subrange(buf, 4, 4 + len);
    Ok((RawMessage::from_bytes(body), 4 + len))
}

/// Encode a whole frame: the body's length as a 4-byte big-endian prefix,
/// then the body. A keep-alive is the 4-byte zero frame.
pub fn encode_frame(m: &RawMessage) -> (r: Vec<u8>)
    requires
        m@.wf(),
    ensures
        r@ == spec_frame_bytes(m@),
{
    let body = m.to_bytes();
    let mut out: Vec<u8> = Vec::new();
    push_u32_be(&mut out, body.len() as u32);
    out.extend_from_slice(body.as_slice());
    proof {
        assert(out@ =~= spec_frame_bytes(m@));
    }
    out
}

} // verus!
