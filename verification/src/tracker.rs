//! Records and rules of the UDP tracker protocol: the CONNECT and ANNOUNCE
//! exchanges, their exact byte layouts, the datagram checks that a client
//! must apply, and the lifetime of a connection id.
use vstd::prelude::*;
use crate::be_bytes::{
    push_u16_be, push_u32_be, push_u64_be, push_i32_be, push_i64_be, spec_u16_to_be_bytes,
    spec_u16_from_be_bytes, spec_u32_to_be_bytes, spec_u32_from_be_bytes, spec_u64_to_be_bytes,
    spec_u64_from_be_bytes, spec_i32_to_be_bytes, spec_i32_from_be_bytes, spec_i64_to_be_bytes,
    spec_i64_from_be_bytes, lemma_u16_be_bytes_round_trip, lemma_u32_be_bytes_round_trip,
    lemma_u64_be_bytes_round_trip, lemma_i32_be_bytes_round_trip, lemma_i64_be_bytes_round_trip,
    lemma_u16_from_be_bytes_round_trip, lemma_u32_from_be_bytes_round_trip,
    lemma_u64_from_be_bytes_round_trip, lemma_i32_from_be_bytes_round_trip,
    lemma_i64_from_be_bytes_round_trip, u16_from_be, u32_from_be, u64_from_be, i32_from_be,
    i64_from_be,
};
use crate::messages::CodecError;
use crate::peers::{
    PeerAddress, spec_peer_address_from_bytes, spec_peer_address_bytes,
    lemma_peer_address_round_trip,
};
use crate::rng::random_u32;

verus! {

/// The magic constant that opens every CONNECT request.
pub const PROTOCOL_ID: i64 = 0x41727101980;

pub const CONNECT_REQUEST_SIZE: usize = 16;

pub const CONNECT_RESPONSE_SIZE: usize = 16;

pub const ANNOUNCE_REQUEST_BYTES: usize = 98;

/// The least size of an ANNOUNCE response: the header before the peer tail.
pub const ANNOUNCE_RESPONSE_HEADER_BYTES: usize = 20;

/// A tracker response failure, and the waits and transports around it.
#[derive(Debug, Clone, Copy, PartialEq, Eq, Structural)]
pub enum TrackerError {
    /// The bounded wait for a datagram elapsed.
    TimedOut,
    /// The response fails a structural or protocol check.
    BadResponse,
    /// The connection id is older than its validity window.
    ConnectionIdExpired,
    /// The OS or the network failed underneath.
    Transport,
}

/// CONNECT request (16 bytes):
/// `protocol_id: i64 || action: u32 = 0 || transaction_id: u32`.
#[derive(Debug, Clone, Copy, PartialEq, Eq, Structural)]
pub struct ConnectRequest {
    pub protocol_id: i64,
    pub action: u32,
    pub transaction_id: u32,
}

pub open spec fn spec_connect_request_bytes(r: ConnectRequest) -> Seq<u8> {
    spec_i64_to_be_bytes(r.protocol_id) + spec_u32_to_be_bytes(r.action) + spec_u32_to_be_bytes(
        r.transaction_id,
    )
}

pub open spec fn spec_parse_connect_request(b: Seq<u8>) -> Result<ConnectRequest, CodecError> {
    if b.len() < 16 {
        Err(CodecError::BadFormat)
    } else {
        Ok(
            ConnectRequest {
                protocol_id: spec_i64_from_be_bytes(b.subrange(0, 8)),
                action: spec_u32_from_be_bytes(b.subrange(8, 12)),
                transaction_id: spec_u32_from_be_bytes(b.subrange(12, 16)),
            },
        )
    }
}

/// Round trip of the CONNECT request layout.
pub proof fn lemma_connect_request_round_trip(r: ConnectRequest)
    ensures
        spec_parse_connect_request(spec_connect_request_bytes(r)) == Ok::<
            ConnectRequest,
            CodecError,
        >(r),
{
    let b = spec_connect_request_bytes(r);
    assert(b.subrange(0, 8) =~= spec_i64_to_be_bytes(r.protocol_id));
    assert(b.subrange(8, 12) =~= spec_u32_to_be_bytes(r.action));
    assert(b.subrange(12, 16) =~= spec_u32_to_be_bytes(r.transaction_id));
    lemma_i64_be_bytes_round_trip(r.protocol_id);
    lemma_u32_be_bytes_round_trip(r.action);
    lemma_u32_be_bytes_round_trip(r.transaction_id);
}

impl ConnectRequest {
    /// A fresh CONNECT request: the protocol magic, action 0, and a fresh
    /// random transaction id.
    pub fn new() -> (r: ConnectRequest)
        ensures
            r.protocol_id == PROTOCOL_ID,
            r.action == 0,
    {
        ConnectRequest { protocol_id: PROTOCOL_ID, action: 0, transaction_id: random_u32() }
    }

    pub fn to_bytes(&self) -> (r: Vec<u8>)
        ensures
            r@ == spec_connect_request_bytes(*self),
            r@.len() == CONNECT_REQUEST_SIZE,
    {
        let mut out: Vec<u8> = Vec::new();
        push_i64_be(&mut out, self.protocol_id);
        push_u32_be(&mut out, self.action);
        push_u32_be(&mut out, self.transaction_id);
        proof {
            assert(out@ =~= spec_connect_request_bytes(*self));
        }
        out
    }

    pub fn from_bytes(bytes: &[u8]) -> (r: Result<ConnectRequest, CodecError>)
        ensures
            r == spec_parse_connect_request(bytes@),
    {
        if bytes.len() < 16 {
            return Err(CodecError::BadFormat);
        }
        let protocol_id = i64_from_be(vstd::slice::slice_subrange(bytes, 0, 8));
        let action = u32_from_be(vstd::slice::slice_subrange(bytes, 8, 12));
        let transaction_id = u32_from_be(vstd::slice::slice_subrange(bytes, 12, 16));
        Ok(ConnectRequest { protocol_id, action, transaction_id })
    }
}

/// CONNECT response (16 bytes):
/// `action: u32 (expect 0) || transaction_id: u32 || connection_id: i64`.
#[derive(Debug, Clone, Copy, PartialEq, Eq, Structural)]
pub struct ConnectResponse {
    pub action: u32,
    pub transaction_id: u32,
    pub connection_id: i64,
}

pub open spec fn spec_connect_response_bytes(r: ConnectResponse) -> Seq<u8> {
    spec_u32_to_be_bytes(r.action) + spec_u32_to_be_bytes(r.transaction_id) + spec_i64_to_be_bytes(
        r.connection_id,
    )
}

pub open spec fn spec_parse_connect_response(b: Seq<u8>) -> Result<ConnectResponse, CodecError> {
    if b.len() < 16 {
        Err(CodecError::BadFormat)
    } else {
        Ok(
            ConnectResponse {
                action: spec_u32_from_be_bytes(b.subrange(0, 4)),
                transaction_id: spec_u32_from_be_bytes(b.subrange(4, 8)),
                connection_id: spec_i64_from_be_bytes(b.subrange(8, 16)),
            },
        )
    }
}

/// Round trip of the CONNECT response layout.
pub proof fn lemma_connect_response_round_trip(r: ConnectResponse)
    ensures
        spec_parse_connect_response(spec_connect_response_bytes(r)) == Ok::<
            ConnectResponse,
            CodecError,
        >(r),
{
    let b = spec_connect_response_bytes(r);
    assert(b.subrange(0, 4) =~= spec_u32_to_be_bytes(r.action));
    assert(b.subrange(4, 8) =~= spec_u32_to_be_bytes(r.transaction_id));
    assert(b.subrange(8, 16) =~= spec_i64_to_be_bytes(r.connection_id));
    lemma_u32_be_bytes_round_trip(r.action);
    lemma_u32_be_bytes_round_trip(r.transaction_id);
    lemma_i64_be_bytes_round_trip(r.connection_id);
}

impl ConnectResponse {
    pub fn to_bytes(&self) -> (r: Vec<u8>)
        ensures
            r@ == spec_connect_response_bytes(*self),
            r@.len() == CONNECT_RESPONSE_SIZE,
    {
        let mut out: Vec<u8> = Vec::new();
        push_u32_be(&mut out, self.action);
        push_u32_be(&mut out, self.transaction_id);
        push_i64_be(&mut out, self.connection_id);
        proof {
            assert(out@ =~= spec_connect_response_bytes(*self));
        }
        out
    }

    pub fn from_bytes(bytes: &[u8]) -> (r: Result<ConnectResponse, CodecError>)
        ensures
            r == spec_parse_connect_response(bytes@),
    {
        if bytes.len() < 16 {
            return Err(CodecError::BadFormat);
        }
        let action = u32_from_be(vstd::slice::slice_subrange(bytes, 0, 4));
        let transaction_id = u32_from_be(vstd::slice::slice_subrange(bytes, 4, 8));
        let connection_id = i64_from_be(vstd::slice::slice_subrange(bytes, 8, 16));
        Ok(ConnectResponse { action, transaction_id, connection_id })
    }
}

/// What an ANNOUNCE tells the tracker about this client's state.
#[derive(Debug, Clone, Copy, PartialEq, Eq, Structural)]
pub enum AnnounceEvent {
    NoEvent,
    Completed,
    Started,
    Stopped,
}

pub open spec fn spec_event_code(e: AnnounceEvent) -> u32 {
    match e {
        AnnounceEvent::NoEvent => 0,
        AnnounceEvent::Completed => 1,
        AnnounceEvent::Started => 2,
        AnnounceEvent::Stopped => 3,
    }
}

pub open spec fn spec_event_from_code(code: u32) -> Option<AnnounceEvent> {
    match code {
        0u32 => Some(AnnounceEvent::NoEvent),
        1u32 => Some(AnnounceEvent::Completed),
        2u32 => Some(AnnounceEvent::Started),
        3u32 => Some(AnnounceEvent::Stopped),
        _ => None,
    }
}

/// Event codes round-trip: every event decodes from its own code.
pub proof fn lemma_event_code_round_trip(e: AnnounceEvent)
    ensures
        spec_event_from_code(spec_event_code(e)) == Some(e),
{
}

impl AnnounceEvent {
    pub fn code(&self) -> (r: u32)
        ensures
            r == spec_event_code(*self),
    {
        match self {
            AnnounceEvent::NoEvent => 0,
            AnnounceEvent::Completed => 1,
            AnnounceEvent::Started => 2,
            AnnounceEvent::Stopped => 3,
        }
    }

    pub fn from_code(code: u32) -> (r: Option<AnnounceEvent>)
        ensures
            r == spec_event_from_code(code),
    {
        match code {
            0u32 => Some(AnnounceEvent::NoEvent),
            1u32 => Some(AnnounceEvent::Completed),
            2u32 => Some(AnnounceEvent::Started),
            3u32 => Some(AnnounceEvent::Stopped),
            _ => None,
        }
    }
}

/// What a caller supplies for one ANNOUNCE: the session's connection id,
/// the identities, and the transfer counters.
#[derive(Debug)]
pub struct AnnounceRequestDescriptor {
    pub connection_id: i64,
    pub peer_id: Vec<u8>,
    pub info_hash: Vec<u8>,
    pub downloaded: u64,
    pub left: u64,
    pub uploaded: u64,
    pub event: AnnounceEvent,
}

/// ANNOUNCE request (98 bytes): `connection_id: i64 || action: u32 = 1 ||
/// transaction_id: u32 || info_hash[20] || peer_id[20] || downloaded: u64 ||
/// left: u64 || uploaded: u64 || event: u32 || ip_address: u32 || key: u32 ||
/// num_want: i32 || port: u16`.
#[derive(Debug, PartialEq)]
pub struct AnnounceRequest {
    pub connection_id: i64,
    pub action: u32,
    pub transaction_id: u32,
    pub info_hash: Vec<u8>,
    pub peer_id: Vec<u8>,
    pub downloaded: u64,
    pub left: u64,
    pub uploaded: u64,
    pub event: AnnounceEvent,
    pub ip_address: u32,
    pub key: u32,
    pub num_want: i32,
    pub port: u16,
}

pub struct AnnounceRequestView {
    pub connection_id: i64,
    pub action: u32,
    pub transaction_id: u32,
    pub info_hash: Seq<u8>,
    pub peer_id: Seq<u8>,
    pub downloaded: u64,
    pub left: u64,
    pub uploaded: u64,
    pub event: AnnounceEvent,
    pub ip_address: u32,
    pub key: u32,
    pub num_want: i32,
    pub port: u16,
}

impl View for AnnounceRequest {
    type V = AnnounceRequestView;

    open spec fn view(&self) -> AnnounceRequestView {
        AnnounceRequestView {
            connection_id: self.connection_id,
            action: self.action,
            transaction_id: self.transaction_id,
            info_hash: self.info_hash@,
            peer_id: self.peer_id@,
            downloaded: self.downloaded,
            left: self.left,
            uploaded: self.uploaded,
            event: self.event,
            ip_address: self.ip_address,
            key: self.key,
            num_want: self.num_want,
            port: self.port,
        }
    }
}

impl AnnounceRequestView {
    pub open spec fn wf(self) -> bool {
        self.info_hash.len() == 20 && self.peer_id.len() == 20
    }
}

pub open spec fn spec_announce_request_bytes(v: AnnounceRequestView) -> Seq<u8> {
    spec_i64_to_be_bytes(v.connection_id) + spec_u32_to_be_bytes(v.action) + spec_u32_to_be_bytes(
        v.transaction_id,
    ) + v.info_hash + v.peer_id + spec_u64_to_be_bytes(v.downloaded) + spec_u64_to_be_bytes(v.left)
        + spec_u64_to_be_bytes(v.uploaded) + spec_u32_to_be_bytes(spec_event_code(v.event))
        + spec_u32_to_be_bytes(v.ip_address) + spec_u32_to_be_bytes(v.key) + spec_i32_to_be_bytes(
        v.num_want,
    ) + spec_u16_to_be_bytes(v.port)
}

pub open spec fn spec_parse_announce_request(b: Seq<u8>) -> Result<
    AnnounceRequestView,
    CodecError,
> {
    if b.len() < 98 {
        Err(CodecError::BadFormat)
    } else {
        let code = spec_u32_from_be_bytes(b.subrange(80, 84));
        match spec_event_from_code(code) {
            Option::None => Err(CodecError::BadFormat),
            Option::Some(event) => Ok(
                AnnounceRequestView {
                    connection_id: spec_i64_from_be_bytes(b.subrange(0, 8)),
                    action: spec_u32_from_be_bytes(b.subrange(8, 12)),
                    transaction_id: spec_u32_from_be_bytes(b.subrange(12, 16)),
                    info_hash: b.subrange(16, 36),
                    peer_id: b.subrange(36, 56),
                    downloaded: spec_u64_from_be_bytes(b.subrange(56, 64)),
                    left: spec_u64_from_be_bytes(b.subrange(64, 72)),
                    uploaded: spec_u64_from_be_bytes(b.subrange(72, 80)),
                    event,
                    ip_address: spec_u32_from_be_bytes(b.subrange(84, 88)),
                    key: spec_u32_from_be_bytes(b.subrange(88, 92)),
                    num_want: spec_i32_from_be_bytes(b.subrange(92, 96)),
                    port: spec_u16_from_be_bytes(b.subrange(96, 98)),
                },
            ),
        }
    }
}

/// Round trip of the ANNOUNCE request layout, record first.
#[verifier::rlimit(60)]
pub proof fn lemma_announce_request_round_trip(v: AnnounceRequestView)
    requires
        v.wf(),
    ensures
        spec_parse_announce_request(spec_announce_request_bytes(v)) == Ok::<
            AnnounceRequestView,
            CodecError,
        >(v),
{
    let b = spec_announce_request_bytes(v);
    assert(b.len() == 98);
    assert(b.subrange(0, 8) =~= spec_i64_to_be_bytes(v.connection_id));
    assert(b.subrange(8, 12) =~= spec_u32_to_be_bytes(v.action));
    assert(b.subrange(12, 16) =~= spec_u32_to_be_bytes(v.transaction_id));
    assert(b.subrange(16, 36) =~= v.info_hash);
    assert(b.subrange(36, 56) =~= v.peer_id);
    assert(b.subrange(56, 64) =~= spec_u64_to_be_bytes(v.downloaded));
    assert(b.subrange(64, 72) =~= spec_u64_to_be_bytes(v.left));
    assert(b.subrange(72, 80) =~= spec_u64_to_be_bytes(v.uploaded));
    assert(b.subrange(80, 84) =~= spec_u32_to_be_bytes(spec_event_code(v.event)));
    assert(b.subrange(84, 88) =~= spec_u32_to_be_bytes(v.ip_address));
    assert(b.subrange(88, 92) =~= spec_u32_to_be_bytes(v.key));
    assert(b.subrange(92, 96) =~= spec_i32_to_be_bytes(v.num_want));
    assert(b.subrange(96, 98) =~= spec_u16_to_be_bytes(v.port));
    lemma_i64_be_bytes_round_trip(v.connection_id);
    lemma_u32_be_bytes_round_trip(v.action);
    lemma_u32_be_bytes_round_trip(v.transaction_id);
    lemma_u64_be_bytes_round_trip(v.downloaded);
    lemma_u64_be_bytes_round_trip(v.left);
    lemma_u64_be_bytes_round_trip(v.uploaded);
    lemma_u32_be_bytes_round_trip(spec_event_code(v.event));
    lemma_event_code_round_trip(v.event);
    lemma_u32_be_bytes_round_trip(v.ip_address);
    lemma_u32_be_bytes_round_trip(v.key);
    lemma_i32_be_bytes_round_trip(v.num_want);
    lemma_u16_be_bytes_round_trip(v.port);
}

impl AnnounceRequest {
    /// Build the request for one ANNOUNCE: the descriptor's fields verbatim,
    /// action 1, a fresh random transaction id and key, the caller's address
    /// (0), the default want (-1), and the advertised port 6881.
    pub fn new(descriptor: AnnounceRequestDescriptor) -> (r: AnnounceRequest)
        ensures
            r.connection_id == descriptor.connection_id,
            r.action == 1,
            r.info_hash@ == descriptor.info_hash@,
            r.peer_id@ == descriptor.peer_id@,
            r.downloaded == descriptor.downloaded,
            r.left == descriptor.left,
            r.uploaded == descriptor.uploaded,
            r.event == descriptor.event,
            r.ip_address == 0,
            r.num_want == -1,
            r.port == 6881,
    {
        AnnounceRequest {
            connection_id: descriptor.connection_id,
            action: 1,
            transaction_id: random_u32(),
            info_hash: descriptor.info_hash,
            peer_id: descriptor.peer_id,
            downloaded: descriptor.downloaded,
            left: descriptor.left,
            uploaded: descriptor.uploaded,
            event: descriptor.event,
            ip_address: 0,
            key: random_u32(),
            num_want: -1,
            port: 6881,
        }
    }

    pub fn to_bytes(&self) -> (r: Vec<u8>)
        requires
            self@.wf(),
        ensures
            r@ == spec_announce_request_bytes(self@),
            r@.len() == ANNOUNCE_REQUEST_BYTES,
    {
        let mut out: Vec<u8> = Vec::new();
        push_i64_be(&mut out, self.connection_id);
        push_u32_be(&mut out, self.action);
        push_u32_be(&mut out, self.transaction_id);
        out.extend_from_slice(self.info_hash.as_slice());
        out.extend_from_slice(self.peer_id.as_slice());
        push_u64_be(&mut out, self.downloaded);
        push_u64_be(&mut out, self.left);
        push_u64_be(&mut out, self.uploaded);
        push_u32_be(&mut out, self.event.code());
        push_u32_be(&mut out, self.ip_address);
        push_u32_be(&mut out, self.key);
        push_i32_be(&mut out, self.num_want);
        push_u16_be(&mut out, self.port);
        proof {
            assert(out@ =~= spec_announce_request_bytes(self@));
        }
        out
    }

    pub fn from_bytes(bytes: &[u8]) -> (r: Result<AnnounceRequest, CodecError>)
        ensures
            r.is_ok() == spec_parse_announce_request(bytes@).is_ok(),
            r matches Ok(m) ==> m@ == spec_parse_announce_request(bytes@).unwrap() && m@.wf(),
    {
        if bytes.len() < 98 {
            return Err(CodecError::BadFormat);
        }
        let code = u32_from_be(vstd::slice::slice_subrange(bytes, 80, 84));
        let event = match AnnounceEvent::from_code(code) {
            Option::Some(e) => e,
            Option::None => {
                return Err(CodecError::BadFormat);
            },
        };
        let connection_id = i64_from_be(vstd::slice::slice_subrange(bytes, 0, 8));
        let action = u32_from_be(vstd::slice::slice_subrange(bytes, 8, 12));
        let transaction_id = u32_from_be(vstd::slice::slice_subrange(bytes, 12, 16));
        let info_hash = vstd::slice::slice_to_vec(vstd::slice::slice_subrange(bytes, 16, 36));
        let peer_id = vstd::slice::slice_to_vec(vstd::slice::slice_subrange(bytes, 36, 56));
        let downloaded = u64_from_be(vstd::slice::slice_subrange(bytes, 56, 64));
        let left = u64_from_be(vstd::slice::slice_subrange(bytes, 64, 72));
        let uploaded = u64_from_be(vstd::slice::slice_subrange(bytes, 72, 80));
        let ip_address = u32_from_be(vstd::slice::slice_subrange(bytes, 84, 88));
        let key = u32_from_be(vstd::slice::slice_subrange(bytes, 88, 92));
        let num_want = i32_from_be(vstd::slice::slice_subrange(bytes, 92, 96));
        let port = u16_from_be(vstd::slice::slice_subrange(bytes, 96, 98));
        Ok(
            AnnounceRequest {
                connection_id,
                action,
                transaction_id,
                info_hash,
                peer_id,
                downloaded,
                left,
                uploaded,
                event,
                ip_address,
                key,
                num_want,
                port,
            },
        )
    }
}

/// Round trip of the ANNOUNCE request layout, bytes first: any 98 bytes whose
/// event field carries a known code encode back to themselves after decoding.
pub proof fn lemma_announce_request_bytes_round_trip(b: Seq<u8>)
    requires
        b.len() == 98,
        spec_event_from_code(spec_u32_from_be_bytes(b.subrange(80, 84))) is Some,
    ensures
        spec_parse_announce_request(b) is Ok,
        spec_announce_request_bytes(spec_parse_announce_request(b).unwrap()) == b,
{
    let v = spec_parse_announce_request(b).unwrap();
    lemma_i64_from_be_bytes_round_trip(b.subrange(0, 8));
    lemma_u32_from_be_bytes_round_trip(b.subrange(8, 12));
    lemma_u32_from_be_bytes_round_trip(b.subrange(12, 16));
    lemma_u64_from_be_bytes_round_trip(b.subrange(56, 64));
    lemma_u64_from_be_bytes_round_trip(b.subrange(64, 72));
    lemma_u64_from_be_bytes_round_trip(b.subrange(72, 80));
    lemma_u32_from_be_bytes_round_trip(b.subrange(80, 84));
    lemma_u32_from_be_bytes_round_trip(b.subrange(84, 88));
    lemma_u32_from_be_bytes_round_trip(b.subrange(88, 92));
    lemma_i32_from_be_bytes_round_trip(b.subrange(92, 96));
    lemma_u16_from_be_bytes_round_trip(b.subrange(96, 98));
    let code = spec_u32_from_be_bytes(b.subrange(80, 84));
    assert(spec_event_code(v.event) == code);
    assert(spec_announce_request_bytes(v) =~= b);
}

/// ANNOUNCE response (at least 20 bytes): `action: u32 (expect 1) ||
/// transaction_id: u32 || interval: u32 || leechers: u32 || seeders: u32 ||
/// peers[]`, the peer tail a multiple of 6 bytes.
#[derive(Debug, PartialEq)]
pub struct AnnounceResponse {
    pub action: u32,
    pub transaction_id: u32,
    pub interval: u32,
    pub leechers: u32,
    pub seeders: u32,
    pub peers: Vec<PeerAddress>,
}

pub struct AnnounceResponseView {
    pub action: u32,
    pub transaction_id: u32,
    pub interval: u32,
    pub leechers: u32,
    pub seeders: u32,
    pub peers: Seq<PeerAddress>,
}

impl View for AnnounceResponse {
    type V = AnnounceResponseView;

    open spec fn view(&self) -> AnnounceResponseView {
        AnnounceResponseView {
            action: self.action,
            transaction_id: self.transaction_id,
            interval: self.interval,
            leechers: self.leechers,
            seeders: self.seeders,
            peers: self.peers@,
        }
    }
}

/// The peers that a tail of compact 6-byte entries carries, in order.
pub open spec fn spec_peer_list(b: Seq<u8>) -> Seq<PeerAddress>
    recommends
        b.len() % 6 == 0,
{
    Seq::new(b.len() / 6, |i: int| spec_peer_address_from_bytes(b.subrange(6 * i, 6 * i + 6)))
}

pub open spec fn spec_peer_list_bytes(ps: Seq<PeerAddress>) -> Seq<u8>
    decreases ps.len(),
{
    if ps.len() == 0 {
        Seq::empty()
    } else {
        spec_peer_list_bytes(ps.drop_last()) + spec_peer_address_bytes(ps.last())
    }
}

pub proof fn lemma_peer_list_bytes_len(ps: Seq<PeerAddress>)
    ensures
        spec_peer_list_bytes(ps).len() == 6 * ps.len(),
    decreases ps.len(),
{
    if ps.len() == 0 {
    } else {
        lemma_peer_list_bytes_len(ps.drop_last());
    }
}

/// Round trip of the compact peer tail: a peer list's bytes decode to the
/// same list, entry by entry.
pub proof fn lemma_peer_list_round_trip(ps: Seq<PeerAddress>)
    ensures
        spec_peer_list_bytes(ps).len() == 6 * ps.len(),
        spec_peer_list(spec_peer_list_bytes(ps)) == ps,
    decreases ps.len(),
{
    lemma_peer_list_bytes_len(ps);
    let b = spec_peer_list_bytes(ps);
    if ps.len() == 0 {
        assert(spec_peer_list(b) =~= ps);
    } else {
        lemma_peer_list_round_trip(ps.drop_last());
        let bd = spec_peer_list_bytes(ps.drop_last());
        assert forall|i: int| 0 <= i < ps.len() implies spec_peer_list(b)[i] == ps[i] by {
            if i < ps.len() - 1 {
                assert(b.subrange(6 * i, 6 * i + 6) =~= bd.subrange(6 * i, 6 * i + 6));
                assert(spec_peer_list(bd)[i] == ps.drop_last()[i]);
            } else {
                assert(b.subrange(6 * i, 6 * i + 6) =~= spec_peer_address_bytes(ps.last()));
                lemma_peer_address_round_trip(ps.last());
            }
        }
        assert(spec_peer_list(b) =~= ps);
    }
}

pub open spec fn spec_announce_response_bytes(v: AnnounceResponseView) -> Seq<u8> {
    spec_u32_to_be_bytes(v.action) + spec_u32_to_be_bytes(v.transaction_id) + spec_u32_to_be_bytes(
        v.interval,
    ) + spec_u32_to_be_bytes(v.leechers) + spec_u32_to_be_bytes(v.seeders) + spec_peer_list_bytes(
        v.peers,
    )
}

pub open spec fn spec_parse_announce_response(b: Seq<u8>) -> Result<
    AnnounceResponseView,
    CodecError,
> {
    if b.len() < 20 {
        Err(CodecError::BadFormat)
    } else if (b.len() - 20) % 6 != 0 {
        Err(CodecError::BadFormat)
    } else {
        Ok(
            AnnounceResponseView {
                action: spec_u32_from_be_bytes(b.subrange(0, 4)),
                transaction_id: spec_u32_from_be_bytes(b.subrange(4, 8)),
                interval: spec_u32_from_be_bytes(b.subrange(8, 12)),
                leechers: spec_u32_from_be_bytes(b.subrange(12, 16)),
                seeders: spec_u32_from_be_bytes(b.subrange(16, 20)),
                peers: spec_peer_list(b.skip(20)),
            },
        )
    }
}

/// Round trip of the ANNOUNCE response layout: with a peer tail of length
/// `6 k` the decoded list has exactly `k` entries, and the record survives
/// an encode-decode round trip.
pub proof fn lemma_announce_response_round_trip(v: AnnounceResponseView)
    ensures
        spec_announce_response_bytes(v).len() == 20 + 6 * v.peers.len(),
        spec_parse_announce_response(spec_announce_response_bytes(v)) == Ok::<
            AnnounceResponseView,
            CodecError,
        >(v),
{
    let b = spec_announce_response_bytes(v);
    lemma_peer_list_bytes_len(v.peers);
    assert(b.len() - 20 == 6 * v.peers.len());
    assert((6 * v.peers.len()) % 6 == 0) by (nonlinear_arith);
    assert(b.subrange(0, 4) =~= spec_u32_to_be_bytes(v.action));
    assert(b.subrange(4, 8) =~= spec_u32_to_be_bytes(v.transaction_id));
    assert(b.subrange(8, 12) =~= spec_u32_to_be_bytes(v.interval));
    assert(b.subrange(12, 16) =~= spec_u32_to_be_bytes(v.leechers));
    assert(b.subrange(16, 20) =~= spec_u32_to_be_bytes(v.seeders));
    assert(b.skip(20) =~= spec_peer_list_bytes(v.peers));
    lemma_u32_be_bytes_round_trip(v.action);
    lemma_u32_be_bytes_round_trip(v.transaction_id);
    lemma_u32_be_bytes_round_trip(v.interval);
    lemma_u32_be_bytes_round_trip(v.leechers);
    lemma_u32_be_bytes_round_trip(v.seeders);
    lemma_peer_list_round_trip(v.peers);
}

impl AnnounceResponse {
    pub fn to_bytes(&self) -> (r: Vec<u8>)
        ensures
            r@ == spec_announce_response_bytes(self@),
    {
        let mut out: Vec<u8> = Vec::new();
        push_u32_be(&mut out, self.action);
        push_u32_be(&mut out, self.transaction_id);
        push_u32_be(&mut out, self.interval);
        push_u32_be(&mut out, self.leechers);
        push_u32_be(&mut out, self.seeders);
        let ghost header = out@;
        let mut i: usize = 0;
        while i < self.peers.len()
            invariant
                i <= self.peers@.len(),
                out@ == header + spec_peer_list_bytes(self.peers@.take(i as int)),
            decreases self.peers@.len() - i,
        {
            let entry = self.peers[i].to_bytes();
            out.extend_from_slice(entry.as_slice());
            proof {
                assert(self.peers@.take(i + 1).drop_last() =~= self.peers@.take(i as int));
                assert(self.peers@.take(i + 1).last() == self.peers@[i as int]);
                assert(out@ =~= header + spec_peer_list_bytes(self.peers@.take(i + 1)));
            }
            i = i + 1;
        }
        proof {
            assert(self.peers@.take(self.peers@.len() as int) =~= self.peers@);
            assert(out@ =~= spec_announce_response_bytes(self@));
        }
        out
    }

    pub fn from_bytes(bytes: &[u8]) -> (r: Result<AnnounceResponse, CodecError>)
        ensures
            r.is_ok() == spec_parse_announce_response(bytes@).is_ok(),
            r matches Ok(m) ==> m@ == spec_parse_announce_response(bytes@).unwrap(),
    {
        if bytes.len() < 20 {
            return Err(CodecError::BadFormat);
        }
        if (bytes.len() - 20) % 6 != 0 {
            return Err(CodecError::BadFormat);
        }
        let action = u32_from_be(vstd::slice::slice_subrange(bytes, 0, 4));
        let transaction_id = u32_from_be(vstd::slice::slice_subrange(bytes, 4, 8));
        let interval = u32_from_be(vstd::slice::slice_subrange(bytes, 8, 12));
        let leechers = u32_from_be(vstd::slice::slice_subrange(bytes, 12, 16));
        let seeders = u32_from_be(vstd::slice::slice_subrange(bytes, 16, 20));
        let k = (bytes.len() - 20) / 6;
        let ghost tail = bytes@.skip(20);
        let mut peers: Vec<PeerAddress> = Vec::new();
        let mut i: usize = 0;
        while i < k
            invariant
                i <= k,
                k == (bytes@.len() - 20) / 6,
                (bytes@.len() - 20) % 6 == 0,
                bytes@.len() >= 20,
                bytes@.len() <= usize::MAX,
                tail == bytes@.skip(20),
                peers@.len() == i,
                forall|j: int|
                    0 <= j < i ==> peers@[j] == spec_peer_address_from_bytes(
                        bytes@.subrange(20 + 6 * j, 26 + 6 * j),
                    ),
            decreases k - i,
        {
            proof {
                vstd::arithmetic::div_mod::lemma_fundamental_div_mod(bytes@.len() - 20, 6);
                assert(bytes@.len() - 20 == 6 * k);
                assert(20 + 6 * (i as int) + 6 <= bytes@.len());
            }
            let entry = PeerAddress::from_bytes(
                vstd::slice::slice_subrange(bytes, 20 + 6 * i, 26 + 6 * i),
            );
            peers.push(entry);
            i = i + 1;
        }
        proof {
            assert forall|j: int| 0 <= j < k implies peers@[j] == spec_peer_list(tail)[j] by {
                assert(tail.subrange(6 * j, 6 * j + 6) =~= bytes@.subrange(20 + 6 * j, 26 + 6 * j));
            }
            assert(peers@ =~= spec_peer_list(tail));
        }
        Ok(AnnounceResponse { action, transaction_id, interval, leechers, seeders, peers })
    }
}

/// The verdict on one datagram that arrived while a CONNECT was in flight.
#[derive(Debug, Clone, Copy, PartialEq, Eq, Structural)]
pub enum ConnectVerdict {
    /// The datagram answers the request: here is the connection id.
    Accepted { connection_id: i64 },
    /// A stale or foreign datagram: drop it and keep waiting.
    Ignored,
    /// The tracker answered, but the response fails a structural check.
    Rejected { error: TrackerError },
}

/// How a CONNECT datagram is judged: datagrams from the wrong source and
/// datagrams whose transaction id is not the in-flight one are dropped
/// silently; a response of the wrong size or with an action other than 0 is
/// `BadResponse`; what remains carries the connection id.
pub open spec fn spec_connect_verdict(b: Seq<u8>, from_tracker: bool, expected: u32)
    -> ConnectVerdict {
    if !from_tracker {
        ConnectVerdict::Ignored
    } else if b.len() != 16 {
        ConnectVerdict::Rejected { error: TrackerError::BadResponse }
    } else {
        let r = spec_parse_connect_response(b).unwrap();
        if r.transaction_id != expected {
            ConnectVerdict::Ignored
        } else if r.action != 0 {
            ConnectVerdict::Rejected { error: TrackerError::BadResponse }
        } else {
            ConnectVerdict::Accepted { connection_id: r.connection_id }
        }
    }
}

/// Judge one datagram received while a CONNECT with transaction id
/// `expected_transaction_id` is in flight. `from_tracker` says whether the
/// datagram's source is the tracker's resolved address.
pub fn check_connect_datagram(bytes: &[u8], from_tracker: bool, expected_transaction_id: u32) -> (r:
    ConnectVerdict)
    ensures
        r == spec_connect_verdict(bytes@, from_tracker, expected_transaction_id),
{
    if !from_tracker {
        return ConnectVerdict::Ignored;
    }
    if bytes.len() != 16 {
        return ConnectVerdict::Rejected { error: TrackerError::BadResponse };
    }
    let response = match ConnectResponse::from_bytes(bytes) {
        Ok(r) => r,
        Err(_) => {
            return ConnectVerdict::Rejected { error: TrackerError::BadResponse };
        },
    };
    if response.transaction_id != expected_transaction_id {
        ConnectVerdict::Ignored
    } else if response.action != 0 {
        ConnectVerdict::Rejected { error: TrackerError::BadResponse }
    } else {
        ConnectVerdict::Accepted { connection_id: response.connection_id }
    }
}

/// The verdict on one datagram that arrived while an ANNOUNCE was in flight.
#[derive(Debug, PartialEq)]
pub enum AnnounceVerdict {
    /// The datagram answers the request: here is the decoded response.
    Accepted(AnnounceResponse),
    /// A stale or foreign datagram: drop it and keep waiting.
    Ignored,
    /// The tracker answered, but the response fails a structural check.
    Rejected(TrackerError),
}

pub enum AnnounceVerdictView {
    Accepted(AnnounceResponseView),
    Ignored,
    Rejected(TrackerError),
}

impl View for AnnounceVerdict {
    type V = AnnounceVerdictView;

    open spec fn view(&self) -> AnnounceVerdictView {
        match self {
            AnnounceVerdict::Accepted(resp) => AnnounceVerdictView::Accepted(resp@),
            AnnounceVerdict::Ignored => AnnounceVerdictView::Ignored,
            AnnounceVerdict::Rejected(e) => AnnounceVerdictView::Rejected(*e),
        }
    }
}

/// How an ANNOUNCE datagram is judged: wrong source or wrong transaction id
/// is dropped silently; a response under 20 bytes, with an action other
/// than 1, or with a peer tail that is not a multiple of 6 is `BadResponse`;
/// what remains is the decoded response.
pub open spec fn spec_announce_verdict(b: Seq<u8>, from_tracker: bool, expected: u32)
    -> AnnounceVerdictView {
    if !from_tracker {
        AnnounceVerdictView::Ignored
    } else if b.len() < 20 {
        AnnounceVerdictView::Rejected(TrackerError::BadResponse)
    } else if spec_u32_from_be_bytes(b.subrange(4, 8)) != expected {
        AnnounceVerdictView::Ignored
    } else if spec_u32_from_be_bytes(b.subrange(0, 4)) != 1 {
        AnnounceVerdictView::Rejected(TrackerError::BadResponse)
    } else if (b.len() - 20) % 6 != 0 {
        AnnounceVerdictView::Rejected(TrackerError::BadResponse)
    } else {
        AnnounceVerdictView::Accepted(spec_parse_announce_response(b).unwrap())
    }
}

/// Judge one datagram received while an ANNOUNCE with transaction id
/// `expected_transaction_id` is in flight. `from_tracker` says whether the
/// datagram's source is the tracker's resolved address.
pub fn check_announce_datagram(
    bytes: &[u8],
    from_tracker: bool,
    expected_transaction_id: u32,
) -> (r: AnnounceVerdict)
    ensures
        r@ == spec_announce_verdict(bytes@, from_tracker, expected_transaction_id),
{
    if !from_tracker {
        return AnnounceVerdict::Ignored;
    }
    if bytes.len() < 20 {
        return AnnounceVerdict::Rejected(TrackerError::BadResponse);
    }
    let transaction_id = u32_from_be(vstd::slice::slice_subrange(bytes, 4, 8));
    if transaction_id != expected_transaction_id {
        return AnnounceVerdict::Ignored;
    }
    let action = u32_from_be(vstd::slice::slice_subrange(bytes, 0, 4));
    if action != 1 {
        return AnnounceVerdict::Rejected(TrackerError::BadResponse);
    }
    if (bytes.len() - 20) % 6 != 0 {
        return AnnounceVerdict::Rejected(TrackerError::BadResponse);
    }
    match AnnounceResponse::from_bytes(bytes) {
        Ok(resp) => AnnounceVerdict::Accepted(resp),
        Err(_) => AnnounceVerdict::Rejected(TrackerError::BadResponse),
    }
}

/// How long a connection id stays valid after the CONNECT that issued it.
pub const CONNECTION_ID_WINDOW_SECS: u64 = 60;

/// One connected tracker: the connection id a CONNECT returned and the time
/// (seconds) at which it was issued.
#[derive(Debug, Clone, Copy, PartialEq, Eq, Structural)]
pub struct TrackerSession {
    pub connection_id: i64,
    pub issued_at: u64,
}

/// A connection id is stale once its validity window has fully elapsed.
pub open spec fn spec_session_expired(s: TrackerSession, now: u64) -> bool {
    now >= s.issued_at + CONNECTION_ID_WINDOW_SECS
}

impl TrackerSession {
    pub fn new(connection_id: i64, issued_at: u64) -> (r: TrackerSession)
        ensures
            r.connection_id == connection_id,
            r.issued_at == issued_at,
    {
        TrackerSession { connection_id, issued_at }
    }

    /// Whether the next ANNOUNCE must re-run CONNECT first.
    pub fn is_expired(&self, now: u64) -> (r: bool)
        ensures
            r == spec_session_expired(*self, now),
    {
        now >= self.issued_at && now - self.issued_at >= CONNECTION_ID_WINDOW_SECS
    }
}

/// The wait before retry `attempt` of a tracker exchange: `15 * 2^attempt`
/// seconds, capped at 3840 (eight doublings).
pub open spec fn spec_retry_delay_secs(attempt: u32) -> u64 {
    if attempt >= 8 {
        3840
    } else {
        (15 * (1u64 << attempt)) as u64
    }
}

pub fn retry_delay_secs(attempt: u32) -> (r: u64)
    ensures
        r == spec_retry_delay_secs(attempt),
{
    if attempt >= 8 {
        3840
    } else {
        proof {
            assert(attempt < 8 ==> (1u64 << attempt) <= 128) by (bit_vector);
        }
        15 * (1u64 << attempt)
    }
}

/// The descriptor the orchestrator announces with right after CONNECT: the
/// session's connection id, the identities, zero transfer counters, and no
/// event.
pub fn bootstrap_descriptor(connection_id: i64, peer_id: Vec<u8>, info_hash: Vec<u8>) -> (r:
    AnnounceRequestDescriptor)
    ensures
        r.connection_id == connection_id,
        r.peer_id@ == peer_id@,
        r.info_hash@ == info_hash@,
        r.downloaded == 0,
        r.left == 0,
        r.uploaded == 0,
        r.event == AnnounceEvent::NoEvent,
{
    AnnounceRequestDescriptor {
        connection_id,
        peer_id,
        info_hash,
        downloaded: 0,
        left: 0,
        uploaded: 0,
        event: AnnounceEvent::NoEvent,
    }
}

} // verus!
