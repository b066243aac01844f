//! The peer handshake exchange: what this client sends, and how a peer's
//! reply is judged before a session is accepted.
use vstd::prelude::*;
use vstd::string::StringExecFns;
use crate::messages::{CodecError, HandShake, HandShakeView, PeerMessage, spec_parse_handshake};

verus! {

/// Why a peer's handshake reply was refused.
#[derive(Debug, Clone, Copy, PartialEq, Eq, Structural)]
pub enum PeerError {
    /// The reply does not carry the protocol string this client sent.
    BadProtocol,
    /// The reply carries another info-hash than this client sent.
    BadInfoHash,
}

pub open spec fn spec_peer_error_message(e: PeerError) -> Seq<char> {
    match e {
        PeerError::BadProtocol => "Peer protocol mismatch"@,
        PeerError::BadInfoHash => "Peer info hash mismatch"@,
    }
}

impl PeerError {
    /// The message this error prints.
    pub fn message(&self) -> (r: String)
        ensures
            r@ == spec_peer_error_message(*self),
    {
        match self {
            PeerError::BadProtocol => String::from_str("Peer protocol mismatch"),
            PeerError::BadInfoHash => String::from_str("Peer info hash mismatch"),
        }
    }
}

/// What a peer connection is opened with: the protocol string and the two
/// 20-byte identities.
#[derive(Debug)]
pub struct PeerStreamOpts {
    pub protocol: Vec<u8>,
    pub info_hash: Vec<u8>,
    pub peer_id: Vec<u8>,
}

impl PeerStreamOpts {
    pub open spec fn wf(&self) -> bool {
        self.protocol@.len() <= 255 && self.info_hash@.len() == 20 && self.peer_id@.len() == 20
    }
}

/// The handshake this client sends for the given options.
pub fn handshake_request(opts: PeerStreamOpts) -> (r: HandShake)
    ensures
        r@.pstr == opts.protocol@,
        r@.info_hash == opts.info_hash@,
        r@.peer_id == opts.peer_id@,
        opts.wf() ==> r.wf(),
{
    HandShake { pstr: opts.protocol, info_hash: opts.info_hash, peer_id: opts.peer_id }
}

/// How a peer's handshake reply is judged against the request: a reply that
/// does not decode, or whose protocol string differs, is `BadProtocol`; one
/// whose info-hash differs is `BadInfoHash`; what remains is the accepted
/// handshake, its peer id informational.
pub open spec fn spec_handshake_reply(request: HandShakeView, b: Seq<u8>) -> Result<
    HandShakeView,
    PeerError,
> {
    match spec_parse_handshake(b) {
        Err(_) => Err(PeerError::BadProtocol),
        Ok(resp) => {
            if resp.pstr != request.pstr {
                Err(PeerError::BadProtocol)
            } else if resp.info_hash != request.info_hash {
                Err(PeerError::BadInfoHash)
            } else {
                Ok(resp)
            }
        },
    }
}

fn bytes_equal(a: &Vec<u8>, b: &Vec<u8>) -> (r: bool)
    ensures
        r == (a@ == b@),
{
    if a.len() != b.len() {
        return false;
    }
    let n = a.len();
    let mut i: usize = 0;
    while i < n
        invariant
            n == a@.len(),
            a@.len() == b@.len(),
            i <= n,
            forall|j: int| 0 <= j < i ==> a@[j] == b@[j],
        decreases n - i,
    {
        if a[i] != b[i] {
            return false;
        }
        i = i + 1;
    }
    proof {
        assert(a@ =~= b@);
    }
    true
}

/// Judge the bytes a peer sent back for the handshake `request`.
pub fn check_handshake_reply(request: &HandShake, reply: &[u8]) -> (r: Result<HandShake, PeerError>)
    ensures
        r.is_ok() == spec_handshake_reply(request@, reply@).is_ok(),
        r matches Ok(h) ==> h@ == spec_handshake_reply(request@, reply@).unwrap() && h.wf(),
        r matches Err(e) ==> spec_handshake_reply(request@, reply@) matches Err(e2) && e == e2,
{
    let response = match HandShake::from_bytes(reply) {
        Ok(h) => h,
        Err(_) => {
            return Err(PeerError::BadProtocol);
        },
    };
    if !bytes_equal(&response.pstr, &request.pstr) {
        Err(PeerError::BadProtocol)
    } else if !bytes_equal(&response.info_hash, &request.info_hash) {
        Err(PeerError::BadInfoHash)
    } else {
        Ok(response)
    }
}

/// The canonical 19-byte protocol string, `BitTorrent protocol`.
pub open spec fn spec_bittorrent_protocol_bytes() -> Seq<u8> {
    seq![
        66u8, 105u8, 116u8, 84u8, 111u8, 114u8, 114u8, 101u8, 110u8, 116u8, 32u8, 112u8, 114u8,
        111u8, 116u8, 111u8, 99u8, 111u8, 108u8,
    ]
}

pub const PSTR_LEN_BYTE: u8 = 19;

pub const PEER_CONNECTION_REQUEST_LEN: usize = 68;

/// The handshake record with the canonical protocol string, in the fixed
/// 68-byte layout: `pstr_len(1) || pstr(19) || reserved(8) || info_hash(20)
/// || peer_id(20)`.
#[derive(Debug, PartialEq)]
pub struct PeerConnectionData {
    pub pstr_len: usize,
    pub pstr: Vec<u8>,
    pub reserved: Vec<u8>,
    pub info_hash: Vec<u8>,
    pub peer_id: Vec<u8>,
}

pub struct PeerConnectionDataView {
    pub pstr_len: int,
    pub pstr: Seq<u8>,
    pub reserved: Seq<u8>,
    pub info_hash: Seq<u8>,
    pub peer_id: Seq<u8>,
}

impl View for PeerConnectionData {
    type V = PeerConnectionDataView;

    open spec fn view(&self) -> PeerConnectionDataView {
        PeerConnectionDataView {
            pstr_len: self.pstr_len as int,
            pstr: self.pstr@,
            reserved: self.reserved@,
            info_hash: self.info_hash@,
            peer_id: self.peer_id@,
        }
    }
}

impl PeerConnectionDataView {
    pub open spec fn wf(self) -> bool {
        0 <= self.pstr_len <= 255 && self.pstr.len() == 19 && self.reserved.len() == 8
            && self.info_hash.len() == 20 && self.peer_id.len() == 20
    }
}

pub open spec fn spec_peer_connection_bytes(v: PeerConnectionDataView) -> Seq<u8> {
    seq![v.pstr_len as u8] + v.pstr + v.reserved + v.info_hash + v.peer_id
}

pub open spec fn spec_parse_peer_connection(b: Seq<u8>) -> Result<
    PeerConnectionDataView,
    CodecError,
> {
    if b.len() < 68 {
        Err(CodecError::BadFormat)
    } else {
        Ok(
            PeerConnectionDataView {
                pstr_len: b[0] as int,
                pstr: b.subrange(1, 20),
                reserved: b.subrange(20, 28),
                info_hash: b.subrange(28, 48),
                peer_id: b.subrange(48, 68),
            },
        )
    }
}

/// Round trip of the fixed 68-byte handshake layout.
pub proof fn lemma_peer_connection_round_trip(v: PeerConnectionDataView)
    requires
        v.wf(),
    ensures
        spec_parse_peer_connection(spec_peer_connection_bytes(v)) == Ok::<
            PeerConnectionDataView,
            CodecError,
        >(v),
{
    let b = spec_peer_connection_bytes(v);
    assert(b.len() == 68);
    assert(b[0] == v.pstr_len as u8);
    assert(b.subrange(1, 20) =~= v.pstr);
    assert(b.subrange(20, 28) =~= v.reserved);
    assert(b.subrange(28, 48) =~= v.info_hash);
    assert(b.subrange(48, 68) =~= v.peer_id);
}

impl PeerConnectionData {
    /// The canonical handshake for the given identities: the 19-byte
    /// `BitTorrent protocol` string and 8 zero reserved bytes.
    pub fn new(info_hash: Vec<u8>, peer_id: Vec<u8>) -> (r: PeerConnectionData)
        requires
            info_hash@.len() == 20,
            peer_id@.len() == 20,
        ensures
            r@.pstr_len == 19,
            r@.pstr == spec_bittorrent_protocol_bytes(),
            r@.reserved == Seq::new(8, |i: int| 0u8),
            r@.info_hash == info_hash@,
            r@.peer_id == peer_id@,
            r@.wf(),
    {
        let mut pstr: Vec<u8> = Vec::new();
        pstr.push(66);
        pstr.push(105);
        pstr.push(116);
        pstr.push(84);
        pstr.push(111);
        pstr.push(114);
        pstr.push(114);
        pstr.push(101);
        pstr.push(110);
        pstr.push(116);
        pstr.push(32);
        pstr.push(112);
        pstr.push(114);
        pstr.push(111);
        pstr.push(116);
        pstr.push(111);
        pstr.push(99);
        pstr.push(111);
        pstr.push(108);
        let mut reserved: Vec<u8> = Vec::new();
        let mut i: usize = 0;
        while i < 8
            invariant
                i <= 8,
                reserved@ =~= Seq::new(i as nat, |j: int| 0u8),
            decreases 8 - i,
        {
            reserved.push(0);
            proof {
                assert(reserved@ =~= Seq::new((i + 1) as nat, |j: int| 0u8));
            }
            i = i + 1;
        }
        proof {
            assert(pstr@ =~= spec_bittorrent_protocol_bytes());
            assert(reserved@ =~= Seq::new(8, |j: int| 0u8));
        }
        PeerConnectionData { pstr_len: 19, pstr, reserved, info_hash, peer_id }
    }

    pub fn to_bytes(&self) -> (r: Vec<u8>)
        requires
            self@.wf(),
        ensures
            r@ == spec_peer_connection_bytes(self@),
            r@.len() == PEER_CONNECTION_REQUEST_LEN,
    {
        let mut out: Vec<u8> = Vec::new();
        out.push(self.pstr_len as u8);
        out.extend_from_slice(self.pstr.as_slice());
        out.extend_from_slice(self.reserved.as_slice());
        out.extend_from_slice(self.info_hash.as_slice());
        out.extend_from_slice(self.peer_id.as_slice());
        proof {
            assert(out@ =~= spec_peer_connection_bytes(self@));
        }
        out
    }

    pub fn from_bytes(bytes: &[u8]) -> (r: Result<PeerConnectionData, CodecError>)
        ensures
            r.is_ok() == spec_parse_peer_connection(bytes@).is_ok(),
            r matches Ok(d) ==> d@ == spec_parse_peer_connection(bytes@).unwrap(),
    {
        if bytes.len() < 68 {
            return Err(CodecError::BadFormat);
        }
        let pstr_len = bytes[0] as usize;
        let pstr = vstd::slice::slice_to_vec(vstd::slice::slice_subrange(bytes, 1, 20));
        let reserved = vstd::slice::slice_to_vec(vstd::slice::slice_subrange(bytes, 20, 28));
        let info_hash = vstd::slice::slice_to_vec(vstd::slice::slice_subrange(bytes, 28, 48));
        let peer_id = vstd::slice::slice_to_vec(vstd::slice::slice_subrange(bytes, 48, 68));
        Ok(PeerConnectionData { pstr_len, pstr, reserved, info_hash, peer_id })
    }
}

} // verus!
