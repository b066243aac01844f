//! Peer addresses from the compact 6-byte entries of an ANNOUNCE response,
//! the peer id this client announces under, and the first-seen-wins
//! aggregation of the peer lists that the trackers return.
use vstd::prelude::*;
use vstd::string::StringExecFns;
use crate::be_bytes::{
    push_u16_be, spec_u16_from_be_bytes, spec_u16_to_be_bytes, lemma_u16_be_bytes_round_trip,
    lemma_u16_from_be_bytes_round_trip, u16_from_be,
};
use crate::decimal::{spec_udec_chars, u64_to_decimal};
use crate::rng::random_u8;

verus! {

/// One peer as the compact ANNOUNCE encoding carries it: an IPv4 address and
/// a port. Two peers are the same peer exactly when both fields agree.
#[derive(Debug, Clone, Copy, PartialEq, Eq, Structural)]
pub struct PeerAddress {
    pub ip0: u8,
    pub ip1: u8,
    pub ip2: u8,
    pub ip3: u8,
    pub port: u16,
}

pub open spec fn spec_peer_address_from_bytes(b: Seq<u8>) -> PeerAddress
    recommends
        b.len() == 6,
{
    PeerAddress {
        ip0: b[0],
        ip1: b[1],
        ip2: b[2],
        ip3: b[3],
        port: spec_u16_from_be_bytes(b.subrange(4, 6)),
    }
}

pub open spec fn spec_peer_address_bytes(p: PeerAddress) -> Seq<u8> {
    seq![p.ip0, p.ip1, p.ip2, p.ip3] + spec_u16_to_be_bytes(p.port)
}

/// Round trip of one compact entry: a peer's bytes decode to the peer.
pub proof fn lemma_peer_address_round_trip(p: PeerAddress)
    ensures
        spec_peer_address_from_bytes(spec_peer_address_bytes(p)) == p,
{
    let b = spec_peer_address_bytes(p);
    assert(b.subrange(4, 6) =~= spec_u16_to_be_bytes(p.port));
    lemma_u16_be_bytes_round_trip(p.port);
}

/// Round trip of one compact entry, bytes first: decoding then encoding any
/// 6 bytes gives the bytes back.
pub proof fn lemma_peer_address_bytes_round_trip(b: Seq<u8>)
    requires
        b.len() == 6,
    ensures
        spec_peer_address_bytes(spec_peer_address_from_bytes(b)) == b,
{
    lemma_u16_from_be_bytes_round_trip(b.subrange(4, 6));
    assert(spec_peer_address_bytes(spec_peer_address_from_bytes(b)) =~= b);
}

pub open spec fn spec_peer_host_port(p: PeerAddress) -> Seq<char> {
    spec_udec_chars(p.ip0 as int) + seq!['.'] + spec_udec_chars(p.ip1 as int) + seq!['.']
        + spec_udec_chars(p.ip2 as int) + seq!['.'] + spec_udec_chars(p.ip3 as int) + seq![':']
        + spec_udec_chars(p.port as int)
}

impl PeerAddress {
    /// Decode one compact 6-byte entry: `IPv4 || port (big-endian)`.
    pub fn from_bytes(bytes: &[u8]) -> (r: PeerAddress)
        requires
            bytes@.len() == 6,
        ensures
            r == spec_peer_address_from_bytes(bytes@),
    {
        let port = u16_from_be(vstd::slice::slice_subrange(bytes, 4, 6));
        PeerAddress { ip0: bytes[0], ip1: bytes[1], ip2: bytes[2], ip3: bytes[3], port }
    }

    pub fn to_bytes(&self) -> (r: Vec<u8>)
        ensures
            r@ == spec_peer_address_bytes(*self),
    {
        let mut out: Vec<u8> = Vec::new();
        out.push(self.ip0);
        out.push(self.ip1);
        out.push(self.ip2);
        out.push(self.ip3);
        push_u16_be(&mut out, self.port);
        proof {
            assert(out@ =~= spec_peer_address_bytes(*self));
        }
        out
    }

    /// The `a.b.c.d:port` form that a socket connect takes.
    pub fn to_host_port(&self) -> (r: String)
        ensures
            r@ == spec_peer_host_port(*self),
    {
        proof {
            reveal_strlit(".");
            reveal_strlit(":");
        }
        let mut s = u64_to_decimal(self.ip0 as u64);
        s.append(".");
        let o1 = u64_to_decimal(self.ip1 as u64);
        s.append(o1.as_str());
        s.append(".");
        let o2 = u64_to_decimal(self.ip2 as u64);
        s.append(o2.as_str());
        s.append(".");
        let o3 = u64_to_decimal(self.ip3 as u64);
        s.append(o3.as_str());
        s.append(":");
        let pt = u64_to_decimal(self.port as u64);
        s.append(pt.as_str());
        proof {
            assert(s@ =~= spec_peer_host_port(*self));
        }
        s
    }
}

/// First-seen-wins deduplication: of every address the first occurrence is
/// kept, in its place; later occurrences are dropped.
pub open spec fn spec_dedup_peers(s: Seq<PeerAddress>) -> Seq<PeerAddress>
    decreases s.len(),
{
    if s.len() == 0 {
        Seq::empty()
    } else {
        let r = spec_dedup_peers(s.drop_last());
        if r.contains(s.last()) {
            r
        } else {
            r.push(s.last())
        }
    }
}

/// Deduplication keeps exactly the addresses that were there: nothing is
/// lost and nothing is invented.
pub proof fn lemma_dedup_peers_same_elements(s: Seq<PeerAddress>)
    ensures
        forall|x: PeerAddress| spec_dedup_peers(s).contains(x) <==> s.contains(x),
    decreases s.len(),
{
    if s.len() == 0 {
    } else {
        lemma_dedup_peers_same_elements(s.drop_last());
        assert forall|x: PeerAddress| s.contains(x) implies spec_dedup_peers(s).contains(x) by {
            let i = choose|i: int| 0 <= i < s.len() && s[i] == x;
            if i < s.len() - 1 {
                assert(s.drop_last()[i] == x);
                assert(s.drop_last().contains(x));
                if !spec_dedup_peers(s.drop_last()).contains(x) {
                } else {
                    let j = choose|j: int|
                        0 <= j < spec_dedup_peers(s.drop_last()).len() && spec_dedup_peers(
                            s.drop_last(),
                        )[j] == x;
                    assert(spec_dedup_peers(s)[j] == x);
                }
            } else {
                let r = spec_dedup_peers(s.drop_last());
                if r.contains(s.last()) {
                } else {
                    assert(spec_dedup_peers(s)[r.len() as int] == x);
                }
            }
        }
        assert forall|x: PeerAddress| spec_dedup_peers(s).contains(x) implies s.contains(x) by {
            let r = spec_dedup_peers(s.drop_last());
            let j = choose|j: int|
                0 <= j < spec_dedup_peers(s).len() && spec_dedup_peers(s)[j] == x;
            if j < r.len() {
                assert(r[j] == x);
                assert(r.contains(x));
                assert(s.drop_last().contains(x));
                let i = choose|i: int| 0 <= i < s.drop_last().len() && s.drop_last()[i] == x;
                assert(s[i] == x);
                assert(s.contains(x));
            } else {
                assert(x == s.last());
                assert(s[s.len() - 1] == x);
                assert(s.contains(x));
            }
        }
    }
}

/// Deduplication leaves no address twice.
pub proof fn lemma_dedup_peers_no_duplicates(s: Seq<PeerAddress>)
    ensures
        forall|i: int, j: int|
            0 <= i < j < spec_dedup_peers(s).len() ==> spec_dedup_peers(s)[i] != spec_dedup_peers(
                s,
            )[j],
    decreases s.len(),
{
    if s.len() == 0 {
    } else {
        lemma_dedup_peers_no_duplicates(s.drop_last());
        let r = spec_dedup_peers(s.drop_last());
        if r.contains(s.last()) {
        } else {
            assert forall|i: int, j: int|
                0 <= i < j < spec_dedup_peers(s).len() implies spec_dedup_peers(s)[i]
                != spec_dedup_peers(s)[j] by {
                if j < r.len() {
                } else {
                    assert(spec_dedup_peers(s)[j] == s.last());
                    assert(spec_dedup_peers(s)[i] == r[i]);
                    assert(!r.contains(s.last()));
                }
            }
        }
    }
}

fn contains_peer(v: &Vec<PeerAddress>, p: PeerAddress) -> (r: bool)
    ensures
        r == v@.contains(p),
{
    let mut i: usize = 0;
    while i < v.len()
        invariant
            i <= v@.len(),
            forall|j: int| 0 <= j < i ==> v@[j] != p,
        decreases v@.len() - i,
    {
        if v[i] == p {
            return true;
        }
        i = i + 1;
    }
    false
}

/// Drop every repeated address, keeping the first occurrence of each in
/// first-seen order.
pub fn dedup_peers(peers: &Vec<PeerAddress>) -> (r: Vec<PeerAddress>)
    ensures
        r@ == spec_dedup_peers(peers@),
{
    let mut out: Vec<PeerAddress> = Vec::new();
    let mut i: usize = 0;
    while i < peers.len()
        invariant
            i <= peers@.len(),
            out@ == spec_dedup_peers(peers@.take(i as int)),
        decreases peers@.len() - i,
    {
        proof {
            assert(peers@.take(i + 1).drop_last() =~= peers@.take(i as int));
            assert(peers@.take(i + 1).last() == peers@[i as int]);
        }
        if !contains_peer(&out, peers[i]) {
            out.push(peers[i]);
        }
        i = i + 1;
    }
    proof {
        assert(peers@.take(peers@.len() as int) =~= peers@);
    }
    out
}

/// Flatten the peer lists that the ANNOUNCE tasks returned and deduplicate,
/// first seen first: the orchestrator's aggregation step.
pub fn aggregate_peers(lists: &Vec<Vec<PeerAddress>>) -> (r: Vec<PeerAddress>)
    ensures
        r@ == spec_dedup_peers(lists@.map_values(|v: Vec<PeerAddress>| v@).flatten()),
{
    let ghost all_seq = lists@.map_values(|v: Vec<PeerAddress>| v@);
    let mut all: Vec<PeerAddress> = Vec::new();
    let mut i: usize = 0;
    while i < lists.len()
        invariant
            i <= lists@.len(),
            all_seq == lists@.map_values(|v: Vec<PeerAddress>| v@),
            all@ == all_seq.take(i as int).flatten(),
        decreases lists@.len() - i,
    {
        all.extend_from_slice(lists[i].as_slice());
        proof {
            assert(all_seq.take(i + 1).drop_last() =~= all_seq.take(i as int));
            assert(all_seq.take(i + 1) =~= all_seq.take(i as int).push(lists@[i as int]@));
            all_seq.take(i as int).lemma_flatten_push(lists@[i as int]@);
        }
        i = i + 1;
    }
    proof {
        assert(all_seq.take(lists@.len() as int) =~= all_seq);
    }
    dedup_peers(&all)
}

pub open spec fn spec_peer_id_signature() -> Seq<u8> {
    seq![45u8, 87u8, 77u8, 48u8, 48u8, 48u8, 49u8, 45u8]
}

/// A fresh 20-byte peer id: the fixed ASCII signature `-WM0001-`, then 12
/// random bytes.
pub fn generate_peer_id() -> (r: Vec<u8>)
    ensures
        r@.len() == 20,
        r@.subrange(0, 8) == spec_peer_id_signature(),
{
    let mut out: Vec<u8> = Vec::new();
    out.push(45);
    out.push(87);
    out.push(77);
    out.push(48);
    out.push(48);
    out.push(48);
    out.push(49);
    out.push(45);
    let mut i: usize = 0;
    while i < 12
        invariant
            i <= 12,
            out@.len() == 8 + i,
            out@.subrange(0, 8) =~= spec_peer_id_signature(),
        decreases 12 - i,
    {
        out.push(random_u8());
        proof {
            assert(out@.subrange(0, 8) =~= spec_peer_id_signature());
        }
        i = i + 1;
    }
    proof {
        assert(out@.subrange(0, 8) =~= spec_peer_id_signature());
    }
    out
}

} // verus!
