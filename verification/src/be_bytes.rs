//! Big-endian byte layouts of the fixed-width integers that the tracker and
//! peer wire formats carry, with round-trip proofs.
use vstd::prelude::*;

verus! {

pub open spec fn spec_u16_to_be_bytes(x: u16) -> Seq<u8> {
    seq![(x >> 8) as u8, x as u8]
}

pub open spec fn spec_u16_from_be_bytes(b: Seq<u8>) -> u16
    recommends
        b.len() == 2,
{
    ((b[0] as u16) << 8) | (b[1] as u16)
}

pub open spec fn spec_u32_to_be_bytes(x: u32) -> Seq<u8> {
    seq![(x >> 24) as u8, (x >> 16) as u8, (x >> 8) as u8, x as u8]
}

pub open spec fn spec_u32_from_be_bytes(b: Seq<u8>) -> u32
    recommends
        b.len() == 4,
{
    ((b[0] as u32) << 24) | ((b[1] as u32) << 16) | ((b[2] as u32) << 8) | (b[3] as u32)
}

pub open spec fn spec_u64_to_be_bytes(x: u64) -> Seq<u8> {
    seq![
        (x >> 56) as u8,
        (x >> 48) as u8,
        (x >> 40) as u8,
        (x >> 32) as u8,
        (x >> 24) as u8,
        (x >> 16) as u8,
        (x >> 8) as u8,
        x as u8,
    ]
}

pub open spec fn spec_u64_from_be_bytes(b: Seq<u8>) -> u64
    recommends
        b.len() == 8,
{
    ((b[0] as u64) << 56) | ((b[1] as u64) << 48) | ((b[2] as u64) << 40) | ((b[3] as u64) << 32)
        | ((b[4] as u64) << 24) | ((b[5] as u64) << 16) | ((b[6] as u64) << 8) | (b[7] as u64)
}

/// Signed fields travel as their two's-complement bit pattern.
pub open spec fn spec_i64_to_be_bytes(x: i64) -> Seq<u8> {
    spec_u64_to_be_bytes(x as u64)
}

pub open spec fn spec_i64_from_be_bytes(b: Seq<u8>) -> i64
    recommends
        b.len() == 8,
{
    spec_u64_from_be_bytes(b) as i64
}

pub open spec fn spec_i32_to_be_bytes(x: i32) -> Seq<u8> {
    spec_u32_to_be_bytes(x as u32)
}

pub open spec fn spec_i32_from_be_bytes(b: Seq<u8>) -> i32
    recommends
        b.len() == 4,
{
    spec_u32_from_be_bytes(b) as i32
}

pub proof fn lemma_u16_be_bytes_round_trip(x: u16)
    ensures
        spec_u16_from_be_bytes(spec_u16_to_be_bytes(x)) == x,
{
    assert((((x >> 8) as u8 as u16) << 8) | (x as u8 as u16) == x) by (bit_vector);
}

pub proof fn lemma_u16_from_be_bytes_round_trip(b: Seq<u8>)
    requires
        b.len() == 2,
    ensures
        spec_u16_to_be_bytes(spec_u16_from_be_bytes(b)) == b,
{
    let hi = b[0];
    let lo = b[1];
    let v = spec_u16_from_be_bytes(b);
    assert({
        let v2 = ((hi as u16) << 8) | (lo as u16);
        (v2 >> 8) as u8 == hi && v2 as u8 == lo
    }) by (bit_vector);
    assert(spec_u16_to_be_bytes(v) =~= b);
}

pub proof fn lemma_u32_be_bytes_round_trip(x: u32)
    ensures
        spec_u32_from_be_bytes(spec_u32_to_be_bytes(x)) == x,
{
    assert((((x >> 24) as u8 as u32) << 24) | (((x >> 16) as u8 as u32) << 16) | (((x
        >> 8) as u8 as u32) << 8) | (x as u8 as u32) == x) by (bit_vector);
}

pub proof fn lemma_u32_from_be_bytes_round_trip(b: Seq<u8>)
    requires
        b.len() == 4,
    ensures
        spec_u32_to_be_bytes(spec_u32_from_be_bytes(b)) == b,
{
    let b0 = b[0];
    let b1 = b[1];
    let b2 = b[2];
    let b3 = b[3];
    let v = spec_u32_from_be_bytes(b);
    assert({
        let v2 = ((b0 as u32) << 24) | ((b1 as u32) << 16) | ((b2 as u32) << 8) | (b3 as u32);
        (v2 >> 24) as u8 == b0 && (v2 >> 16) as u8 == b1 && (v2 >> 8) as u8 == b2 && v2 as u8 == b3
    }) by (bit_vector);
    assert(spec_u32_to_be_bytes(v) =~= b);
}

pub proof fn lemma_u64_be_bytes_round_trip(x: u64)
    ensures
        spec_u64_from_be_bytes(spec_u64_to_be_bytes(x)) == x,
{
    assert((((x >> 56) as u8 as u64) << 56) | (((x >> 48) as u8 as u64) << 48) | (((x
        >> 40) as u8 as u64) << 40) | (((x >> 32) as u8 as u64) << 32) | (((x
        >> 24) as u8 as u64) << 24) | (((x >> 16) as u8 as u64) << 16) | (((x
        >> 8) as u8 as u64) << 8) | (x as u8 as u64) == x) by (bit_vector);
}

pub proof fn lemma_u64_from_be_bytes_round_trip(b: Seq<u8>)
    requires
        b.len() == 8,
    ensures
        spec_u64_to_be_bytes(spec_u64_from_be_bytes(b)) == b,
{
    let b0 = b[0];
    let b1 = b[1];
    let b2 = b[2];
    let b3 = b[3];
    let b4 = b[4];
    let b5 = b[5];
    let b6 = b[6];
    let b7 = b[7];
    let v = spec_u64_from_be_bytes(b);
    assert({
        let v2 = ((b0 as u64) << 56) | ((b1 as u64) << 48) | ((b2 as u64) << 40) | ((b3
            as u64) << 32) | ((b4 as u64) << 24) | ((b5 as u64) << 16) | ((b6 as u64) << 8) | (b7
            as u64);
        (v2 >> 56) as u8 == b0 && (v2 >> 48) as u8 == b1 && (v2 >> 40) as u8 == b2 && (v2
            >> 32) as u8 == b3 && (v2 >> 24) as u8 == b4 && (v2 >> 16) as u8 == b5 && (v2
            >> 8) as u8 == b6 && v2 as u8 == b7
    }) by (bit_vector);
    assert(spec_u64_to_be_bytes(v) =~= b);
}

pub proof fn lemma_i64_be_bytes_round_trip(x: i64)
    ensures
        spec_i64_from_be_bytes(spec_i64_to_be_bytes(x)) == x,
{
    lemma_u64_be_bytes_round_trip(x as u64);
    assert((x as u64) as i64 == x) by (bit_vector);
}

pub proof fn lemma_i64_from_be_bytes_round_trip(b: Seq<u8>)
    requires
        b.len() == 8,
    ensures
        spec_i64_to_be_bytes(spec_i64_from_be_bytes(b)) == b,
{
    lemma_u64_from_be_bytes_round_trip(b);
    let v = spec_u64_from_be_bytes(b);
    assert((v as i64) as u64 == v) by (bit_vector);
}

pub proof fn lemma_i32_be_bytes_round_trip(x: i32)
    ensures
        spec_i32_from_be_bytes(spec_i32_to_be_bytes(x)) == x,
{
    lemma_u32_be_bytes_round_trip(x as u32);
    assert((x as u32) as i32 == x) by (bit_vector);
}

pub proof fn lemma_i32_from_be_bytes_round_trip(b: Seq<u8>)
    requires
        b.len() == 4,
    ensures
        spec_i32_to_be_bytes(spec_i32_from_be_bytes(b)) == b,
{
    lemma_u32_from_be_bytes_round_trip(b);
    let v = spec_u32_from_be_bytes(b);
    assert((v as i32) as u32 == v) by (bit_vector);
}

pub fn push_u16_be(out: &mut Vec<u8>, x: u16)
    ensures
        final(out)@ == old(out)@ + spec_u16_to_be_bytes(x),
{
    out.push((x >> 8) as u8);
    out.push(x as u8);
    proof {
        assert(out@ =~= old(out)@ + spec_u16_to_be_bytes(x));
    }
}

pub fn push_u32_be(out: &mut Vec<u8>, x: u32)
    ensures
        final(out)@ == old(out)@ + spec_u32_to_be_bytes(x),
{
    out.push((x >> 24) as u8);
    out.push((x >> 16) as u8);
    out.push((x >> 8) as u8);
    out.push(x as u8);
    proof {
        assert(out@ =~= old(out)@ + spec_u32_to_be_bytes(x));
    }
}

pub fn push_u64_be(out: &mut Vec<u8>, x: u64)
    ensures
        final(out)@ == old(out)@ + spec_u64_to_be_bytes(x),
{
    out.push((x >> 56) as u8);
    out.push((x >> 48) as u8);
    out.push((x >> 40) as u8);
    out.push((x >> 32) as u8);
    out.push((x >> 24) as u8);
    out.push((x >> 16) as u8);
    out.push((x >> 8) as u8);
    out.push(x as u8);
    proof {
        assert(out@ =~= old(out)@ + spec_u64_to_be_bytes(x));
    }
}

pub fn push_i64_be(out: &mut Vec<u8>, x: i64)
    ensures
        final(out)@ == old(out)@ + spec_i64_to_be_bytes(x),
{
    #[verifier::truncate]
    let u: u64 = x as u64;
    push_u64_be(out, u);
}

pub fn push_i32_be(out: &mut Vec<u8>, x: i32)
    ensures
        final(out)@ == old(out)@ + spec_i32_to_be_bytes(x),
{
    #[verifier::truncate]
    let u: u32 = x as u32;
    push_u32_be(out, u);
}

pub fn u16_from_be(b: &[u8]) -> (x: u16)
    requires
        b@.len() == 2,
    ensures
        x == spec_u16_from_be_bytes(b@),
{
    ((b[0] as u16) << 8) | (b[1] as u16)
}

pub fn u32_from_be(b: &[u8]) -> (x: u32)
    requires
        b@.len() == 4,
    ensures
        x == spec_u32_from_be_bytes(b@),
{
    ((b[0] as u32) << 24) | ((b[1] as u32) << 16) | ((b[2] as u32) << 8) | (b[3] as u32)
}

pub fn u64_from_be(b: &[u8]) -> (x: u64)
    requires
        b@.len() == 8,
    ensures
        x == spec_u64_from_be_bytes(b@),
{
    ((b[0] as u64) << 56) | ((b[1] as u64) << 48) | ((b[2] as u64) << 40) | ((b[3] as u64) << 32)
        | ((b[4] as u64) << 24) | ((b[5] as u64) << 16) | ((b[6] as u64) << 8) | (b[7] as u64)
}

pub fn i64_from_be(b: &[u8]) -> (x: i64)
    requires
        b@.len() == 8,
    ensures
        x == spec_i64_from_be_bytes(b@),
{
    #[verifier::truncate]
    let x: i64 = u64_from_be(b) as i64;
    x
}

pub fn i32_from_be(b: &[u8]) -> (x: i32)
    requires
        b@.len() == 4,
    ensures
        x == spec_i32_from_be_bytes(b@),
{
    #[verifier::truncate]
    let x: i32 = u32_from_be(b) as i32;
    x
}

} // verus!
