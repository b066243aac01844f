//! Hexadecimal text of byte strings: the 40-digit info-hash form and its
//! 20-byte value.
use vstd::prelude::*;
use crate::messages::CodecError;

verus! {

pub open spec fn spec_is_hex_digit(b: u8) -> bool {
    (48 <= b <= 57) || (65 <= b <= 70) || (97 <= b <= 102)
}

/// The value of one hex digit, either case.
pub open spec fn spec_hex_val(b: u8) -> u8
    recommends
        spec_is_hex_digit(b),
{
    if 48 <= b <= 57 {
        (b - 48) as u8
    } else if 65 <= b <= 70 {
        (b - 55) as u8
    } else {
        (b - 87) as u8
    }
}

pub open spec fn spec_hex_decode_ok(s: Seq<u8>) -> bool {
    s.len() % 2 == 0 && (forall|i: int| 0 <= i < s.len() ==> spec_is_hex_digit(s[i]))
}

/// The bytes that a string of hex digits stands for, two digits a byte.
pub open spec fn spec_hex_decode(s: Seq<u8>) -> Seq<u8>
    recommends
        spec_hex_decode_ok(s),
{
    Seq::new(
        s.len() / 2,
        |i: int| (spec_hex_val(s[2 * i]) * 16 + spec_hex_val(s[2 * i + 1])) as u8,
    )
}

/// The upper-case hex digit of a value below 16.
pub open spec fn spec_hex_upper_digit(d: u8) -> u8
    recommends
        d < 16,
{
    if d < 10 {
        (48 + d) as u8
    } else {
        (55 + d) as u8
    }
}

/// The upper-case hex text of a byte string, two digits a byte.
pub open spec fn spec_hex_encode_upper(b: Seq<u8>) -> Seq<u8> {
    Seq::new(
        2 * b.len(),
        |i: int|
            if i % 2 == 0 {
                spec_hex_upper_digit(b[i / 2] / 16)
            } else {
                spec_hex_upper_digit(b[i / 2] % 16)
            },
    )
}

pub open spec fn spec_ascii_upper(c: u8) -> u8 {
    if 97 <= c <= 122 {
        (c - 32) as u8
    } else {
        c
    }
}

/// Hex text round-trips up to case: decoding hex digits and encoding the
/// bytes back in upper case gives the original digits, upper-cased.
pub proof fn lemma_hex_decode_encode_upper(s: Seq<u8>)
    requires
        spec_hex_decode_ok(s),
    ensures
        spec_hex_encode_upper(spec_hex_decode(s)) == s.map_values(|c: u8| spec_ascii_upper(c)),
{
    let d = spec_hex_decode(s);
    let e = spec_hex_encode_upper(d);
    vstd::arithmetic::div_mod::lemma_fundamental_div_mod(s.len() as int, 2);
    assert(d.len() == s.len() / 2);
    assert(e.len() == s.len());
    assert forall|i: int| 0 <= i < s.len() implies e[i] == spec_ascii_upper(s[i]) by {
        let j = i / 2;
        vstd::arithmetic::div_mod::lemma_fundamental_div_mod(i, 2);
        let hi = spec_hex_val(s[2 * j]);
        let lo = spec_hex_val(s[2 * j + 1]);
        assert(hi < 16 && lo < 16);
        assert(d[j] == hi * 16 + lo);
        assert((hi * 16 + lo) / 16 == hi);
        assert((hi * 16 + lo) % 16 == lo);
        if i % 2 == 0 {
            assert(i == 2 * j);
            assert(e[i] == spec_hex_upper_digit(hi));
            assert(spec_hex_upper_digit(spec_hex_val(s[i])) == spec_ascii_upper(s[i]));
        } else {
            assert(i == 2 * j + 1);
            assert(e[i] == spec_hex_upper_digit(lo));
            assert(spec_hex_upper_digit(spec_hex_val(s[i])) == spec_ascii_upper(s[i]));
        }
    }
    assert(e =~= s.map_values(|c: u8| spec_ascii_upper(c)));
}

/// Hex text round-trips the other way too: the upper-case encoding of any
/// bytes is well-formed hex and decodes back to the bytes.
pub proof fn lemma_hex_encode_decode(b: Seq<u8>)
    ensures
        spec_hex_decode_ok(spec_hex_encode_upper(b)),
        spec_hex_decode(spec_hex_encode_upper(b)) == b,
{
    let e = spec_hex_encode_upper(b);
    assert forall|i: int| 0 <= i < e.len() implies spec_is_hex_digit(e[i]) by {
        vstd::arithmetic::div_mod::lemma_fundamental_div_mod(i, 2);
    }
    assert(e.len() % 2 == 0) by {
        vstd::arithmetic::div_mod::lemma_mod_multiples_basic(b.len() as int, 2);
    }
    assert forall|i: int| 0 <= i < b.len() implies spec_hex_decode(e)[i] == b[i] by {
        let hi = b[i] / 16;
        let lo = b[i] % 16;
        vstd::arithmetic::div_mod::lemma_fundamental_div_mod(b[i] as int, 16);
        assert((2 * i) % 2 == 0 && (2 * i + 1) % 2 == 1) by {
            vstd::arithmetic::div_mod::lemma_mod_multiples_basic(i, 2);
        }
        assert(e[2 * i] == spec_hex_upper_digit(hi));
        assert(e[2 * i + 1] == spec_hex_upper_digit(lo));
        assert(spec_hex_val(spec_hex_upper_digit(hi)) == hi);
        assert(spec_hex_val(spec_hex_upper_digit(lo)) == lo);
    }
    assert(spec_hex_decode(e) =~= b);
}

pub fn is_hex_digit(b: u8) -> (r: bool)
    ensures
        r == spec_is_hex_digit(b),
{
    (48 <= b && b <= 57) || (65 <= b && b <= 70) || (97 <= b && b <= 102)
}

pub fn hex_val(b: u8) -> (r: u8)
    requires
        spec_is_hex_digit(b),
    ensures
        r == spec_hex_val(b),
{
    if 48 <= b && b <= 57 {
        b - 48
    } else if 65 <= b && b <= 70 {
        b - 55
    } else {
        b - 87
    }
}

/// Decode a string of hex digits to bytes: fails with `BadFormat` on odd
/// length or any non-hex character.
pub fn hex_decode(s: &[u8]) -> (r: Result<Vec<u8>, CodecError>)
    ensures
        r.is_ok() == spec_hex_decode_ok(s@),
        r matches Ok(v) ==> v@ == spec_hex_decode(s@),
{
    if s.len() % 2 != 0 {
        return Err(CodecError::BadFormat);
    }
    let k = s.len() / 2;
    let mut out: Vec<u8> = Vec::new();
    let mut i: usize = 0;
    while i < k
        invariant
            i <= k,
            k == s@.len() / 2,
            s@.len() % 2 == 0,
            s@.len() <= usize::MAX,
            out@.len() == i,
            forall|j: int| 0 <= j < 2 * i ==> spec_is_hex_digit(s@[j]),
            forall|j: int|
                0 <= j < i ==> out@[j] == (spec_hex_val(s@[2 * j]) * 16 + spec_hex_val(
                    s@[2 * j + 1],
                )) as u8,
        decreases k - i,
    {
        proof {
            vstd::arithmetic::div_mod::lemma_fundamental_div_mod(s@.len() as int, 2);
        }
        let hi = s[2 * i];
        let lo = s[2 * i + 1];
        if !is_hex_digit(hi) || !is_hex_digit(lo) {
            return Err(CodecError::BadFormat);
        }
        out.push(hex_val(hi) * 16 + hex_val(lo));
        i = i + 1;
    }
    proof {
        vstd::arithmetic::div_mod::lemma_fundamental_div_mod(s@.len() as int, 2);
        assert forall|j: int| 0 <= j < s@.len() implies spec_is_hex_digit(s@[j]) by {
            vstd::arithmetic::div_mod::lemma_fundamental_div_mod(j, 2);
        }
        assert(out@ =~= spec_hex_decode(s@));
    }
    Ok(out)
}

/// Encode bytes as upper-case hex digits, two a byte.
pub fn hex_encode_upper(b: &[u8]) -> (r: Vec<u8>)
    ensures
        r@ == spec_hex_encode_upper(b@),
{
    let n = b.len();
    let mut out: Vec<u8> = Vec::new();
    let mut i: usize = 0;
    while i < n
        invariant
            n == b@.len(),
            i <= b@.len(),
            b@.len() <= usize::MAX,
            out@.len() == 2 * i,
            forall|j: int| 0 <= j < 2 * i ==> out@[j] == spec_hex_encode_upper(b@)[j],
        decreases b@.len() - i,
    {
        let v = b[i];
        let hi = v / 16;
        let lo = v % 16;
        let hc = if hi < 10 {
            48 + hi
        } else {
            55 + hi
        };
        let lc = if lo < 10 {
            48 + lo
        } else {
            55 + lo
        };
        out.push(hc);
        out.push(lc);
        proof {
            assert(out@[2 * i as int] == spec_hex_encode_upper(b@)[2 * i as int]);
            assert(out@[2 * i as int + 1] == spec_hex_encode_upper(b@)[2 * i as int + 1]);
        }
        i = i + 1;
    }
    proof {
        assert(out@ =~= spec_hex_encode_upper(b@));
    }
    out
}

} // verus!
