//! Magnet URI parsing: percent-decoding, the `key=value` items, and the
//! info-hash, display name and tracker list they carry.
use vstd::prelude::*;
use vstd::string::StringSliceAdditionalSpecFns;
use crate::endpoint::{url_parse_of, parse_url};
use crate::hex_codec::{
    spec_is_hex_digit, spec_hex_val, spec_hex_decode_ok, spec_hex_decode, spec_hex_encode_upper,
    spec_ascii_upper, lemma_hex_decode_encode_upper, hex_decode, hex_encode_upper,
};
use crate::messages::CodecError;

verus! {

/// What percent-decoding yields, byte for byte: each `%` followed by two hex
/// digits becomes the byte they spell; a `%` followed by one hex digit and a
/// non-digit keeps the `%` and the digit; any other byte is copied unchanged.
pub open spec fn spec_percent_decode(s: Seq<u8>) -> Seq<u8>
    decreases s.len(),
{
    if s.len() == 0 {
        Seq::empty()
    } else if s[0] != 37 {
        seq![s[0]] + spec_percent_decode(s.skip(1))
    } else if s.len() < 3 {
        s
    } else if spec_is_hex_digit(s[1]) && spec_is_hex_digit(s[2]) {
        seq![(spec_hex_val(s[1]) * 16 + spec_hex_val(s[2])) as u8] + spec_percent_decode(s.skip(3))
    } else if spec_is_hex_digit(s[1]) {
        seq![37u8, s[1]] + spec_percent_decode(s.skip(2))
    } else {
        seq![37u8] + spec_percent_decode(s.skip(1))
    }
}

/// Relies on urlencoding::decode_binary: percent-encoded triples become one
/// byte each, and unencodable sequences are left as they are.
#[verifier::external_body]
pub(crate) fn percent_decode_bytes(bytes: &[u8]) -> (r: Vec<u8>)
    ensures
        r@ == spec_percent_decode(bytes@),
{
    urlencoding::decode_binary(bytes).into_owned()
}

/// The index of the first occurrence of `sep` in `s`, or `s.len()` when
/// `sep` does not occur.
pub open spec fn spec_find_byte(s: Seq<u8>, sep: u8) -> int
    decreases s.len(),
{
    if s.len() == 0 {
        0
    } else if s[0] == sep {
        0
    } else {
        1 + spec_find_byte(s.skip(1), sep)
    }
}

pub proof fn lemma_find_byte_bounds(s: Seq<u8>, sep: u8)
    ensures
        0 <= spec_find_byte(s, sep) <= s.len(),
        spec_find_byte(s, sep) < s.len() ==> s[spec_find_byte(s, sep)] == sep,
        forall|j: int| 0 <= j < spec_find_byte(s, sep) ==> s[j] != sep,
    decreases s.len(),
{
    if s.len() == 0 {
    } else if s[0] == sep {
    } else {
        lemma_find_byte_bounds(s.skip(1), sep);
        assert forall|j: int| 0 <= j < spec_find_byte(s, sep) implies s[j] != sep by {
            if j > 0 {
                assert(s.skip(1)[j - 1] == s[j]);
            }
        }
    }
}

fn find_byte(s: &[u8], sep: u8) -> (r: usize)
    ensures
        r as int == spec_find_byte(s@, sep),
{
    let n = s.len();
    let mut i: usize = 0;
    while i < n
        invariant
            n == s@.len(),
            i <= n,
            forall|j: int| 0 <= j < i ==> s@[j] != sep,
        decreases n - i,
    {
        if s[i] == sep {
            proof {
                lemma_find_byte_at(s@, sep, i as int);
            }
            return i;
        }
        i = i + 1;
    }
    proof {
        lemma_find_byte_absent(s@, sep);
    }
    n
}

proof fn lemma_find_byte_at(s: Seq<u8>, sep: u8, i: int)
    requires
        0 <= i < s.len(),
        s[i] == sep,
        forall|j: int| 0 <= j < i ==> s[j] != sep,
    ensures
        spec_find_byte(s, sep) == i,
    decreases i,
{
    if i == 0 {
    } else {
        assert(s.skip(1)[i - 1] == sep);
        assert forall|j: int| 0 <= j < i - 1 implies s.skip(1)[j] != sep by {
            assert(s.skip(1)[j] == s[j + 1]);
        }
        lemma_find_byte_at(s.skip(1), sep, i - 1);
    }
}

proof fn lemma_find_byte_absent(s: Seq<u8>, sep: u8)
    requires
        forall|j: int| 0 <= j < s.len() ==> s[j] != sep,
    ensures
        spec_find_byte(s, sep) == s.len(),
    decreases s.len(),
{
    if s.len() == 0 {
    } else {
        assert forall|j: int| 0 <= j < s.skip(1).len() implies s.skip(1)[j] != sep by {
            assert(s.skip(1)[j] == s[j + 1]);
        }
        lemma_find_byte_absent(s.skip(1), sep);
    }
}

/// `s` split at every occurrence of `sep`: the separators themselves are
/// dropped, and `n` separators yield `n + 1` (possibly empty) segments.
pub open spec fn spec_split_bytes(s: Seq<u8>, sep: u8) -> Seq<Seq<u8>>
    decreases s.len(),
{
    if s.len() == 0 {
        seq![Seq::<u8>::empty()]
    } else if s[0] == sep {
        seq![Seq::<u8>::empty()] + spec_split_bytes(s.skip(1), sep)
    } else {
        let r = spec_split_bytes(s.skip(1), sep);
        seq![seq![s[0]] + r[0]] + r.skip(1)
    }
}

pub proof fn lemma_split_bytes_nonempty(s: Seq<u8>, sep: u8)
    ensures
        spec_split_bytes(s, sep).len() >= 1,
    decreases s.len(),
{
    if s.len() == 0 {
    } else {
        lemma_split_bytes_nonempty(s.skip(1), sep);
    }
}

proof fn lemma_split_bytes_no_sep(s: Seq<u8>, sep: u8)
    requires
        forall|j: int| 0 <= j < s.len() ==> s[j] != sep,
    ensures
        spec_split_bytes(s, sep) == seq![s],
    decreases s.len(),
{
    if s.len() == 0 {
        assert(spec_split_bytes(s, sep) =~~= seq![s]);
    } else {
        assert forall|j: int| 0 <= j < s.skip(1).len() implies s.skip(1)[j] != sep by {
            assert(s.skip(1)[j] == s[j + 1]);
        }
        lemma_split_bytes_no_sep(s.skip(1), sep);
        assert(seq![s[0]] + s.skip(1) =~= s);
        assert(spec_split_bytes(s, sep) =~~= seq![s]);
    }
}

proof fn lemma_split_bytes_prefix(x: Seq<u8>, y: Seq<u8>, sep: u8)
    requires
        forall|j: int| 0 <= j < x.len() ==> x[j] != sep,
    ensures
        spec_split_bytes(x + seq![sep] + y, sep) == seq![x] + spec_split_bytes(y, sep),
    decreases x.len(),
{
    let s = x + seq![sep] + y;
    if x.len() == 0 {
        assert(s[0] == sep);
        assert(s.skip(1) =~= y);
        assert(spec_split_bytes(s, sep) =~~= seq![x] + spec_split_bytes(y, sep));
    } else {
        assert(s[0] == x[0]);
        assert(s[0] != sep);
        assert forall|j: int| 0 <= j < x.skip(1).len() implies x.skip(1)[j] != sep by {
            assert(x.skip(1)[j] == x[j + 1]);
        }
        lemma_split_bytes_prefix(x.skip(1), y, sep);
        assert(s.skip(1) =~= x.skip(1) + seq![sep] + y);
        let r = spec_split_bytes(s.skip(1), sep);
        assert(r == seq![x.skip(1)] + spec_split_bytes(y, sep));
        lemma_split_bytes_nonempty(y, sep);
        assert(r[0] == x.skip(1));
        assert(seq![s[0]] + r[0] =~= x);
        assert(r.skip(1) =~= spec_split_bytes(y, sep));
        assert(spec_split_bytes(s, sep) =~~= seq![x] + spec_split_bytes(y, sep));
    }
}

/// Split `s` at every `sep`, dropping the separators.
fn split_bytes(s: &[u8], sep: u8) -> (r: Vec<Vec<u8>>)
    ensures
        r@.map_values(|v: Vec<u8>| v@) == spec_split_bytes(s@, sep),
{
    let n = s.len();
    let mut segs: Vec<Vec<u8>> = Vec::new();
    let mut cur: Vec<u8> = Vec::new();
    let mut i: usize = 0;
    proof {
        assert(cur@ + s@.skip(0) =~= s@);
        assert(segs@.map_values(|v: Vec<u8>| v@) =~= Seq::<Seq<u8>>::empty());
        assert(segs@.map_values(|v: Vec<u8>| v@) + spec_split_bytes(cur@ + s@.skip(0), sep)
            =~= spec_split_bytes(s@, sep));
    }
    while i < n
        invariant
            n == s@.len(),
            i <= n,
            forall|j: int| 0 <= j < cur@.len() ==> cur@[j] != sep,
            spec_split_bytes(s@, sep) == segs@.map_values(|v: Vec<u8>| v@) + spec_split_bytes(
                cur@ + s@.skip(i as int),
                sep,
            ),
        decreases n - i,
    {
        let c = s[i];
        if c == sep {
            proof {
                assert(cur@ + s@.skip(i as int) =~= cur@ + seq![sep] + s@.skip(i + 1));
                lemma_split_bytes_prefix(cur@, s@.skip(i + 1), sep);
            }
            segs.push(cur);
            cur = Vec::new();
            proof {
                assert(segs@.map_values(|v: Vec<u8>| v@) =~= segs@.map_values(
                    |v: Vec<u8>| v@,
                ).drop_last().push(segs@.last()@));
                assert(cur@ + s@.skip(i + 1) =~= s@.skip(i + 1));
                assert(spec_split_bytes(s@, sep) =~= segs@.map_values(|v: Vec<u8>| v@)
                    + spec_split_bytes(cur@ + s@.skip(i + 1), sep));
            }
        } else {
            let ghost old_cur = cur@;
            cur.push(c);
            proof {
                assert(old_cur + s@.skip(i as int) =~= cur@ + s@.skip(i + 1));
            }
        }
        i = i + 1;
    }
    proof {
        assert(cur@ + s@.skip(n as int) =~= cur@);
        lemma_split_bytes_no_sep(cur@, sep);
    }
    segs.push(cur);
    proof {
        assert(segs@.map_values(|v: Vec<u8>| v@) =~= spec_split_bytes(s@, sep));
    }
    segs
}

/// The parse state while the `key=value` items of a link are applied in
/// order: the last valid `xt` wins, the last `dn` wins, `tr` accumulates.
pub struct MagnetState {
    pub info_hash: Option<Seq<u8>>,
    pub display_name: Seq<u8>,
    pub trackers: Seq<Seq<char>>,
}

pub open spec fn spec_initial_magnet_state() -> MagnetState {
    MagnetState { info_hash: Option::None, display_name: Seq::empty(), trackers: Seq::empty() }
}

/// How one item changes the parse state. An item without `=` is no
/// `key=value` pair and is ignored, as is any unknown key. An `xt` value
/// supplies the info-hash as its last 40 characters, hex-decoded; one whose
/// last 40 characters are not hex digits (or which is shorter) supplies
/// nothing. A `dn` value is the display name verbatim. A `tr` value that
/// parses as a URL adds that URL's serialization; one that does not parse is
/// dropped.
pub open spec fn spec_apply_item(st: MagnetState, item: Seq<u8>) -> MagnetState {
    let eq = spec_find_byte(item, 61);
    if eq == item.len() {
        st
    } else {
        let key = item.take(eq);
        let value = item.subrange(eq + 1, item.len() as int);
        if key == seq![120u8, 116u8] {
            if value.len() >= 40 && spec_hex_decode_ok(
                value.subrange(value.len() - 40, value.len() as int),
            ) {
                MagnetState {
                    info_hash: Option::Some(
                        spec_hex_decode(value.subrange(value.len() - 40, value.len() as int)),
                    ),
                    ..st
                }
            } else {
                st
            }
        } else if key == seq![100u8, 110u8] {
            MagnetState { display_name: value, ..st }
        } else if key == seq![116u8, 114u8] {
            match url_parse_of(value) {
                Option::Some(parts) => MagnetState {
                    trackers: st.trackers.push(parts.serialized@),
                    ..st
                },
                Option::None => st,
            }
        } else {
            st
        }
    }
}

pub open spec fn spec_apply_items(items: Seq<Seq<u8>>, st: MagnetState) -> MagnetState
    decreases items.len(),
{
    if items.len() == 0 {
        st
    } else {
        spec_apply_items(items.skip(1), spec_apply_item(st, items[0]))
    }
}

pub struct MagnetView {
    pub info_hash: Seq<u8>,
    pub display_name: Seq<u8>,
    pub trackers: Seq<Seq<char>>,
}

/// What parsing a whole link yields: percent-decode the bytes, drop the
/// 8-byte `magnet:?` prefix, split the remainder on `&`, and apply the items
/// in order. The parse fails with `BadFormat` exactly when the decoded bytes
/// are shorter than the prefix or no `xt` item yielded 20 bytes.
pub open spec fn spec_parse_magnet(b: Seq<u8>) -> Result<MagnetView, CodecError> {
    let d = spec_percent_decode(b);
    if d.len() < 8 {
        Err(CodecError::BadFormat)
    } else {
        let st = spec_apply_items(spec_split_bytes(d.skip(8), 38), spec_initial_magnet_state());
        match st.info_hash {
            Option::Some(ih) => Ok(
                MagnetView {
                    info_hash: ih,
                    display_name: st.display_name,
                    trackers: st.trackers,
                },
            ),
            Option::None => Err(CodecError::BadFormat),
        }
    }
}

/// A 20-byte torrent identity, decoded from 40 hex digits.
#[derive(Debug, PartialEq)]
pub struct InfoHash {
    pub bytes: Vec<u8>,
}

impl View for InfoHash {
    type V = Seq<u8>;

    open spec fn view(&self) -> Seq<u8> {
        self.bytes@
    }
}

impl InfoHash {
    pub open spec fn wf(&self) -> bool {
        self.bytes@.len() == 20
    }

    /// The upper-case 40-digit hex form of this info-hash.
    pub fn to_hex_upper(&self) -> (r: Vec<u8>)
        ensures
            r@ == spec_hex_encode_upper(self.bytes@),
    {
        hex_encode_upper(self.bytes.as_slice())
    }
}

/// What a magnet link carries: the info-hash, the display name, and the
/// tracker URLs in link order (each in its parsed, serialized form).
#[derive(Debug)]
pub struct Magnet {
    pub info_hash: InfoHash,
    pub display_name: Vec<u8>,
    pub trackers: Vec<String>,
}

impl View for Magnet {
    type V = MagnetView;

    open spec fn view(&self) -> MagnetView {
        MagnetView {
            info_hash: self.info_hash.bytes@,
            display_name: self.display_name@,
            trackers: self.trackers@.map_values(|s: String| s@),
        }
    }
}

spec fn spec_state_of(
    info: Option<Vec<u8>>,
    display_name: Vec<u8>,
    trackers: Vec<String>,
) -> MagnetState {
    MagnetState {
        info_hash: match info {
            Option::Some(v) => Option::Some(v@),
            Option::None => Option::None,
        },
        display_name: display_name@,
        trackers: trackers@.map_values(|s: String| s@),
    }
}

impl Magnet {
    pub open spec fn wf(&self) -> bool {
        self.info_hash.wf()
    }

    /// Parse a magnet link. Fails with `BadFormat` exactly when the decoded
    /// link is shorter than the `magnet:?` prefix or no `xt` item yields 20
    /// decoded bytes.
    pub fn from_link(link: &str) -> (r: Result<Magnet, CodecError>)
        ensures
            r.is_ok() == spec_parse_magnet(link.spec_bytes()).is_ok(),
            r matches Ok(m) ==> m@ == spec_parse_magnet(link.spec_bytes()).unwrap() && m.wf(),
    {
        let decoded = percent_decode_bytes(link.as_bytes());
        if decoded.len() < 8 {
            return Err(CodecError::BadFormat);
        }
        let rest = vstd::slice::slice_subrange(decoded.as_slice(), 8, decoded.len());
        proof {
            assert(rest@ =~= decoded@.skip(8));
        }
        let items = split_bytes(rest, 38);
        let ghost items_spec = spec_split_bytes(decoded@.skip(8), 38);
        let mut info: Option<Vec<u8>> = Option::None;
        let mut display_name: Vec<u8> = Vec::new();
        let mut trackers: Vec<String> = Vec::new();
        let mut i: usize = 0;
        proof {
            assert(spec_state_of(info, display_name, trackers).display_name =~= Seq::<
                u8,
            >::empty());
            assert(spec_state_of(info, display_name, trackers).trackers =~= Seq::<
                Seq<char>,
            >::empty());
            assert(spec_state_of(info, display_name, trackers) == spec_initial_magnet_state());
            assert(items_spec.skip(0) =~= items_spec);
        }
        while i < items.len()
            invariant
                items@.map_values(|v: Vec<u8>| v@) == items_spec,
                i <= items@.len(),
                spec_apply_items(items_spec, spec_initial_magnet_state()) == spec_apply_items(
                    items_spec.skip(i as int),
                    spec_state_of(info, display_name, trackers),
                ),
                info matches Option::Some(v) ==> v@.len() == 20,
            decreases items@.len() - i,
        {
            let ghost st0 = spec_state_of(info, display_name, trackers);
            let ghost item_spec = items_spec[i as int];
            proof {
                assert(items@[i as int]@ == item_spec);
                lemma_find_byte_bounds(item_spec, 61);
            }
            let item = &items[i];
            let eq = find_byte(item.as_slice(), 61);
            if eq < item.len() {
                let ghost key = item_spec.take(eq as int);
                let ghost value = item_spec.subrange(eq as int + 1, item_spec.len() as int);
                if eq == 2 && item[0] == 120 && item[1] == 116 {
                    proof {
                        assert(key =~= seq![120u8, 116u8]);
                    }
                    if item.len() - eq - 1 >= 40 {
                        let tail = vstd::slice::slice_subrange(
                            item.as_slice(),
                            item.len() - 40,
                            item.len(),
                        );
                        proof {
                            assert(tail@ =~= value.subrange(
                                value.len() - 40,
                                value.len() as int,
                            ));
                        }
                        match hex_decode(tail) {
                            Ok(h) => {
                                info = Option::Some(h);
                            },
                            Err(_) => {},
                        }
                    }
                } else if eq == 2 && item[0] == 100 && item[1] == 110 {
                    proof {
                        assert(key =~= seq![100u8, 110u8]);
                        assert(key != seq![120u8, 116u8]);
                    }
                    display_name = vstd::slice::slice_to_vec(
                        vstd::slice::slice_subrange(item.as_slice(), eq + 1, item.len()),
                    );
                    proof {
                        assert(display_name@ =~= value);
                    }
                } else if eq == 2 && item[0] == 116 && item[1] == 114 {
                    proof {
                        assert(key =~= seq![116u8, 114u8]);
                        assert(key != seq![120u8, 116u8]);
                        assert(key != seq![100u8, 110u8]);
                    }
                    let value_vec = vstd::slice::slice_to_vec(
                        vstd::slice::slice_subrange(item.as_slice(), eq + 1, item.len()),
                    );
                    proof {
                        assert(value_vec@ =~= value);
                    }
                    match parse_url(value_vec.as_slice()) {
                        Option::Some(parts) => {
                            trackers.push(parts.serialized);
                        },
                        Option::None => {},
                    }
                } else {
                    proof {
                        if key == seq![120u8, 116u8] {
                            assert(key.len() == 2 && key[0] == 120 && key[1] == 116);
                            assert(key[0] == item_spec[0] && key[1] == item_spec[1]);
                            assert(false);
                        }
                        if key == seq![100u8, 110u8] {
                            assert(key.len() == 2 && key[0] == 100 && key[1] == 110);
                            assert(key[0] == item_spec[0] && key[1] == item_spec[1]);
                            assert(false);
                        }
                        if key == seq![116u8, 114u8] {
                            assert(key.len() == 2 && key[0] == 116 && key[1] == 114);
                            assert(key[0] == item_spec[0] && key[1] == item_spec[1]);
                            assert(false);
                        }
                    }
                }
            }
            proof {
                let st1 = spec_state_of(info, display_name, trackers);
                if spec_find_byte(item_spec, 61) == item_spec.len() {
                    assert(st1 == spec_apply_item(st0, item_spec));
                } else {
                    assert(st1.trackers =~= spec_apply_item(st0, item_spec).trackers);
                    assert(st1.display_name =~= spec_apply_item(st0, item_spec).display_name);
                    assert(st1.info_hash == spec_apply_item(st0, item_spec).info_hash);
                    assert(st1 == spec_apply_item(st0, item_spec));
                }
                assert(items_spec.skip(i as int)[0] == item_spec);
                assert(items_spec.skip(i as int).skip(1) =~= items_spec.skip(i as int + 1));
                assert(spec_apply_items(items_spec.skip(i as int), st0) == spec_apply_items(
                    items_spec.skip(i as int + 1),
                    st1,
                ));
            }
            i = i + 1;
        }
        proof {
            assert(items_spec.skip(items@.len() as int) =~= Seq::<Seq<u8>>::empty());
        }
        let final_info = match info {
            Option::Some(v) => v,
            Option::None => {
                return Err(CodecError::BadFormat);
            },
        };
        Ok(Magnet { info_hash: InfoHash { bytes: final_info }, display_name, trackers })
    }
}

/// Whether an info-hash, if present, is the decoding of 40 hex digits.
pub open spec fn spec_info_hash_from_hex(oh: Option<Seq<u8>>) -> bool {
    oh matches Option::Some(ih) ==> exists|h: Seq<u8>|
        spec_hex_decode_ok(h) && h.len() == 40 && ih == spec_hex_decode(h)
}

proof fn lemma_apply_item_info_hash(st: MagnetState, item: Seq<u8>)
    requires
        spec_info_hash_from_hex(st.info_hash),
    ensures
        spec_info_hash_from_hex(spec_apply_item(st, item).info_hash),
{
    let eq = spec_find_byte(item, 61);
    if eq != item.len() {
        let key = item.take(eq);
        let value = item.subrange(eq + 1, item.len() as int);
        if key == seq![120u8, 116u8] && value.len() >= 40 && spec_hex_decode_ok(
            value.subrange(value.len() - 40, value.len() as int),
        ) {
            let h = value.subrange(value.len() - 40, value.len() as int);
            assert(spec_hex_decode_ok(h) && h.len() == 40 && spec_apply_item(
                st,
                item,
            ).info_hash == Option::Some(spec_hex_decode(h)));
        }
    }
}

proof fn lemma_apply_items_info_hash(items: Seq<Seq<u8>>, st: MagnetState)
    requires
        spec_info_hash_from_hex(st.info_hash),
    ensures
        spec_info_hash_from_hex(spec_apply_items(items, st).info_hash),
    decreases items.len(),
{
    if items.len() == 0 {
    } else {
        lemma_apply_item_info_hash(st, items[0]);
        lemma_apply_items_info_hash(items.skip(1), spec_apply_item(st, items[0]));
    }
}

/// A parsed magnet's info-hash came from 40 hex digits of the link, and
/// encoding it back as upper-case hex gives those digits, upper-cased: the
/// hex form survives the round trip up to case.
pub proof fn lemma_magnet_info_hash_hex_round_trip(b: Seq<u8>)
    requires
        spec_parse_magnet(b) is Ok,
    ensures
        exists|h: Seq<u8>|
            spec_hex_decode_ok(h) && h.len() == 40 && spec_parse_magnet(b).unwrap().info_hash
                == spec_hex_decode(h) && spec_hex_encode_upper(
                spec_parse_magnet(b).unwrap().info_hash,
            ) == h.map_values(|c: u8| spec_ascii_upper(c)),
{
    let d = spec_percent_decode(b);
    let items = spec_split_bytes(d.skip(8), 38);
    lemma_apply_items_info_hash(items, spec_initial_magnet_state());
    let ih = spec_parse_magnet(b).unwrap().info_hash;
    let h = choose|h: Seq<u8>|
        spec_hex_decode_ok(h) && h.len() == 40 && ih == spec_hex_decode(h);
    lemma_hex_decode_encode_upper(h);
    assert(spec_hex_decode_ok(h) && h.len() == 40 && ih == spec_hex_decode(h)
        && spec_hex_encode_upper(ih) == h.map_values(|c: u8| spec_ascii_upper(c)));
}

} // verus!
