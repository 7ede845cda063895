//! Tag-length-value scanning for Caisse-AP style responses: fields are
//! `tag (2 bytes) · length (3 ASCII decimal bytes) · value (length bytes)`,
//! concatenated. The scanner resynchronizes: where no field parses it
//! advances one byte and tries again.

use vstd::prelude::*;
use vstd::string::StringSliceAdditionalSpecFns;
use crate::protocols::utf8_lossy;

verus! {

/// An ASCII decimal digit byte.
pub open spec fn is_digit_byte(b: u8) -> bool {
    0x30 <= b <= 0x39
}

/// Whether a field headed at `p` parses: three digit bytes of length after
/// the two tag bytes, and the value fits in the buffer.
pub open spec fn field_parses_at(s: Seq<u8>, p: int) -> bool {
    &&& p + 5 <= s.len()
    &&& is_digit_byte(s[p + 2])
    &&& is_digit_byte(s[p + 3])
    &&& is_digit_byte(s[p + 4])
    &&& p + 5 + field_len_at(s, p) <= s.len()
}

/// The value length encoded by the three digit bytes at `p + 2`.
pub open spec fn field_len_at(s: Seq<u8>, p: int) -> int {
    (s[p + 2] - 0x30) * 100 + (s[p + 3] - 0x30) * 10 + (s[p + 4] - 0x30)
}

/// The `(tag, value)` pairs scanned from position `p` on: a parsing field
/// is taken whole, any other byte is skipped.
pub open spec fn spec_tlv_pairs_from(s: Seq<u8>, p: int) -> Seq<(Seq<u8>, Seq<u8>)>
    decreases s.len() - p,
    when 0 <= p <= s.len()
{
    if p + 5 > s.len() {
        seq![]
    } else if field_parses_at(s, p) {
        seq![(s.subrange(p, p + 2), s.subrange(p + 5, p + 5 + field_len_at(s, p)))]
            + spec_tlv_pairs_from(s, p + 5 + field_len_at(s, p))
    } else {
        spec_tlv_pairs_from(s, p + 1)
    }
}

/// All `(tag, value)` pairs of a buffer.
pub open spec fn spec_tlv_pairs(s: Seq<u8>) -> Seq<(Seq<u8>, Seq<u8>)> {
    spec_tlv_pairs_from(s, 0)
}

/// The value of the first pair carrying `tag`, if any.
pub open spec fn spec_tag_value(pairs: Seq<(Seq<u8>, Seq<u8>)>, tag: Seq<u8>) -> Option<Seq<u8>>
    decreases pairs.len(),
{
    if pairs.len() == 0 {
        None
    } else if pairs[0].0 == tag {
        Some(pairs[0].1)
    } else {
        spec_tag_value(pairs.drop_first(), tag)
    }
}

/// Scan a buffer into its `(tag, value)` pairs.
pub fn tlv_pairs(data: &[u8]) -> (r: Vec<(Vec<u8>, Vec<u8>)>)
    ensures
        r@.len() == spec_tlv_pairs(data@).len(),
        forall|i: int|
            0 <= i < r@.len() ==> (#[trigger] r@[i]).0@ == spec_tlv_pairs(data@)[i].0 && r@[i].1@
                == spec_tlv_pairs(data@)[i].1,
{
    let ghost s = data@;
    let mut out: Vec<(Vec<u8>, Vec<u8>)> = Vec::new();
    let mut p: usize = 0;
    proof {
        assert(spec_tlv_pairs(s) =~= Seq::new(0nat, |i: int| (out@[i].0@, out@[i].1@))
            + spec_tlv_pairs_from(s, 0));
    }
    while data.len() - p >= 5
        invariant
            p <= data@.len(),
            data@ == s,
            out@.len() == spec_tlv_pairs(s).len() - spec_tlv_pairs_from(s, p as int).len(),
            spec_tlv_pairs(s) =~= Seq::new(out@.len() as nat, |i: int| (out@[i].0@, out@[i].1@))
                + spec_tlv_pairs_from(s, p as int),
        decreases data@.len() - p,
    {
        let d0 = data[p + 2];
        let d1 = data[p + 3];
        let d2 = data[p + 4];
        let digits_ok = 0x30 <= d0 && d0 <= 0x39 && 0x30 <= d1 && d1 <= 0x39 && 0x30 <= d2 && d2
            <= 0x39;
        if digits_ok {
            let vlen: usize = ((d0 - 0x30) as usize) * 100 + ((d1 - 0x30) as usize) * 10 + ((d2
                - 0x30) as usize);
            proof {
                assert(vlen == field_len_at(s, p as int));
            }
            if vlen <= data.len() - (p + 5) {
                let tag = vstd::slice::slice_to_vec(vstd::slice::slice_subrange(data, p, p + 2));
                let value = vstd::slice::slice_to_vec(
                    vstd::slice::slice_subrange(data, p + 5, p + 5 + vlen),
                );
                proof {
                    assert(field_parses_at(s, p as int));
                    assert(spec_tlv_pairs_from(s, p as int) == seq![
                        (s.subrange(p as int, p + 2), s.subrange(p + 5, p + 5 + vlen)),
                    ] + spec_tlv_pairs_from(s, p + 5 + vlen));
                }
                out.push((tag, value));
                p = p + 5 + vlen;
                proof {
                    assert(spec_tlv_pairs(s) =~= Seq::new(
                        out@.len() as nat,
                        |i: int| (out@[i].0@, out@[i].1@),
                    ) + spec_tlv_pairs_from(s, p as int));
                }
                continue ;
            }
        }
        proof {
            assert(!field_parses_at(s, p as int));
            assert(spec_tlv_pairs_from(s, p as int) == spec_tlv_pairs_from(s, p + 1));
        }
        p = p + 1;
    }
    proof {
        assert(spec_tlv_pairs_from(s, p as int) =~= Seq::<(Seq<u8>, Seq<u8>)>::empty());
        assert(spec_tlv_pairs(s) =~= Seq::new(out@.len() as nat, |i: int| (out@[i].0@, out@[i].1@)));
    }
    out
}

/// What `spec_tag_value` returns: the value of the first pair whose tag
/// matches, or nothing when no tag matches.
pub proof fn lemma_tag_value(pairs: Seq<(Seq<u8>, Seq<u8>)>, tag: Seq<u8>)
    ensures
        match spec_tag_value(pairs, tag) {
            Some(v) => exists|i: int|
                0 <= i < pairs.len() && (#[trigger] pairs[i]).0 == tag && pairs[i].1 == v && forall|
                    j: int,
                |
                    0 <= j < i ==> (#[trigger] pairs[j]).0 != tag,
            None => forall|j: int| 0 <= j < pairs.len() ==> (#[trigger] pairs[j]).0 != tag,
        },
    decreases pairs.len(),
{
    if pairs.len() > 0 && pairs[0].0 != tag {
        let t = pairs.drop_first();
        lemma_tag_value(t, tag);
        assert(forall|j: int| 1 <= j < pairs.len() ==> pairs[j] == t[j - 1]);
        match spec_tag_value(t, tag) {
            Some(v) => {
                let i = choose|i: int|
                    0 <= i < t.len() && (#[trigger] t[i]).0 == tag && t[i].1 == v && forall|j: int|
                        0 <= j < i ==> (#[trigger] t[j]).0 != tag;
                assert(pairs[i + 1].0 == tag && pairs[i + 1].1 == v);
                assert(forall|j: int| 0 <= j < i + 1 ==> (#[trigger] pairs[j]).0 != tag);
            },
            None => {},
        }
    }
}

/// The value of the first pair in `pairs` whose tag is `[t0, t1]`, copied
/// out, or nothing when the tag does not occur.
pub fn find_tag_value(pairs: &Vec<(Vec<u8>, Vec<u8>)>, t0: u8, t1: u8) -> (r: Option<Vec<u8>>)
    ensures
        match r {
            Some(v) => spec_tag_value(
                Seq::new(pairs@.len() as nat, |i: int| (pairs@[i].0@, pairs@[i].1@)),
                seq![t0, t1],
            ) == Some(v@),
            None => spec_tag_value(
                Seq::new(pairs@.len() as nat, |i: int| (pairs@[i].0@, pairs@[i].1@)),
                seq![t0, t1],
            ) is None,
        },
{
    let ghost view_pairs = Seq::new(pairs@.len() as nat, |i: int| (pairs@[i].0@, pairs@[i].1@));
    proof {
        lemma_tag_value(view_pairs, seq![t0, t1]);
    }
    let mut i: usize = 0;
    while i < pairs.len()
        invariant
            i <= pairs@.len(),
            view_pairs == Seq::new(pairs@.len() as nat, |j: int| (pairs@[j].0@, pairs@[j].1@)),
            forall|j: int| 0 <= j < i ==> (#[trigger] view_pairs[j]).0 != seq![t0, t1],
        decreases pairs@.len() - i,
    {
        let tag = &pairs[i].0;
        let hit = tag.len() == 2 && tag[0] == t0 && tag[1] == t1;
        proof {
            assert((view_pairs[i as int].0 == seq![t0, t1]) <==> (pairs@[i as int].0@.len() == 2
                && pairs@[i as int].0@[0] == t0 && pairs@[i as int].0@[1] == t1)) by {
                if pairs@[i as int].0@.len() == 2 && pairs@[i as int].0@[0] == t0 && pairs@[
                    i as int
                ].0@[1] == t1 {
                    assert(pairs@[i as int].0@ =~= seq![t0, t1]);
                }
            }
        }
        if hit {
            proof {
                lemma_tag_value_is_first(view_pairs, seq![t0, t1], i as int);
            }
            let v = clone_bytes(&pairs[i].1);
            return Some(v);
        }
        i = i + 1;
    }
    None
}

/// When `pairs[i]` is the first pair holding `tag`, `spec_tag_value`
/// returns its value.
proof fn lemma_tag_value_is_first(pairs: Seq<(Seq<u8>, Seq<u8>)>, tag: Seq<u8>, i: int)
    requires
        0 <= i < pairs.len(),
        pairs[i].0 == tag,
        forall|j: int| 0 <= j < i ==> (#[trigger] pairs[j]).0 != tag,
    ensures
        spec_tag_value(pairs, tag) == Some(pairs[i].1),
    decreases pairs.len(),
{
    if i > 0 {
        let t = pairs.drop_first();
        assert(forall|j: int| 1 <= j < pairs.len() ==> pairs[j] == t[j - 1]);
        lemma_tag_value_is_first(t, tag, i - 1);
    }
}

/// Copy a byte vector.
fn clone_bytes(v: &Vec<u8>) -> (r: Vec<u8>)
    ensures
        r@ == v@,
{
    let mut out: Vec<u8> = Vec::new();
    out.extend_from_slice(v.as_slice());
    proof {
        assert(out@ =~= v@);
    }
    out
}

/// The scan visits field-aligned positions only: from `p` on, every
/// position it reaches heads a parsing field, until fewer than one header
/// of bytes is left.
pub open spec fn scan_aligned(s: Seq<u8>, p: int) -> bool
    decreases s.len() - p,
    when 0 <= p <= s.len()
{
    if p + 5 > s.len() {
        true
    } else {
        field_parses_at(s, p) && scan_aligned(s, p + 5 + field_len_at(s, p))
    }
}

/// Position `k` avoids the three length bytes of every field the scan
/// visits from `p` on.
pub open spec fn misses_length_bytes(s: Seq<u8>, p: int, k: int) -> bool
    decreases s.len() - p,
    when 0 <= p <= s.len() && scan_aligned(s, p)
{
    if p + 5 > s.len() {
        true
    } else {
        !(p + 2 <= k < p + 5) && misses_length_bytes(s, p + 5 + field_len_at(s, p), k)
    }
}

/// Two buffers equal at every position at or past `p` scan to the same
/// pairs from `p` on.
proof fn lemma_scan_equal_past(s: Seq<u8>, t: Seq<u8>, k: int, p: int)
    requires
        s.len() == t.len(),
        forall|j: int| 0 <= j < s.len() && j != k ==> s[j] == t[j],
        k < p,
        0 <= p <= s.len(),
    ensures
        spec_tlv_pairs_from(s, p) == spec_tlv_pairs_from(t, p),
    decreases s.len() - p,
{
    if p + 5 <= s.len() {
        assert(field_len_at(s, p) == field_len_at(t, p));
        assert(field_parses_at(s, p) == field_parses_at(t, p));
        if field_parses_at(s, p) {
            let l = field_len_at(s, p);
            assert(s.subrange(p, p + 2) =~= t.subrange(p, p + 2));
            assert(s.subrange(p + 5, p + 5 + l) =~= t.subrange(p + 5, p + 5 + l));
            lemma_scan_equal_past(s, t, k, p + 5 + l);
        } else {
            lemma_scan_equal_past(s, t, k, p + 1);
        }
    }
}

/// All pairs of `a` agree with `b`, except possibly the one at `d`.
pub open spec fn pairs_agree_except(
    a: Seq<(Seq<u8>, Seq<u8>)>,
    b: Seq<(Seq<u8>, Seq<u8>)>,
    d: int,
) -> bool {
    forall|i: int| 0 <= i < a.len() && i != d ==> #[trigger] a[i] == b[i]
}

/// Resynchronization under one-byte corruption. Take a stream whose scan
/// from `p` is field-aligned, and change one byte that is not a length
/// byte of any visited field. The corrupted stream scans to the same
/// number of pairs, and every pair but at most one — the field holding the
/// changed byte — is unchanged. (Changing a length byte can instead
/// swallow the following fields: the scan may then leave alignment.)
pub proof fn lemma_tlv_resync(s: Seq<u8>, t: Seq<u8>, k: int, p: int)
    requires
        s.len() == t.len(),
        0 <= k < s.len(),
        forall|j: int| 0 <= j < s.len() && j != k ==> s[j] == t[j],
        0 <= p <= s.len(),
        scan_aligned(s, p),
        misses_length_bytes(s, p, k),
    ensures
        spec_tlv_pairs_from(s, p).len() == spec_tlv_pairs_from(t, p).len(),
        exists|d: int|
            #[trigger] pairs_agree_except(spec_tlv_pairs_from(s, p), spec_tlv_pairs_from(t, p), d),
    decreases s.len() - p,
{
    if p + 5 > s.len() {
        assert(spec_tlv_pairs_from(t, p) =~= Seq::<(Seq<u8>, Seq<u8>)>::empty());
        assert(pairs_agree_except(spec_tlv_pairs_from(s, p), spec_tlv_pairs_from(t, p), 0));
    } else {
        let l = field_len_at(s, p);
        assert(!(p + 2 <= k < p + 5));
        assert(field_len_at(t, p) == l);
        assert(field_parses_at(t, p));
        let head_s = (s.subrange(p, p + 2), s.subrange(p + 5, p + 5 + l));
        let head_t = (t.subrange(p, p + 2), t.subrange(p + 5, p + 5 + l));
        let tail_s = spec_tlv_pairs_from(s, p + 5 + l);
        let tail_t = spec_tlv_pairs_from(t, p + 5 + l);
        assert(spec_tlv_pairs_from(s, p) == seq![head_s] + tail_s);
        assert(spec_tlv_pairs_from(t, p) == seq![head_t] + tail_t);
        if p <= k < p + 5 + l {
            lemma_scan_equal_past(s, t, k, p + 5 + l);
            assert(pairs_agree_except(spec_tlv_pairs_from(s, p), spec_tlv_pairs_from(t, p), 0));
        } else {
            assert(head_s.0 =~= head_t.0);
            assert(head_s.1 =~= head_t.1);
            lemma_tlv_resync(s, t, k, p + 5 + l);
            let d0 = choose|d: int| #[trigger] pairs_agree_except(tail_s, tail_t, d);
            assert(pairs_agree_except(spec_tlv_pairs_from(s, p), spec_tlv_pairs_from(t, p), d0 + 1))
                by {
                assert(forall|i: int|
                    0 <= i < spec_tlv_pairs_from(s, p).len() && i != d0 + 1 && i >= 1
                        ==> #[trigger] spec_tlv_pairs_from(s, p)[i] == tail_s[i - 1]
                        && spec_tlv_pairs_from(t, p)[i] == tail_t[i - 1]);
            }
        }
    }
}

/// Read the value of the first occurrence of a two-character tag out of a
/// TLV string: the three ASCII digits after the tag give the value length.
/// Where the tag is absent, or its length does not parse, or the value runs
/// past the end, the result is empty.
pub fn extract_tlv_value(data: &str, tag: &str) -> (r: String)
    requires
        data.is_ascii(),
        tag.is_ascii(),
        tag@.len() == 2,
    ensures
        r.is_ascii(),
        r@.len() <= data@.len(),
        r@ == crate::protocols::chars_of_bytes(
            crate::response::spec_extract_tlv(
                vstd::string::StringSliceAdditionalSpecFns::spec_bytes(data),
                vstd::string::StringSliceAdditionalSpecFns::spec_bytes(tag)[0],
                vstd::string::StringSliceAdditionalSpecFns::spec_bytes(tag)[1],
            ),
        ),
{
    let db = data.as_bytes();
    let tb = tag.as_bytes();
    proof {
        broadcast use vstd::string::is_ascii_spec_bytes;
        assert(tb@.len() == 2);
        assert(db@.len() == data@.len());
        assert(forall|i: int| 0 <= i < data@.len() ==> #[trigger] data@[i] <= '\u{7f}');
        assert(forall|i: int| 0 <= i < db@.len() ==> #[trigger] db@[i] < 0x80);
        crate::response::lemma_find_pair(db@, tb@[0], tb@[1]);
        assert(db@ == vstd::string::StringSliceAdditionalSpecFns::spec_bytes(data));
        assert(tb@ == vstd::string::StringSliceAdditionalSpecFns::spec_bytes(tag));
        assert(tb@[0] == vstd::string::StringSliceAdditionalSpecFns::spec_bytes(tag)[0]);
        assert(tb@[1] == vstd::string::StringSliceAdditionalSpecFns::spec_bytes(tag)[1]);
    }
    let ghost a = tb@[0];
    let ghost b = tb@[1];
    let mut p: usize = 0;
    while db.len() - p >= 2
        invariant
            p <= db@.len(),
            tb@.len() == 2,
            a == tb@[0] && b == tb@[1],
            db@ == vstd::string::StringSliceAdditionalSpecFns::spec_bytes(data),
            tb@ == vstd::string::StringSliceAdditionalSpecFns::spec_bytes(tag),
            db@.len() == data@.len(),
            forall|i: int| 0 <= i < db@.len() ==> #[trigger] db@[i] < 0x80,
            forall|j: int| 0 <= j < p ==> !(db@[j] == a && #[trigger] db@[j + 1] == b),
        decreases db@.len() - p,
    {
        if db[p] == tb[0] && db[p + 1] == tb[1] {
            proof {
                crate::response::lemma_find_pair_is_first(db@, a, b, p as int);
            }
            if db.len() - p >= 5 {
                let d0 = db[p + 2];
                let d1 = db[p + 3];
                let d2 = db[p + 4];
                if 0x30 <= d0 && d0 <= 0x39 && 0x30 <= d1 && d1 <= 0x39 && 0x30 <= d2 && d2
                    <= 0x39 {
                    let vlen: usize = ((d0 - 0x30) as usize) * 100 + ((d1 - 0x30) as usize) * 10
                        + ((d2 - 0x30) as usize);
                    if vlen <= db.len() - (p + 5) {
                        proof {
                            assert(field_parses_at(db@, p as int));
                        }
                        let v = vstd::slice::slice_subrange(db, p + 5, p + 5 + vlen);
                        let out = utf8_lossy(v);
                        proof {
                            assert(forall|i: int| 0 <= i < v@.len() ==> #[trigger] v@[i] < 0x80);
                            assert(out@ =~= Seq::new(v@.len(), |i: int| v@[i] as char));
                            assert(vstd::utf8::is_ascii_chars(out@)) by {
                                assert(forall|j: int|
                                    0 <= j < out@.len() ==> '\0' <= #[trigger] out@[j]
                                        <= '\u{7f}') by {
                                    assert(forall|j: int|
                                        0 <= j < out@.len() ==> #[trigger] out@[j] == v@[j] as char);
                                }
                            }
                            assert(db@.len() == data@.len());
                            assert(crate::response::spec_extract_tlv(db@, a, b) == v@);
                            assert(out@ =~= crate::protocols::chars_of_bytes(
                                crate::response::spec_extract_tlv(db@, a, b),
                            ));
                        }
                        return out;
                    }
                }
            }
            proof {
                assert(!field_parses_at(db@, p as int));
                assert(crate::response::spec_extract_tlv(db@, a, b) =~= Seq::<u8>::empty());
            }
            let empty = String::new();
            proof {
                assert(empty@ =~= crate::protocols::chars_of_bytes(
                    crate::response::spec_extract_tlv(db@, a, b),
                ));
            }
            return empty;
        }
        p = p + 1;
    }
    proof {
        crate::response::lemma_find_pair(db@, a, b);
        assert(crate::response::find_pair(db@, a, b) is None) by {
            match crate::response::find_pair(db@, a, b) {
                Some(i) => {
                    assert(0 <= i < db@.len() - 1 && db@[i] == a && db@[i + 1] == b);
                },
                None => {},
            }
        }
        assert(crate::response::spec_extract_tlv(db@, a, b) =~= Seq::<u8>::empty());
    }
    let empty = String::new();
    proof {
        assert(empty@ =~= crate::protocols::chars_of_bytes(
            crate::response::spec_extract_tlv(db@, a, b),
        ));
    }
    empty
}


/// A Caisse-AP request payload scans back to exactly its eight fields, in
/// order: the scan stays field-aligned over the whole payload, and the
/// protocol version, POS, currency, answer mode, transaction type, amount,
/// transaction id and label come out as built.
pub proof fn lemma_caisse_payload_scans(p: Seq<u8>, pos: Seq<u8>, amount: nat)
    requires
        crate::protocols::is_caisse_ap_ip_payload(p, pos, amount),
    ensures
        scan_aligned(p, 0),
        spec_tlv_pairs(p).len() == 8,
        spec_tlv_pairs(p)[0] == (seq![0x43u8, 0x5au8], seq![0x30u8, 0x33u8, 0x32u8, 0x30u8]),
        spec_tlv_pairs(p)[1] == (seq![0x43u8, 0x41u8], crate::protocols::spec_pos2(pos)),
        spec_tlv_pairs(p)[2] == (seq![0x43u8, 0x45u8], seq![0x39u8, 0x37u8, 0x38u8]),
        spec_tlv_pairs(p)[3] == (seq![0x42u8, 0x41u8], seq![0x30u8]),
        spec_tlv_pairs(p)[4] == (seq![0x43u8, 0x44u8], seq![0x30u8]),
        spec_tlv_pairs(p)[5] == (
            seq![0x43u8, 0x42u8],
            crate::protocols::spec_amount_digits(amount, 12),
        ),
        spec_tlv_pairs(p)[6].0 == seq![0x54u8, 0x49u8],
        spec_tlv_pairs(p)[6].1.len() == 6,
        spec_tlv_pairs(p)[7] == (
            seq![0x4cu8, 0x42u8],
            seq![0x43u8, 0x41u8, 0x49u8, 0x53u8, 0x53u8, 0x45u8],
        ),
{
    let h = p.subrange(0, 53);
    assert(h.subrange(0, 14) =~= p.subrange(0, 14));
    assert(h.subrange(14, 16) =~= p.subrange(14, 16));
    assert(h.subrange(16, 41) =~= p.subrange(16, 41));
    assert(h.subrange(41, 53) =~= p.subrange(41, 53));
    let head = p.subrange(0, 14);
    let mid = p.subrange(16, 41);
    let ti = p.subrange(53, 58);
    let lb = p.subrange(64, 75);
    // field CZ at 0: length "004", value "0320"
    assert(p[2] == head[2] && p[3] == head[3] && p[4] == head[4]);
    assert(field_parses_at(p, 0) && field_len_at(p, 0) == 4);
    assert(spec_tlv_pairs_from(p, 0) == seq![(p.subrange(0, 2), p.subrange(5, 9))]
        + spec_tlv_pairs_from(p, 9));
    assert(p.subrange(0, 2) =~= seq![0x43u8, 0x5au8]);
    assert(p.subrange(5, 9) =~= seq![0x30u8, 0x33u8, 0x32u8, 0x30u8]);
    // field CA at 9: length "002", the POS bytes
    assert(p[11] == head[11] && p[12] == head[12] && p[13] == head[13]);
    assert(field_parses_at(p, 9) && field_len_at(p, 9) == 2);
    assert(spec_tlv_pairs_from(p, 9) == seq![(p.subrange(9, 11), p.subrange(14, 16))]
        + spec_tlv_pairs_from(p, 16));
    assert(p.subrange(9, 11) =~= seq![0x43u8, 0x41u8]);
    // field CE at 16: length "003", value "978"
    assert(p[18] == mid[2] && p[19] == mid[3] && p[20] == mid[4]);
    assert(field_parses_at(p, 16) && field_len_at(p, 16) == 3);
    assert(spec_tlv_pairs_from(p, 16) == seq![(p.subrange(16, 18), p.subrange(21, 24))]
        + spec_tlv_pairs_from(p, 24));
    assert(p.subrange(16, 18) =~= seq![0x43u8, 0x45u8]);
    assert(p.subrange(21, 24) =~= seq![0x39u8, 0x37u8, 0x38u8]);
    // field BA at 24: length "001", value "0"
    assert(p[26] == mid[10] && p[27] == mid[11] && p[28] == mid[12]);
    assert(field_parses_at(p, 24) && field_len_at(p, 24) == 1);
    assert(spec_tlv_pairs_from(p, 24) == seq![(p.subrange(24, 26), p.subrange(29, 30))]
        + spec_tlv_pairs_from(p, 30));
    assert(p.subrange(24, 26) =~= seq![0x42u8, 0x41u8]);
    assert(p.subrange(29, 30) =~= seq![0x30u8]);
    // field CD at 30: length "001", value "0"
    assert(p[32] == mid[16] && p[33] == mid[17] && p[34] == mid[18]);
    assert(field_parses_at(p, 30) && field_len_at(p, 30) == 1);
    assert(spec_tlv_pairs_from(p, 30) == seq![(p.subrange(30, 32), p.subrange(35, 36))]
        + spec_tlv_pairs_from(p, 36));
    assert(p.subrange(30, 32) =~= seq![0x43u8, 0x44u8]);
    assert(p.subrange(35, 36) =~= seq![0x30u8]);
    // field CB at 36: length "012", the twelve amount digits
    assert(p[38] == mid[22] && p[39] == mid[23] && p[40] == mid[24]);
    assert(field_parses_at(p, 36) && field_len_at(p, 36) == 12);
    assert(spec_tlv_pairs_from(p, 36) == seq![(p.subrange(36, 38), p.subrange(41, 53))]
        + spec_tlv_pairs_from(p, 53));
    assert(p.subrange(36, 38) =~= seq![0x43u8, 0x42u8]);
    // field TI at 53: length "006", six digits of transaction id
    assert(p[55] == ti[2] && p[56] == ti[3] && p[57] == ti[4]);
    assert(field_parses_at(p, 53) && field_len_at(p, 53) == 6);
    assert(spec_tlv_pairs_from(p, 53) == seq![(p.subrange(53, 55), p.subrange(58, 64))]
        + spec_tlv_pairs_from(p, 64));
    assert(p.subrange(53, 55) =~= seq![0x54u8, 0x49u8]);
    // field LB at 64: length "006", value "CAISSE"
    assert(p[66] == lb[2] && p[67] == lb[3] && p[68] == lb[4]);
    assert(field_parses_at(p, 64) && field_len_at(p, 64) == 6);
    assert(spec_tlv_pairs_from(p, 64) == seq![(p.subrange(64, 66), p.subrange(69, 75))]
        + spec_tlv_pairs_from(p, 75));
    assert(p.subrange(64, 66) =~= seq![0x4cu8, 0x42u8]);
    assert(p.subrange(69, 75) =~= seq![0x43u8, 0x41u8, 0x49u8, 0x53u8, 0x53u8, 0x45u8]);
    // past the end: the scan stops
    assert(spec_tlv_pairs_from(p, 75) =~= Seq::<(Seq<u8>, Seq<u8>)>::empty());
    assert(scan_aligned(p, 75));
    assert(scan_aligned(p, 64));
    assert(scan_aligned(p, 53));
    assert(scan_aligned(p, 36));
    assert(scan_aligned(p, 30));
    assert(scan_aligned(p, 24));
    assert(scan_aligned(p, 16));
    assert(scan_aligned(p, 9));
    assert(scan_aligned(p, 0));
    assert(spec_tlv_pairs(p) =~= seq![
        (p.subrange(0, 2), p.subrange(5, 9)),
        (p.subrange(9, 11), p.subrange(14, 16)),
        (p.subrange(16, 18), p.subrange(21, 24)),
        (p.subrange(24, 26), p.subrange(29, 30)),
        (p.subrange(30, 32), p.subrange(35, 36)),
        (p.subrange(36, 38), p.subrange(41, 53)),
        (p.subrange(53, 55), p.subrange(58, 64)),
        (p.subrange(64, 66), p.subrange(69, 75)),
    ]);
}

} // verus!
