//! Frame codec: `STX · payload · ETX · LRC` framing, LRC checksum,
//! body location in a received buffer, and hex rendering for logs.
//!
//! Received frames are located by their STX/ETX marks only; the trailing LRC
//! byte is tolerated but not checked, since several vendor terminals
//! mis-compute it.

use vstd::prelude::*;
use vstd::string::StringSliceAdditionalSpecFns;

verus! {

/// Start-of-text framing byte.
pub const STX: u8 = 0x02;
/// End-of-text framing byte.
pub const ETX: u8 = 0x03;
/// Positive acknowledgement.
pub const ACK: u8 = 0x06;
/// Negative acknowledgement.
pub const NAK: u8 = 0x15;
/// Link-layer enquiry.
pub const ENQ: u8 = 0x05;
/// End of transmission.
pub const EOT: u8 = 0x04;
/// Cancel request byte.
pub const CAN: u8 = 0x18;

/// XOR of all bytes of `data`, seed 0.
pub open spec fn lrc_of(data: Seq<u8>) -> u8
    decreases data.len(),
{
    if data.len() == 0 {
        0u8
    } else {
        lrc_of(data.drop_last()) ^ data.last()
    }
}

/// A full frame: STX, then the payload, then ETX, then the LRC computed
/// over `payload ‖ ETX`.
pub open spec fn frame_of(payload: Seq<u8>) -> Seq<u8> {
    seq![STX] + payload + seq![ETX, lrc_of(payload + seq![ETX])]
}

/// Position of the first occurrence of `b` in `s`, if any.
pub open spec fn find_byte(s: Seq<u8>, b: u8) -> Option<int>
    decreases s.len(),
{
    if s.len() == 0 {
        None
    } else if s[0] == b {
        Some(0)
    } else {
        match find_byte(s.drop_first(), b) {
            Some(i) => Some(i + 1),
            None => None,
        }
    }
}

/// What `find_byte` returns: the first index holding `b`, or nothing when
/// `b` does not occur.
pub proof fn lemma_find_byte(s: Seq<u8>, b: u8)
    ensures
        match find_byte(s, b) {
            Some(i) => 0 <= i < s.len() && s[i] == b && forall|j: int| 0 <= j < i ==> s[j] != b,
            None => forall|j: int| 0 <= j < s.len() ==> s[j] != b,
        },
    decreases s.len(),
{
    if s.len() > 0 && s[0] != b {
        let t = s.drop_first();
        lemma_find_byte(t, b);
        assert(forall|j: int| 1 <= j < s.len() ==> s[j] == t[j - 1]);
    }
}

/// The body of the first well-formed frame in `buf`: the bytes strictly
/// between the first STX and the first ETX, provided the ETX comes later.
pub open spec fn spec_locate_body(buf: Seq<u8>) -> Option<Seq<u8>> {
    match (find_byte(buf, STX), find_byte(buf, ETX)) {
        (Some(s), Some(e)) => if e > s {
            Some(buf.subrange(s + 1, e))
        } else {
            None
        },
        _ => None,
    }
}

/// Calculate the LRC checksum: XOR of all bytes, seed 0.
pub fn calculate_lrc(data: &[u8]) -> (r: u8)
    ensures
        r == lrc_of(data@),
{
    let mut acc: u8 = 0;
    let mut i: usize = 0;
    while i < data.len()
        invariant
            i <= data@.len(),
            acc == lrc_of(data@.take(i as int)),
        decreases data@.len() - i,
    {
        proof {
            assert(data@.take(i + 1).drop_last() =~= data@.take(i as int));
        }
        acc = acc ^ data[i];
        i = i + 1;
    }
    proof {
        assert(data@.take(data@.len() as int) =~= data@);
    }
    acc
}

/// Wrap a payload in STX ... ETX plus the LRC over `payload ‖ ETX`.
pub fn frame_bytes(payload: &[u8]) -> (r: Vec<u8>)
    ensures
        r@ == frame_of(payload@),
{
    let mut lrc_input: Vec<u8> = Vec::new();
    lrc_input.extend_from_slice(payload);
    lrc_input.push(ETX);
    let lrc = calculate_lrc(lrc_input.as_slice());

    let mut msg: Vec<u8> = Vec::new();
    msg.push(STX);
    msg.extend_from_slice(payload);
    msg.push(ETX);
    msg.push(lrc);
    proof {
        assert(lrc_input@ =~= payload@ + seq![ETX]);
        assert(msg@ =~= frame_of(payload@));
    }
    msg
}

/// Frame an ASCII message: STX, the message bytes, ETX, and the LRC.
pub fn frame_message(data: &str) -> (r: Vec<u8>)
    ensures
        r@ == frame_of(data.spec_bytes()),
{
    let bytes = data.as_bytes();
    frame_bytes(bytes)
}

/// Find the first STX and the first ETX; when the ETX comes after the STX,
/// return the two positions. The body is `buf[start + 1 .. end]`.
pub fn locate_frame(buf: &[u8]) -> (r: Option<(usize, usize)>)
    ensures
        match r {
            Some((s, e)) => {
                &&& find_byte(buf@, STX) == Some(s as int)
                &&& find_byte(buf@, ETX) == Some(e as int)
                &&& s < e < buf@.len()
                &&& spec_locate_body(buf@) == Some(buf@.subrange(s + 1, e as int))
            },
            None => spec_locate_body(buf@) is None,
        },
{
    proof {
        lemma_find_byte(buf@, STX);
        lemma_find_byte(buf@, ETX);
    }
    let stx = find_first(buf, STX);
    let etx = find_first(buf, ETX);
    match (stx, etx) {
        (Some(s), Some(e)) => if e > s {
            Some((s, e))
        } else {
            None
        },
        _ => None,
    }
}

/// First index of `b` in `buf`, scanning left to right.
pub fn find_first(buf: &[u8], b: u8) -> (r: Option<usize>)
    ensures
        match r {
            Some(i) => find_byte(buf@, b) == Some(i as int),
            None => find_byte(buf@, b) is None,
        },
{
    proof {
        lemma_find_byte(buf@, b);
    }
    let mut i: usize = 0;
    while i < buf.len()
        invariant
            i <= buf@.len(),
            forall|j: int| 0 <= j < i ==> buf@[j] != b,
        decreases buf@.len() - i,
    {
        if buf[i] == b {
            proof {
                lemma_find_byte_is_first(buf@, b, i as int);
            }
            return Some(i);
        }
        i = i + 1;
    }
    None
}

/// When `s[i]` is the first occurrence of `b`, `find_byte` returns `i`.
proof fn lemma_find_byte_is_first(s: Seq<u8>, b: u8, i: int)
    requires
        0 <= i < s.len(),
        s[i] == b,
        forall|j: int| 0 <= j < i ==> s[j] != b,
    ensures
        find_byte(s, b) == Some(i),
    decreases s.len(),
{
    if i > 0 {
        lemma_find_byte_is_first(s.drop_first(), b, i - 1);
    }
}

/// XOR-ing any byte into an LRC twice gives the LRC back.
pub proof fn lemma_lrc_xor_involution(data: Seq<u8>, b: u8)
    ensures
        lrc_of(data) ^ b ^ b == lrc_of(data),
{
    let x = lrc_of(data);
    assert(x ^ b ^ b == x) by (bit_vector);
}

/// The LRC over a concatenation is the XOR of the two LRCs.
pub proof fn lemma_lrc_append(a: Seq<u8>, b: Seq<u8>)
    ensures
        lrc_of(a + b) == lrc_of(a) ^ lrc_of(b),
    decreases b.len(),
{
    let x = lrc_of(a);
    if b.len() == 0 {
        assert(a + b =~= a);
        assert(x ^ 0u8 == x) by (bit_vector);
    } else {
        lemma_lrc_append(a, b.drop_last());
        assert((a + b).drop_last() =~= a + b.drop_last());
        let y = lrc_of(b.drop_last());
        let z = b.last();
        assert((x ^ y) ^ z == x ^ (y ^ z)) by (bit_vector);
    }
}

/// Inserting a zero byte anywhere in the input leaves the LRC unchanged.
pub proof fn lemma_lrc_zero_insertion(data: Seq<u8>, i: int)
    requires
        0 <= i <= data.len(),
    ensures
        lrc_of(data.insert(i, 0u8)) == lrc_of(data),
{
    let pre = data.subrange(0, i);
    let post = data.subrange(i, data.len() as int);
    assert(data.insert(i, 0u8) =~= pre + (seq![0u8] + post));
    assert(data =~= pre + post);
    lemma_lrc_append(pre, seq![0u8] + post);
    lemma_lrc_append(seq![0u8], post);
    lemma_lrc_append(pre, post);
    assert(0u8 ^ 0u8 == 0u8) by (bit_vector);
    let zs = seq![0u8];
    assert(zs.len() == 1);
    assert(zs.last() == 0u8);
    assert(zs.drop_last() =~= Seq::<u8>::empty());
    assert(lrc_of(zs.drop_last()) == 0u8);
    assert(lrc_of(zs) == lrc_of(zs.drop_last()) ^ zs.last());
    assert(lrc_of(zs) == 0u8);
    let x = lrc_of(pre);
    let y = lrc_of(post);
    assert(lrc_of(data.insert(i, 0u8)) == x ^ (0u8 ^ y));
    assert(lrc_of(data) == x ^ y);
    assert(x ^ (0u8 ^ y) == x ^ y) by (bit_vector);
}

/// Framing then locating gives the payload back, for any payload free of
/// the ETX byte. A payload holding ETX would end the located body early,
/// so such payloads are left out.
pub proof fn lemma_frame_round_trip(payload: Seq<u8>)
    requires
        !payload.contains(ETX),
    ensures
        spec_locate_body(frame_of(payload)) == Some(payload),
{
    let f = frame_of(payload);
    assert(f[0] == STX);
    lemma_find_byte_is_first(f, STX, 0);
    let e = payload.len() + 1;
    assert(f[e as int] == ETX);
    assert forall|j: int| 0 <= j < e implies f[j] != ETX by {
        if 1 <= j < e {
            assert(f[j] == payload[j - 1]);
            assert(payload.contains(payload[j - 1]));
        }
    }
    lemma_find_byte_is_first(f, ETX, e as int);
    assert(f.subrange(1, e as int) =~= payload);
}

/// The hex digit byte for a value below 16, upper case.
pub open spec fn hex_digit_byte(d: int) -> u8 {
    if d < 10 {
        (0x30 + d) as u8
    } else {
        (0x37 + d) as u8
    }
}

/// The hex rendering from byte `i` on: two upper-case digits per byte,
/// with one space between bytes.
pub open spec fn hex_from(s: Seq<u8>, i: int) -> Seq<u8>
    decreases s.len() - i,
    when 0 <= i <= s.len()
{
    if i >= s.len() {
        seq![]
    } else if i == s.len() - 1 {
        seq![hex_digit_byte(s[i] as int / 16), hex_digit_byte(s[i] as int % 16)]
    } else {
        seq![hex_digit_byte(s[i] as int / 16), hex_digit_byte(s[i] as int % 16), 0x20u8] + hex_from(s, i + 1)
    }
}

/// The full hex rendering of a buffer, as ASCII bytes.
pub open spec fn spec_hex_bytes(s: Seq<u8>) -> Seq<u8> {
    hex_from(s, 0)
}

/// One hex digit byte, upper case.
fn hex_digit(d: u8) -> (r: u8)
    requires
        d < 16,
    ensures
        r == hex_digit_byte(d as int),
{
    if d < 10 {
        0x30 + d
    } else {
        0x37 + d
    }
}

/// Convert bytes to an upper-case, space-separated hex string for logs.
pub fn bytes_to_hex(data: &[u8]) -> (r: String)
    ensures
        r@ == crate::protocols::chars_of_bytes(spec_hex_bytes(data@)),
        r.is_ascii(),
{
    let ghost s = data@;
    let mut out: Vec<u8> = Vec::new();
    let mut i: usize = 0;
    proof {
        assert(spec_hex_bytes(s) =~= out@ + hex_from(s, 0));
    }
    while i < data.len()
        invariant
            i <= data@.len(),
            data@ == s,
            spec_hex_bytes(s) == out@ + hex_from(s, i as int),
            forall|j: int| 0 <= j < out@.len() ==> #[trigger] out@[j] < 0x80,
        decreases data@.len() - i,
    {
        let b = data[i];
        out.push(hex_digit(b / 16));
        out.push(hex_digit(b % 16));
        if i + 1 < data.len() {
            out.push(0x20);
            proof {
                assert(spec_hex_bytes(s) =~= out@ + hex_from(s, i + 1));
            }
        } else {
            proof {
                assert(hex_from(s, i + 1) =~= Seq::<u8>::empty());
                assert(spec_hex_bytes(s) =~= out@ + hex_from(s, i + 1));
            }
        }
        i = i + 1;
    }
    proof {
        assert(hex_from(s, i as int) =~= Seq::<u8>::empty());
        assert(out@ =~= spec_hex_bytes(s));
    }
    let r = crate::protocols::utf8_lossy(out.as_slice());
    proof {
        assert(r@ =~= Seq::new(out@.len(), |j: int| out@[j] as char));
        assert(r@ =~= crate::protocols::chars_of_bytes(spec_hex_bytes(s)));
        assert(vstd::utf8::is_ascii_chars(r@)) by {
            assert(forall|j: int| 0 <= j < r@.len() ==> '\0' <= #[trigger] r@[j] <= '\u{7f}') by {
                assert(forall|j: int| 0 <= j < r@.len() ==> #[trigger] r@[j] == out@[j] as char);
            }
        }
    }
    r
}

} // verus!
