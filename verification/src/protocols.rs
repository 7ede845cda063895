//! Payload builders for the Concert terminal protocols, and the protocol
//! selector handed over by the host.

use vstd::prelude::*;
use vstd::string::StringSliceAdditionalSpecFns;
use vstd::string::StringExecFns;
use crate::codec::{frame_of, frame_bytes};

verus! {

/// The characters of a run of ASCII bytes, one per byte.
pub open spec fn chars_of_bytes(b: Seq<u8>) -> Seq<char> {
    Seq::new(b.len(), |i: int| b[i] as char)
}

/// Every byte is below 0x80.
pub open spec fn all_ascii_bytes(b: Seq<u8>) -> bool {
    forall|i: int| 0 <= i < b.len() ==> #[trigger] b[i] < 0x80
}

/// Every byte is an ASCII decimal digit.
pub open spec fn ascii_digits(s: Seq<u8>) -> bool {
    forall|i: int| 0 <= i < s.len() ==> 0x30 <= #[trigger] s[i] <= 0x39
}

/// The two POS bytes put on the wire for a given POS identifier:
/// its first two bytes when it has two or more, left-padded with `'0'`
/// when it has one, and `"01"` when it is empty.
pub open spec fn spec_pos2(pos: Seq<u8>) -> Seq<u8> {
    if pos.len() >= 2 {
        pos.subrange(0, 2)
    } else if pos.len() == 1 {
        seq![0x30u8, pos[0]]
    } else {
        seq![0x30u8, 0x31u8]
    }
}

/// A POS identifier made of ASCII digits normalizes to exactly two ASCII
/// digit bytes on the wire, whatever its length.
pub proof fn lemma_pos2_digits(pos: Seq<u8>)
    requires
        ascii_digits(pos),
    ensures
        spec_pos2(pos).len() == 2,
        ascii_digits(spec_pos2(pos)),
{
    if pos.len() >= 2 {
        assert(forall|i: int| 0 <= i < 2 ==> #[trigger] spec_pos2(pos)[i] == pos[i]);
    }
}

/// Concert V2 request payload: type `"0"`, two POS bytes, eight amount
/// digits, then the EUR currency code `"978"`; 14 bytes in all.
pub open spec fn is_concert_v2_payload(p: Seq<u8>, pos: Seq<u8>, amount: nat) -> bool {
    &&& p.len() == 14
    &&& p[0] == 0x30
    &&& p.subrange(1, 3) == spec_pos2(pos)
    &&& p.subrange(3, 11) == spec_amount_digits(amount, 8)
    &&& p.subrange(11, 14) == seq![0x39u8, 0x37u8, 0x38u8]
}

/// Concert V3 binary request payload: type `"00"`, two POS bytes, twelve
/// amount digits, then `"978"`; 19 bytes in all.
pub open spec fn is_concert_v3_payload(p: Seq<u8>, pos: Seq<u8>, amount: nat) -> bool {
    &&& p.len() == 19
    &&& p[0] == 0x30
    &&& p[1] == 0x30
    &&& p.subrange(2, 4) == spec_pos2(pos)
    &&& p.subrange(4, 16) == spec_amount_digits(amount, 12)
    &&& p.subrange(16, 19) == seq![0x39u8, 0x37u8, 0x38u8]
}

/// The two POS bytes for the wire, from the POS identifier's bytes.
fn pos2_bytes(pos: &[u8]) -> (r: Vec<u8>)
    ensures
        r@ == spec_pos2(pos@),
        r@.len() == 2,
{
    let mut out: Vec<u8> = Vec::new();
    if pos.len() >= 2 {
        out.push(pos[0]);
        out.push(pos[1]);
        proof {
            assert(out@ =~= spec_pos2(pos@));
        }
    } else if pos.len() == 1 {
        out.push(0x30);
        out.push(pos[0]);
        proof {
            assert(out@ =~= spec_pos2(pos@));
        }
    } else {
        out.push(0x30);
        out.push(0x31);
        proof {
            assert(out@ =~= spec_pos2(pos@));
        }
    }
    out
}

/// The low `width` decimal digits of `amount` as ASCII bytes, most
/// significant first: the zero-padded decimal of the amount whenever it
/// fits the field.
pub open spec fn spec_amount_digits(amount: nat, width: nat) -> Seq<u8>
    decreases width,
{
    if width == 0 {
        seq![]
    } else {
        spec_amount_digits(amount / 10, (width - 1) as nat).push((0x30 + amount % 10) as u8)
    }
}

/// An amount field has as many bytes as its width, all of them digits.
pub proof fn lemma_amount_digits_props(amount: nat, width: nat)
    ensures
        spec_amount_digits(amount, width).len() == width,
        ascii_digits(spec_amount_digits(amount, width)),
    decreases width,
{
    if width > 0 {
        lemma_amount_digits_props(amount / 10, (width - 1) as nat);
        let d = spec_amount_digits(amount, width);
        assert(forall|i: int|
            0 <= i < d.len() ==> 0x30 <= #[trigger] d[i] <= 0x39) by {
            assert(forall|i: int|
                0 <= i < d.len() - 1 ==> d[i] == spec_amount_digits(amount / 10, (width - 1) as nat)[i]);
        }
    }
}

/// The amount in cents as exactly `width` ASCII decimal digit bytes,
/// zero-padded on the left; amounts too wide for `width` keep only the
/// low digits.
pub fn amount_digit_bytes(amount: u32, width: usize) -> (r: Vec<u8>)
    ensures
        r@ == spec_amount_digits(amount as nat, width as nat),
        r@.len() == width as int,
        ascii_digits(r@),
{
    proof {
        lemma_amount_digits_props(amount as nat, width as nat);
    }
    let mut vals: Vec<u8> = Vec::new();
    let mut m = amount;
    let mut i: usize = 0;
    proof {
        assert(spec_amount_digits(amount as nat, width as nat) =~= spec_amount_digits(
            amount as nat,
            width as nat,
        ) + Seq::new(0nat, |j: int| 0u8));
    }
    while i < width
        invariant
            i <= width,
            vals@.len() == i as int,
            forall|j: int| 0 <= j < vals@.len() ==> #[trigger] vals@[j] < 10,
            spec_amount_digits(amount as nat, width as nat) == spec_amount_digits(
                m as nat,
                (width - i) as nat,
            ) + Seq::new(i as nat, |j: int| (0x30 + vals@[i - 1 - j]) as u8),
        decreases width - i,
    {
        proof {
            let w = (width - i) as nat;
            assert(spec_amount_digits(m as nat, w) == spec_amount_digits(
                (m as nat) / 10,
                (w - 1) as nat,
            ).push((0x30 + (m as nat) % 10) as u8));
        }
        let ghost old_vals = vals@;
        vals.push((m % 10) as u8);
        proof {
            let tail_old = Seq::new(i as nat, |j: int| (0x30 + old_vals[i - 1 - j]) as u8);
            let tail_new = Seq::new((i + 1) as nat, |j: int| (0x30 + vals@[i + 1 - 1 - j]) as u8);
            assert(tail_new =~= seq![(0x30 + (m as nat) % 10) as u8] + tail_old);
            assert(spec_amount_digits((m as nat) / 10, (width - i - 1) as nat).push(
                (0x30 + (m as nat) % 10) as u8,
            ) + tail_old =~= spec_amount_digits((m as nat) / 10, (width - i - 1) as nat)
                + tail_new);
        }
        m = m / 10;
        i = i + 1;
    }
    let ghost final_tail = Seq::new(width as nat, |j: int| (0x30 + vals@[width - 1 - j]) as u8);
    proof {
        assert(spec_amount_digits(m as nat, 0) =~= Seq::<u8>::empty());
        assert(spec_amount_digits(amount as nat, width as nat) =~= final_tail);
    }
    let mut out: Vec<u8> = Vec::new();
    let mut k = vals.len();
    while k > 0
        invariant
            k <= vals@.len(),
            vals@.len() == width as int,
            out@.len() == vals@.len() - k,
            forall|j: int| 0 <= j < vals@.len() ==> #[trigger] vals@[j] < 10,
            forall|j: int|
                0 <= j < out@.len() ==> #[trigger] out@[j] == (0x30 + vals@[width - 1 - j]) as u8,
        decreases k,
    {
        k = k - 1;
        out.push(0x30 + vals[k]);
    }
    proof {
        assert(out@ =~= final_tail);
        assert(out@ =~= spec_amount_digits(amount as nat, width as nat));
    }
    out
}

/// Build the Concert V2 request frame: the 14-byte payload described by
/// `is_concert_v2_payload`, framed with STX, ETX and the LRC.
pub fn build_concert_v2(amount_cents: u32, pos_number: &str) -> (r: Vec<u8>)
    ensures
        r@.len() == 17,
        r@ == frame_of(r@.subrange(1, 15)),
        is_concert_v2_payload(r@.subrange(1, 15), pos_number.spec_bytes(), amount_cents as nat),
{
    let pos = pos_number.as_bytes();
    let p2 = pos2_bytes(pos);
    let amt = amount_digit_bytes(amount_cents, 8);
    let mut payload: Vec<u8> = Vec::new();
    payload.push(0x30);
    payload.extend_from_slice(p2.as_slice());
    payload.extend_from_slice(amt.as_slice());
    payload.push(0x39);
    payload.push(0x37);
    payload.push(0x38);
    let r = frame_bytes(payload.as_slice());
    proof {
        assert(r@.subrange(1, 15) =~= payload@);
        assert(payload@.subrange(1, 3) =~= p2@);
        assert(payload@.subrange(3, 11) =~= amt@);
        assert(payload@.subrange(11, 14) =~= seq![0x39u8, 0x37u8, 0x38u8]);
    }
    r
}

/// Build the Concert V3 binary request frame: the 19-byte payload described
/// by `is_concert_v3_payload`, framed with STX, ETX and the LRC.
pub fn build_concert_v3_binary(amount_cents: u32, pos_number: &str) -> (r: Vec<u8>)
    ensures
        r@.len() == 22,
        r@ == frame_of(r@.subrange(1, 20)),
        is_concert_v3_payload(r@.subrange(1, 20), pos_number.spec_bytes(), amount_cents as nat),
{
    let pos = pos_number.as_bytes();
    let p2 = pos2_bytes(pos);
    let amt = amount_digit_bytes(amount_cents, 12);
    let mut payload: Vec<u8> = Vec::new();
    payload.push(0x30);
    payload.push(0x30);
    payload.extend_from_slice(p2.as_slice());
    payload.extend_from_slice(amt.as_slice());
    payload.push(0x39);
    payload.push(0x37);
    payload.push(0x38);
    let r = frame_bytes(payload.as_slice());
    proof {
        assert(r@.subrange(1, 20) =~= payload@);
        assert(payload@.subrange(2, 4) =~= p2@);
        assert(payload@.subrange(4, 16) =~= amt@);
        assert(payload@.subrange(16, 19) =~= seq![0x39u8, 0x37u8, 0x38u8]);
    }
    r
}

/// Format a POS identifier to exactly two characters: the first two when
/// there are two or more, left-padded with `'0'` for one, `"01"` for none.
pub fn format_pos_number(pos_number: &str) -> (r: String)
    requires
        pos_number.is_ascii(),
    ensures
        r@.len() == 2,
        pos_number@.len() >= 2 ==> r@ == pos_number@.subrange(0, 2),
        pos_number@.len() == 1 ==> r@ == seq!['0'] + pos_number@,
        pos_number@.len() == 0 ==> r@ == seq!['0', '1'],
{
    proof {
        broadcast use vstd::string::is_ascii_spec_bytes;
        assert(pos_number.spec_bytes() =~= Seq::new(
            pos_number@.len(),
            |i| pos_number@.index(i) as u8,
        ));
    }
    let bytes = pos_number.as_bytes();
    let p2 = pos2_bytes(bytes);
    let r = utf8_lossy(p2.as_slice());
    proof {
        let sb = pos_number.spec_bytes();
        let pv = pos_number@;
        assert(forall|i: int| 0 <= i < pv.len() ==> #[trigger] pv[i] <= '\u{7f}');
        assert(forall|i: int| 0 <= i < sb.len() ==> #[trigger] sb[i] < 0x80);
        assert(forall|i: int| 0 <= i < p2@.len() ==> #[trigger] p2@[i] < 0x80);
        assert(r@ =~= Seq::new(p2@.len(), |i: int| p2@[i] as char));
        if pv.len() >= 2 {
            assert(forall|i: int| 0 <= i < 2 ==> ((#[trigger] pv[i] as u8) as char) == pv[i]);
            assert(r@ =~= pv.subrange(0, 2));
        } else if pv.len() == 1 {
            assert(((pv[0] as u8) as char) == pv[0]);
            assert(r@ =~= seq!['0'] + pv);
        } else {
            assert(r@ =~= seq!['0', '1']);
        }
    }
    r
}

/// Decode bytes for display as text.
/// Relies on `String::from_utf8_lossy`: valid UTF-8 decodes to itself, so
/// ASCII bytes decode to themselves, one character per byte. A byte outside
/// ASCII is part of a multi-byte sequence that decodes to a character at
/// U+0080 or above, or is invalid and replaced with U+FFFD, so the result
/// then holds at least one character outside ASCII.
#[verifier::external_body]
pub(crate) fn utf8_lossy(bytes: &[u8]) -> (r: String)
    ensures
        (forall|i: int| 0 <= i < bytes@.len() ==> #[trigger] bytes@[i] < 0x80) ==> r@ =~= Seq::new(
            bytes@.len(),
            |i: int| bytes@[i] as char,
        ),
        (exists|i: int| 0 <= i < bytes@.len() && #[trigger] bytes@[i] >= 0x80) ==> (exists|j: int|
            0 <= j < r@.len() && #[trigger] r@[j] > '\u{7f}'),
{
    String::from_utf8_lossy(bytes).into_owned()
}

/// Which wire protocol the terminal speaks.
#[derive(Debug, Clone, Copy, PartialEq)]
pub enum TpeProtocol {
    /// Binary fixed-field frame, 14 payload bytes.
    ConcertV2,
    /// Tag-length-value frame, as Caisse-AP.
    ConcertV3Tlv,
    /// Binary fixed-field frame, 19 payload bytes.
    ConcertV3Binary,
    /// Tag-length-value over TCP, with transaction id and label.
    CaisseApIp,
    /// Same frame as Concert V3 TLV.
    SmilePay,
    /// HTTP local API.
    YavinLocal,
    /// HTTP cloud API.
    YavinCloud,
}

impl TpeProtocol {
    /// Map the protocol byte of the public API onto a selector; unknown
    /// bytes fall back to Concert V3 TLV.
    pub fn from_version(version: u8) -> (r: Self)
        ensures
            r == if version == 2 {
                TpeProtocol::ConcertV2
            } else if version == 4 {
                TpeProtocol::ConcertV3Binary
            } else if version == 5 {
                TpeProtocol::SmilePay
            } else if version == 6 {
                TpeProtocol::YavinLocal
            } else if version == 7 {
                TpeProtocol::YavinCloud
            } else {
                TpeProtocol::ConcertV3Tlv
            },
    {
        match version {
            2 => TpeProtocol::ConcertV2,
            3 => TpeProtocol::ConcertV3Tlv,
            4 => TpeProtocol::ConcertV3Binary,
            5 => TpeProtocol::SmilePay,
            6 => TpeProtocol::YavinLocal,
            7 => TpeProtocol::YavinCloud,
            _ => TpeProtocol::ConcertV3Tlv,
        }
    }

    /// Human-readable name of the protocol.
    pub fn name(&self) -> (r: &'static str)
        ensures
            r@ == match *self {
                TpeProtocol::ConcertV2 => "Concert V2 (Binaire)"@,
                TpeProtocol::ConcertV3Tlv => "Concert V3 (TLV/Caisse-AP)"@,
                TpeProtocol::ConcertV3Binary => "Concert V3 (Binaire 19 chars)"@,
                TpeProtocol::CaisseApIp => "Caisse-AP IP (Nepting)"@,
                TpeProtocol::SmilePay => "SmilePay"@,
                TpeProtocol::YavinLocal => "Yavin (Local API)"@,
                TpeProtocol::YavinCloud => "Yavin (Cloud API)"@,
            },
    {
        match self {
            TpeProtocol::ConcertV2 => "Concert V2 (Binaire)",
            TpeProtocol::ConcertV3Tlv => "Concert V3 (TLV/Caisse-AP)",
            TpeProtocol::ConcertV3Binary => "Concert V3 (Binaire 19 chars)",
            TpeProtocol::CaisseApIp => "Caisse-AP IP (Nepting)",
            TpeProtocol::SmilePay => "SmilePay",
            TpeProtocol::YavinLocal => "Yavin (Local API)",
            TpeProtocol::YavinCloud => "Yavin (Cloud API)",
        }
    }

    /// Whether the protocol runs over HTTP rather than a serial line or
    /// a raw TCP socket.
    pub fn is_http(&self) -> (r: bool)
        ensures
            r == (*self == TpeProtocol::YavinLocal || *self == TpeProtocol::YavinCloud),
    {
        match self {
            TpeProtocol::YavinLocal | TpeProtocol::YavinCloud => true,
            _ => false,
        }
    }
}

/// Decoded Concert response: whether it was accepted, the two-character
/// result code, and the operator message.
pub struct ConcertResponse {
    pub success: bool,
    pub code: String,
    pub message: String,
}


/// Concert V3 TLV request payload: protocol version `CZ=0320`, POS `CA`,
/// currency `CE=978`, answer-at-end `BA=0`, debit `CD=0`, and the amount
/// `CB` as twelve digits; 53 bytes in all.
pub open spec fn is_concert_v3_tlv_payload(p: Seq<u8>, pos: Seq<u8>, amount: nat) -> bool {
    &&& p.len() == 53
    &&& p.subrange(0, 14) == seq![0x43u8, 0x5au8, 0x30u8, 0x30u8, 0x34u8, 0x30u8, 0x33u8, 0x32u8, 0x30u8, 0x43u8, 0x41u8, 0x30u8, 0x30u8, 0x32u8]
    &&& p.subrange(14, 16) == spec_pos2(pos)
    &&& p.subrange(16, 41) == seq![0x43u8, 0x45u8, 0x30u8, 0x30u8, 0x33u8, 0x39u8, 0x37u8, 0x38u8, 0x42u8, 0x41u8, 0x30u8, 0x30u8, 0x31u8, 0x30u8, 0x43u8, 0x44u8, 0x30u8, 0x30u8, 0x31u8, 0x30u8, 0x43u8, 0x42u8, 0x30u8, 0x31u8, 0x32u8]
    &&& p.subrange(41, 53) == spec_amount_digits(amount, 12)
}

/// Caisse-AP over IP request payload: the Concert V3 TLV fields, then a
/// six-digit transaction id `TI` and the ticket label `LB=CAISSE`;
/// 75 bytes in all.
pub open spec fn is_caisse_ap_ip_payload(p: Seq<u8>, pos: Seq<u8>, amount: nat) -> bool {
    &&& p.len() == 75
    &&& is_concert_v3_tlv_payload(p.subrange(0, 53), pos, amount)
    &&& p.subrange(53, 58) == seq![0x54u8, 0x49u8, 0x30u8, 0x30u8, 0x36u8]
    &&& ascii_digits(p.subrange(58, 64))
    &&& p.subrange(64, 75) == seq![0x4cu8, 0x42u8, 0x30u8, 0x30u8, 0x36u8, 0x43u8, 0x41u8, 0x49u8, 0x53u8, 0x53u8, 0x45u8]
}

/// Build the Concert V3 TLV request frame (also used by SmilePay):
/// the 53-byte payload described by `is_concert_v3_tlv_payload`, framed.
#[verifier::rlimit(60)]
pub fn build_concert_v3_tlv(amount_cents: u32, pos_number: &str) -> (r: Vec<u8>)
    ensures
        r@.len() == 56,
        r@ == frame_of(r@.subrange(1, 54)),
        is_concert_v3_tlv_payload(r@.subrange(1, 54), pos_number.spec_bytes(), amount_cents as nat),
{
    let pos = pos_number.as_bytes();
    let p2 = pos2_bytes(pos);
    let amt = amount_digit_bytes(amount_cents, 12);
    let mut payload: Vec<u8> = Vec::new();
    payload.push(0x43);
    payload.push(0x5a);
    payload.push(0x30);
    payload.push(0x30);
    payload.push(0x34);
    payload.push(0x30);
    payload.push(0x33);
    payload.push(0x32);
    payload.push(0x30);
    payload.push(0x43);
    payload.push(0x41);
    payload.push(0x30);
    payload.push(0x30);
    payload.push(0x32);
    payload.extend_from_slice(p2.as_slice());
    payload.push(0x43);
    payload.push(0x45);
    payload.push(0x30);
    payload.push(0x30);
    payload.push(0x33);
    payload.push(0x39);
    payload.push(0x37);
    payload.push(0x38);
    payload.push(0x42);
    payload.push(0x41);
    payload.push(0x30);
    payload.push(0x30);
    payload.push(0x31);
    payload.push(0x30);
    payload.push(0x43);
    payload.push(0x44);
    payload.push(0x30);
    payload.push(0x30);
    payload.push(0x31);
    payload.push(0x30);
    payload.push(0x43);
    payload.push(0x42);
    payload.push(0x30);
    payload.push(0x31);
    payload.push(0x32);
    payload.extend_from_slice(amt.as_slice());
    let r = frame_bytes(payload.as_slice());
    proof {
        assert(r@.subrange(1, 54) =~= payload@);
        assert(payload@.subrange(0, 14) =~= seq![0x43u8, 0x5au8, 0x30u8, 0x30u8, 0x34u8, 0x30u8, 0x33u8, 0x32u8, 0x30u8, 0x43u8, 0x41u8, 0x30u8, 0x30u8, 0x32u8]);
        assert(payload@.subrange(14, 16) =~= p2@);
        assert(payload@.subrange(16, 41) =~= seq![0x43u8, 0x45u8, 0x30u8, 0x30u8, 0x33u8, 0x39u8, 0x37u8, 0x38u8, 0x42u8, 0x41u8, 0x30u8, 0x30u8, 0x31u8, 0x30u8, 0x43u8, 0x44u8, 0x30u8, 0x30u8, 0x31u8, 0x30u8, 0x43u8, 0x42u8, 0x30u8, 0x31u8, 0x32u8]);
        assert(payload@.subrange(41, 53) =~= amt@);
    }
    r
}

/// Build the SmilePay request frame: SmilePay terminals speak the
/// Concert V3 TLV protocol.
pub fn build_smilepay(amount_cents: u32, pos_number: &str) -> (r: Vec<u8>)
    ensures
        r@.len() == 56,
        r@ == frame_of(r@.subrange(1, 54)),
        is_concert_v3_tlv_payload(r@.subrange(1, 54), pos_number.spec_bytes(), amount_cents as nat),
{
    build_concert_v3_tlv(amount_cents, pos_number)
}

/// Build the Caisse-AP over IP request frame: the 75-byte payload described
/// by `is_caisse_ap_ip_payload`, framed. The transaction id is drawn from
/// the clock, so only its six-digit shape is promised.
#[verifier::rlimit(100)]
pub fn build_caisse_ap_ip(amount_cents: u32, pos_number: &str) -> (r: Vec<u8>)
    ensures
        r@.len() == 78,
        r@ == frame_of(r@.subrange(1, 76)),
        is_caisse_ap_ip_payload(r@.subrange(1, 76), pos_number.spec_bytes(), amount_cents as nat),
{
    let pos = pos_number.as_bytes();
    let p2 = pos2_bytes(pos);
    let amt = amount_digit_bytes(amount_cents, 12);
    let tx = unix_seconds();
    let tx_id = amount_digit_bytes((tx % 1000000) as u32, 6);
    let mut payload: Vec<u8> = Vec::new();
    payload.push(0x43);
    payload.push(0x5a);
    payload.push(0x30);
    payload.push(0x30);
    payload.push(0x34);
    payload.push(0x30);
    payload.push(0x33);
    payload.push(0x32);
    payload.push(0x30);
    payload.push(0x43);
    payload.push(0x41);
    payload.push(0x30);
    payload.push(0x30);
    payload.push(0x32);
    payload.extend_from_slice(p2.as_slice());
    payload.push(0x43);
    payload.push(0x45);
    payload.push(0x30);
    payload.push(0x30);
    payload.push(0x33);
    payload.push(0x39);
    payload.push(0x37);
    payload.push(0x38);
    payload.push(0x42);
    payload.push(0x41);
    payload.push(0x30);
    payload.push(0x30);
    payload.push(0x31);
    payload.push(0x30);
    payload.push(0x43);
    payload.push(0x44);
    payload.push(0x30);
    payload.push(0x30);
    payload.push(0x31);
    payload.push(0x30);
    payload.push(0x43);
    payload.push(0x42);
    payload.push(0x30);
    payload.push(0x31);
    payload.push(0x32);
    payload.extend_from_slice(amt.as_slice());
    payload.push(0x54);
    payload.push(0x49);
    payload.push(0x30);
    payload.push(0x30);
    payload.push(0x36);
    payload.extend_from_slice(tx_id.as_slice());
    payload.push(0x4c);
    payload.push(0x42);
    payload.push(0x30);
    payload.push(0x30);
    payload.push(0x36);
    payload.push(0x43);
    payload.push(0x41);
    payload.push(0x49);
    payload.push(0x53);
    payload.push(0x53);
    payload.push(0x45);
    let r = frame_bytes(payload.as_slice());
    proof {
        assert(r@.subrange(1, 76) =~= payload@);
        assert(payload@.subrange(0, 53).subrange(0, 14) =~= seq![0x43u8, 0x5au8, 0x30u8, 0x30u8, 0x34u8, 0x30u8, 0x33u8, 0x32u8, 0x30u8, 0x43u8, 0x41u8, 0x30u8, 0x30u8, 0x32u8]);
        assert(payload@.subrange(0, 53).subrange(14, 16) =~= p2@);
        assert(payload@.subrange(0, 53).subrange(16, 41) =~= seq![0x43u8, 0x45u8, 0x30u8, 0x30u8, 0x33u8, 0x39u8, 0x37u8, 0x38u8, 0x42u8, 0x41u8, 0x30u8, 0x30u8, 0x31u8, 0x30u8, 0x43u8, 0x44u8, 0x30u8, 0x30u8, 0x31u8, 0x30u8, 0x43u8, 0x42u8, 0x30u8, 0x31u8, 0x32u8]);
        assert(payload@.subrange(0, 53).subrange(41, 53) =~= amt@);
        assert(payload@.subrange(53, 58) =~= seq![0x54u8, 0x49u8, 0x30u8, 0x30u8, 0x36u8]);
        assert(payload@.subrange(58, 64) =~= tx_id@);
        assert(payload@.subrange(64, 75) =~= seq![0x4cu8, 0x42u8, 0x30u8, 0x30u8, 0x36u8, 0x43u8, 0x41u8, 0x49u8, 0x53u8, 0x53u8, 0x45u8]);
    }
    r
}

/// Seconds since the Unix epoch, for transaction ids.
/// Relies on `std::time::SystemTime::now` and `duration_since`: the clock
/// decides the value, so nothing is promised of it.
#[verifier::external_body]
fn unix_seconds() -> u64 {
    std::time::SystemTime::now()
        .duration_since(std::time::UNIX_EPOCH)
        .unwrap_or_default()
        .as_secs()
}


/// A Concert V3 TLV payload is a function of the POS and the amount: two
/// payloads built for the same request are equal byte for byte (so the
/// SmilePay frame equals the Concert V3 TLV frame).
pub proof fn lemma_v3_tlv_payload_unique(p1: Seq<u8>, p2: Seq<u8>, pos: Seq<u8>, amount: nat)
    requires
        is_concert_v3_tlv_payload(p1, pos, amount),
        is_concert_v3_tlv_payload(p2, pos, amount),
    ensures
        p1 == p2,
{
    assert(p1 =~= p1.subrange(0, 14) + p1.subrange(14, 16) + p1.subrange(16, 41) + p1.subrange(
        41,
        53,
    ));
    assert(p2 =~= p2.subrange(0, 14) + p2.subrange(14, 16) + p2.subrange(16, 41) + p2.subrange(
        41,
        53,
    ));
}

/// The known Concert result codes: accepted, cancelled, card refused,
/// communication error, function impossible, timeout.
pub open spec fn known_code(c: Seq<u8>) -> bool {
    ||| c == seq![0x30u8, 0x30u8]
    ||| c == seq![0x30u8, 0x31u8]
    ||| c == seq![0x30u8, 0x32u8]
    ||| c == seq![0x30u8, 0x33u8]
    ||| c == seq![0x31u8, 0x30u8]
    ||| c == seq![0x31u8, 0x31u8]
}

/// The result code read out of a located body. The code starts at offset 1
/// in a V2 body and at offset 2 in a V3 body; both windows are tried
/// against the table of known codes, in table order (00, 01, 02, 03, 10,
/// 11), and the first known code found in either window wins. An answer
/// matching no known code is read from the V2 window. A body shorter than
/// three bytes yields `"??"`.
pub open spec fn spec_result_code(body: Seq<u8>) -> Seq<u8> {
    if body.len() < 3 {
        seq![0x3Fu8, 0x3Fu8]
    } else {
        let v2 = body.subrange(1, 3);
        let v3 = if body.len() >= 4 {
            body.subrange(2, 4)
        } else {
            seq![]
        };
        if v2 == seq![0x30u8, 0x30u8] || v3 == seq![0x30u8, 0x30u8] {
            seq![0x30u8, 0x30u8]
        } else if v2 == seq![0x30u8, 0x31u8] || v3 == seq![0x30u8, 0x31u8] {
            seq![0x30u8, 0x31u8]
        } else if v2 == seq![0x30u8, 0x32u8] || v3 == seq![0x30u8, 0x32u8] {
            seq![0x30u8, 0x32u8]
        } else if v2 == seq![0x30u8, 0x33u8] || v3 == seq![0x30u8, 0x33u8] {
            seq![0x30u8, 0x33u8]
        } else if v2 == seq![0x31u8, 0x30u8] || v3 == seq![0x31u8, 0x30u8] {
            seq![0x31u8, 0x30u8]
        } else if v2 == seq![0x31u8, 0x31u8] || v3 == seq![0x31u8, 0x31u8] {
            seq![0x31u8, 0x31u8]
        } else {
            v2
        }
    }
}

/// Whether each of the two code windows of `body` holds exactly the code
/// `[c0, c1]`: the V2 window at offset 1, and the V3 window at offset 2
/// when the body reaches that far.
fn window_hits(body: &[u8], c0: u8, c1: u8) -> (r: (bool, bool))
    requires
        body@.len() >= 3,
    ensures
        r.0 == (body@.subrange(1, 3) == seq![c0, c1]),
        r.1 == (body@.len() >= 4 && body@.subrange(2, 4) == seq![c0, c1]),
{
    let h2 = body[1] == c0 && body[2] == c1;
    let h3 = body.len() >= 4 && body[2] == c0 && body[3] == c1;
    proof {
        assert(body@.subrange(1, 3) =~= seq![body@[1], body@[2]]);
        assert((body@.subrange(1, 3) == seq![c0, c1]) <==> (body@[1] == c0 && body@[2] == c1))
            by {
            if body@[1] == c0 && body@[2] == c1 {
                assert(body@.subrange(1, 3) =~= seq![c0, c1]);
            }
        }
        if body@.len() >= 4 {
            assert(body@.subrange(2, 4) =~= seq![body@[2], body@[3]]);
            assert((body@.subrange(2, 4) == seq![c0, c1]) <==> (body@[2] == c0 && body@[3] == c1))
                by {
                if body@[2] == c0 && body@[3] == c1 {
                    assert(body@.subrange(2, 4) =~= seq![c0, c1]);
                }
            }
        }
    }
    (h2, h3)
}

/// The operator message for each known result code.
pub open spec fn concert_known_message(c: Seq<u8>) -> Seq<char> {
    if c == seq![0x30u8, 0x30u8] {
        "Transaction acceptée"@
    } else if c == seq![0x30u8, 0x31u8] {
        "Transaction annulée"@
    } else if c == seq![0x30u8, 0x32u8] {
        "Carte refusée"@
    } else if c == seq![0x30u8, 0x33u8] {
        "Erreur communication"@
    } else if c == seq![0x31u8, 0x30u8] {
        "Fonction impossible"@
    } else {
        "Timeout"@
    }
}

/// The two result-code bytes of a located body, per `spec_result_code`.
pub(crate) fn result_code_bytes(body: &[u8]) -> (r: Vec<u8>)
    ensures
        r@ == spec_result_code(body@),
        r@.len() == 2,
{
    let ghost bv = body@;
    let mut code: Vec<u8> = Vec::new();
    if body.len() < 3 {
        code.push(0x3F);
        code.push(0x3F);
        proof {
            assert(code@ =~= spec_result_code(bv));
        }
    } else {
        let (a2, a3) = window_hits(body, 0x30, 0x30);
        let (b2, b3) = window_hits(body, 0x30, 0x31);
        let (c2, c3) = window_hits(body, 0x30, 0x32);
        let (d2, d3) = window_hits(body, 0x30, 0x33);
        let (e2, e3) = window_hits(body, 0x31, 0x30);
        let (f2, f3) = window_hits(body, 0x31, 0x31);
        if a2 || a3 {
            code.push(0x30);
            code.push(0x30);
        } else if b2 || b3 {
            code.push(0x30);
            code.push(0x31);
        } else if c2 || c3 {
            code.push(0x30);
            code.push(0x32);
        } else if d2 || d3 {
            code.push(0x30);
            code.push(0x33);
        } else if e2 || e3 {
            code.push(0x31);
            code.push(0x30);
        } else if f2 || f3 {
            code.push(0x31);
            code.push(0x31);
        } else {
            code.push(body[1]);
            code.push(body[2]);
            proof {
                assert(code@ =~= bv.subrange(1, 3));
            }
        }
        proof {
            assert(code@ =~= spec_result_code(bv));
        }
    }
    code
}

/// Decode a Concert response buffer: locate the framed body, read the
/// result code out of the V2/V3 windows, and map it onto the operator
/// message. Only the `"00"` code is a success.
pub fn parse_concert_response(data: &[u8]) -> (r: ConcertResponse)
    ensures
        r.success == (r.code@ == "00"@),
        match crate::codec::spec_locate_body(data@) {
            Some(b) => {
                let c = spec_result_code(b);
                &&& r.success == (c == seq![0x30u8, 0x30u8])
                &&& ((forall|i: int| 0 <= i < c.len() ==> #[trigger] c[i] < 0x80) ==> r.code@
                    == Seq::new(c.len(), |i: int| c[i] as char))
                &&& (known_code(c) ==> r.message@ == concert_known_message(c))
                &&& (!known_code(c) && (forall|i: int| 0 <= i < c.len() ==> #[trigger] c[i] < 0x80)
                    ==> r.message@ == "Erreur inconnue ("@ + Seq::new(c.len(), |i: int| c[i] as char)
                    + ")"@)
            },
            None => {
                &&& r.success == false
                &&& r.code@ == "??"@
                &&& r.message@ == "Réponse invalide"@
            },
        },
{
    let located = crate::codec::locate_frame(data);
    match located {
        None => {
            let code = String::from_str("??");
            proof {
                reveal_strlit("??");
                reveal_strlit("00");
                assert(code@ != "00"@) by {
                    if code@ == "00"@ {
                        assert(code@[0] == '0');
                    }
                }
            }
            ConcertResponse {
                success: false,
                code,
                message: String::from_str("Réponse invalide"),
            }
        },
        Some((s, e)) => {
            let body = vstd::slice::slice_subrange(data, s + 1, e);
            let code = result_code_bytes(body);
            let success = code.len() == 2 && code[0] == 0x30 && code[1] == 0x30;
            proof {
                assert(code@ == seq![0x30u8, 0x30u8] <==> (code@.len() == 2 && code@[0] == 0x30
                    && code@[1] == 0x30)) by {
                    if code@.len() == 2 && code@[0] == 0x30 && code@[1] == 0x30 {
                        assert(code@ =~= seq![0x30u8, 0x30u8]);
                    }
                }
            }
            let message = concert_message_for(code.as_slice());
            let code_str = utf8_lossy(code.as_slice());
            proof {
                reveal_strlit("00");
                let c = code@;
                assert(c.len() == 2);
                if forall|i: int| 0 <= i < c.len() ==> #[trigger] c[i] < 0x80 {
                    assert(code_str@ =~= Seq::new(c.len(), |i: int| c[i] as char));
                    if c == seq![0x30u8, 0x30u8] {
                        assert(code_str@ =~= "00"@);
                    } else {
                        if code_str@ == "00"@ {
                            assert(code_str@[0] == '0' && code_str@[1] == '0');
                            assert(c[0] == 0x30 && c[1] == 0x30);
                            assert(c =~= seq![0x30u8, 0x30u8]);
                        }
                    }
                } else {
                    assert(exists|i: int| 0 <= i < c.len() && #[trigger] c[i] >= 0x80);
                    if code_str@ == "00"@ {
                        assert(code_str@.len() == 2 && code_str@[0] == '0' && code_str@[1] == '0');
                        assert(forall|j: int|
                            0 <= j < code_str@.len() ==> !(#[trigger] code_str@[j] > '\u{7f}'));
                    }
                }
            }
            ConcertResponse { success, code: code_str, message }
        },
    }
}

/// The operator message for a result code; unknown codes name themselves.
fn concert_message_for(code: &[u8]) -> (r: String)
    ensures
        known_code(code@) ==> r@ == concert_known_message(code@),
        !known_code(code@) && (forall|i: int| 0 <= i < code@.len() ==> #[trigger] code@[i] < 0x80)
            ==> r@ == "Erreur inconnue ("@ + Seq::new(code@.len(), |i: int| code@[i] as char)
            + ")"@,
{
    let known = code.len() == 2;
    if known && code[0] == 0x30 && code[1] == 0x30 {
        proof {
            assert(code@ =~= seq![0x30u8, 0x30u8]);
        }
        String::from_str("Transaction acceptée")
    } else if known && code[0] == 0x30 && code[1] == 0x31 {
        proof {
            assert(code@ =~= seq![0x30u8, 0x31u8]);
        }
        String::from_str("Transaction annulée")
    } else if known && code[0] == 0x30 && code[1] == 0x32 {
        proof {
            assert(code@ =~= seq![0x30u8, 0x32u8]);
        }
        String::from_str("Carte refusée")
    } else if known && code[0] == 0x30 && code[1] == 0x33 {
        proof {
            assert(code@ =~= seq![0x30u8, 0x33u8]);
        }
        String::from_str("Erreur communication")
    } else if known && code[0] == 0x31 && code[1] == 0x30 {
        proof {
            assert(code@ =~= seq![0x31u8, 0x30u8]);
        }
        String::from_str("Fonction impossible")
    } else if known && code[0] == 0x31 && code[1] == 0x31 {
        proof {
            assert(code@ =~= seq![0x31u8, 0x31u8]);
        }
        String::from_str("Timeout")
    } else {
        proof {
            if code@.len() == 2 {
                assert(code@ != seq![0x30u8, 0x30u8]) by {
                    if code@ == seq![0x30u8, 0x30u8] {
                        assert(code@[0] == 0x30 && code@[1] == 0x30);
                    }
                }
                assert(code@ != seq![0x30u8, 0x31u8]) by {
                    if code@ == seq![0x30u8, 0x31u8] {
                        assert(code@[0] == 0x30 && code@[1] == 0x31);
                    }
                }
                assert(code@ != seq![0x30u8, 0x32u8]) by {
                    if code@ == seq![0x30u8, 0x32u8] {
                        assert(code@[0] == 0x30 && code@[1] == 0x32);
                    }
                }
                assert(code@ != seq![0x30u8, 0x33u8]) by {
                    if code@ == seq![0x30u8, 0x33u8] {
                        assert(code@[0] == 0x30 && code@[1] == 0x33);
                    }
                }
                assert(code@ != seq![0x31u8, 0x30u8]) by {
                    if code@ == seq![0x31u8, 0x30u8] {
                        assert(code@[0] == 0x31 && code@[1] == 0x30);
                    }
                }
                assert(code@ != seq![0x31u8, 0x31u8]) by {
                    if code@ == seq![0x31u8, 0x31u8] {
                        assert(code@[0] == 0x31 && code@[1] == 0x31);
                    }
                }
            }
            assert(!known_code(code@));
        }
        let tail = utf8_lossy(code);
        let mut s = String::from_str("Erreur inconnue (");
        s.append(tail.as_str());
        s.append(")");
        proof {
            if forall|i: int| 0 <= i < code@.len() ==> #[trigger] code@[i] < 0x80 {
                assert(tail@ =~= Seq::new(code@.len(), |i: int| code@[i] as char));
                assert(s@ =~= "Erreur inconnue ("@ + Seq::new(code@.len(), |i: int| code@[i] as char)
                    + ")"@);
            }
        }
        s
    }
}


/// A name for what serializing a string to JSON returns.
pub uninterp spec fn json_quoted(s: Seq<char>) -> Seq<char>;

/// Serialize a string as a JSON string literal.
/// Relies on `serde_json::to_string` on `&str`: the result is the input
/// wrapped in double quotes, with only `"`, `\` and control characters
/// below the space escaped — so a string free of those comes back
/// unchanged between the quotes — and serializing a string never fails.
#[verifier::external_body]
fn json_quote(s: &str) -> (r: String)
    ensures
        r@ == json_quoted(s@),
        (forall|i: int|
            0 <= i < s@.len() ==> #[trigger] s@[i] != '"' && s@[i] != '\\' && s@[i] >= ' ')
            ==> r@ == seq!['"'] + s@ + seq!['"'],
{
    match serde_json::to_string(s) {
        Ok(r) => r,
        Err(_) => String::new(),
    }
}

/// Build the Yavin local-API JSON payload: serial number, amount in
/// cents, EUR, payment. Sent over HTTP, so neither framed nor checksummed.
pub fn build_yavin_local_payload(amount_cents: u32, terminal_id: &str) -> (r: String)
    ensures
        r@ == "{\"serial_number\":"@ + json_quoted(terminal_id@) + ",\"amount\":"@
            + chars_of_bytes(crate::session::spec_unpadded_digits(amount_cents as nat))
            + ",\"currency\":\"EUR\",\"transaction_type\":\"PAYMENT\"}"@,
{
    let digits = crate::session::unpadded_digits(amount_cents);
    let digits_str = utf8_lossy(digits.as_slice());
    proof {
        assert(forall|i: int| 0 <= i < digits@.len() ==> #[trigger] digits@[i] < 0x80) by {
            crate::session::lemma_unpadded_digits_ascii(amount_cents as nat);
        }
        assert(digits_str@ =~= chars_of_bytes(digits@));
    }
    let quoted = json_quote(terminal_id);
    let mut s = String::from_str("{\"serial_number\":");
    s.append(quoted.as_str());
    s.append(",\"amount\":");
    s.append(digits_str.as_str());
    s.append(",\"currency\":\"EUR\",\"transaction_type\":\"PAYMENT\"}");
    s
}

/// Build the Yavin cloud-API JSON payload: the local payload's fields
/// plus the merchant reference.
pub fn build_yavin_cloud_payload(amount_cents: u32, terminal_id: &str, merchant_ref: &str) -> (r:
    String)
    ensures
        r@ == "{\"serial_number\":"@ + json_quoted(terminal_id@) + ",\"amount\":"@
            + chars_of_bytes(crate::session::spec_unpadded_digits(amount_cents as nat))
            + ",\"currency\":\"EUR\",\"transaction_type\":\"PAYMENT\",\"merchant_reference\":"@
            + json_quoted(merchant_ref@) + "}"@,
{
    let digits = crate::session::unpadded_digits(amount_cents);
    let digits_str = utf8_lossy(digits.as_slice());
    proof {
        assert(forall|i: int| 0 <= i < digits@.len() ==> #[trigger] digits@[i] < 0x80) by {
            crate::session::lemma_unpadded_digits_ascii(amount_cents as nat);
        }
        assert(digits_str@ =~= chars_of_bytes(digits@));
    }
    let quoted = json_quote(terminal_id);
    let quoted_ref = json_quote(merchant_ref);
    let mut s = String::from_str("{\"serial_number\":");
    s.append(quoted.as_str());
    s.append(",\"amount\":");
    s.append(digits_str.as_str());
    s.append(",\"currency\":\"EUR\",\"transaction_type\":\"PAYMENT\",\"merchant_reference\":");
    s.append(quoted_ref.as_str());
    s.append("}");
    s
}


/// Round trip of a known result code: when one code window of a body
/// holds the known code `c` and the other window holds no known code at
/// all, the parser reads back exactly `c`. (When both windows hold known
/// codes, the one earlier in the table wins, whichever window it sits
/// in: a body may genuinely carry two readings.)
pub proof fn lemma_result_code_round_trip(b: Seq<u8>, c: Seq<u8>)
    requires
        known_code(c),
        b.len() >= 4,
        b.subrange(1, 3) == c || b.subrange(2, 4) == c,
        b.subrange(1, 3) != c ==> !known_code(b.subrange(1, 3)),
        b.subrange(2, 4) != c ==> !known_code(b.subrange(2, 4)),
    ensures
        spec_result_code(b) == c,
{
}


/// Encode one tag-length-value field: the tag, then the value's byte
/// length as three zero-padded decimal digits, then the value. The length
/// field holds three digits, so the value may carry at most 999 bytes.
pub fn tlv(tag: &str, value: &str) -> (r: String)
    requires
        vstd::string::StringSliceAdditionalSpecFns::spec_bytes(value).len() <= 999,
    ensures
        r@ == tag@ + chars_of_bytes(
            spec_amount_digits(
                vstd::string::StringSliceAdditionalSpecFns::spec_bytes(value).len(),
                3,
            ),
        ) + value@,
{
    let len = value.len();
    let digits = amount_digit_bytes(len as u32, 3);
    let digits_str = utf8_lossy(digits.as_slice());
    proof {
        assert(forall|i: int| 0 <= i < digits@.len() ==> #[trigger] digits@[i] < 0x80);
        assert(digits_str@ =~= chars_of_bytes(digits@));
    }
    let mut s = String::new();
    s.append(tag);
    s.append(digits_str.as_str());
    s.append(value);
    s
}


/// Round trip of a known result code through a whole frame: framing a
/// body free of the ETX byte, locating the frame and reading the code
/// windows gives the known code back, when the other window holds no
/// known code. A body holding ETX would end the located body early, so
/// such bodies are left out.
pub proof fn lemma_parse_round_trip(b: Seq<u8>, c: Seq<u8>)
    requires
        !b.contains(crate::codec::ETX),
        known_code(c),
        b.len() >= 4,
        b.subrange(1, 3) == c || b.subrange(2, 4) == c,
        b.subrange(1, 3) != c ==> !known_code(b.subrange(1, 3)),
        b.subrange(2, 4) != c ==> !known_code(b.subrange(2, 4)),
    ensures
        crate::codec::spec_locate_body(crate::codec::frame_of(b)) == Some(b),
        spec_result_code(b) == c,
{
    crate::codec::lemma_frame_round_trip(b);
    lemma_result_code_round_trip(b, c);
}

} // verus!
