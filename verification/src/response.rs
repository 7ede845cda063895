//! Decoding of terminal responses into payment outcomes: the Caisse-AP
//! tag set (CV, CO, AC, AL) for TCP sessions, and the Concert binary and
//! AE/AF TLV answers for serial sessions.

use vstd::prelude::*;
use vstd::string::StringExecFns;
use crate::codec::spec_locate_body;
use crate::codec::locate_frame;
use crate::protocols::{
    all_ascii_bytes,
    chars_of_bytes,
    result_code_bytes,
    spec_result_code,
    utf8_lossy,
};
use crate::tlvscan::{find_tag_value, spec_tag_value, spec_tlv_pairs, tlv_pairs};
use crate::types::TpePaymentResponse;

verus! {

/// Whether a Caisse-AP answer grants the payment: validation code `CV` is
/// "00", or response code `CO` is "00", or an authorization code `AC` is
/// present and non-empty (`AL` alone never refuses).
pub open spec fn spec_caisse_approved(pairs: Seq<(Seq<u8>, Seq<u8>)>) -> bool {
    ||| spec_tag_value(pairs, seq![0x43u8, 0x56u8]) == Some(seq![0x30u8, 0x30u8])
    ||| spec_tag_value(pairs, seq![0x43u8, 0x4fu8]) == Some(seq![0x30u8, 0x30u8])
    ||| match spec_tag_value(pairs, seq![0x41u8, 0x43u8]) {
        Some(v) => v.len() > 0,
        None => false,
    }
}

/// Whether a found tag value equals the two bytes `"00"`.
fn value_is_00(v: &Option<Vec<u8>>) -> (r: bool)
    ensures
        r == match v {
            Some(b) => b@ == seq![0x30u8, 0x30u8],
            None => false,
        },
{
    match v {
        Some(b) => {
            let hit = b.len() == 2 && b[0] == 0x30 && b[1] == 0x30;
            proof {
                assert((b@ == seq![0x30u8, 0x30u8]) <==> (b@.len() == 2 && b@[0] == 0x30 && b@[1]
                    == 0x30)) by {
                    if b@.len() == 2 && b@[0] == 0x30 && b@[1] == 0x30 {
                        assert(b@ =~= seq![0x30u8, 0x30u8]);
                    }
                }
            }
            hit
        },
        None => false,
    }
}

/// Decode a Caisse-AP answer buffer into the payment outcome: scan the
/// tag-length-value pairs, apply the approval rule, carry the
/// authorization code over, and name the refusing code in the message.
pub fn parse_caisse_ap_response(data: &[u8], amount_cents: u32) -> (r: TpePaymentResponse)
    ensures
        r.success == spec_caisse_approved(spec_tlv_pairs(data@)),
        r.amount_cents == amount_cents,
        r.transaction_result@ == (if spec_caisse_approved(spec_tlv_pairs(data@)) {
            "APPROVED"@
        } else {
            "REFUSED"@
        }),
        match spec_tag_value(spec_tlv_pairs(data@), seq![0x41u8, 0x43u8]) {
            Some(v) => (r.authorization_number matches Some(a) && (all_ascii_bytes(v) ==> a@
                == chars_of_bytes(v))),
            None => r.authorization_number is None,
        },
        r.success ==> r.error_message is None,
        !r.success ==> r.error_message is Some,
        !r.success ==> match spec_tag_value(spec_tlv_pairs(data@), seq![0x43u8, 0x4fu8]) {
            Some(v) => all_ascii_bytes(v) ==> (r.error_message matches Some(m) && m@
                == "Paiement refusé (Code: "@ + chars_of_bytes(v) + ")"@),
            None => match spec_tag_value(spec_tlv_pairs(data@), seq![0x43u8, 0x56u8]) {
                Some(v) => all_ascii_bytes(v) ==> (r.error_message matches Some(m) && m@
                    == "Paiement refusé (Validation: "@ + chars_of_bytes(v) + ")"@),
                None => r.error_message matches Some(m) && m@ == "Paiement refusé"@,
            },
        },
        r.raw_response matches Some(w) && (all_ascii_bytes(data@) ==> w@ == chars_of_bytes(data@)),
{
    let pairs = tlv_pairs(data);
    proof {
        assert(Seq::new(pairs@.len() as nat, |i: int| (pairs@[i].0@, pairs@[i].1@)) =~= spec_tlv_pairs(
            data@,
        ));
    }
    let cv = find_tag_value(&pairs, 0x43, 0x56);
    let co = find_tag_value(&pairs, 0x43, 0x4f);
    let ac = find_tag_value(&pairs, 0x41, 0x43);
    let cv_ok = value_is_00(&cv);
    let co_ok = value_is_00(&co);
    let ac_ok = match &ac {
        Some(v) => v.len() > 0,
        None => false,
    };
    let success = cv_ok || co_ok || ac_ok;
    let authorization_number = match &ac {
        Some(v) => Some(utf8_lossy(v.as_slice())),
        None => None,
    };
    let transaction_result = if success {
        String::from_str("APPROVED")
    } else {
        String::from_str("REFUSED")
    };
    let error_message = if success {
        Option::<String>::None
    } else {
        match &co {
            Some(v) => {
                let mut m = String::from_str("Paiement refusé (Code: ");
                m.append(utf8_lossy(v.as_slice()).as_str());
                m.append(")");
                Some(m)
            },
            None => match &cv {
                Some(v) => {
                    let mut m = String::from_str("Paiement refusé (Validation: ");
                    m.append(utf8_lossy(v.as_slice()).as_str());
                    m.append(")");
                    Some(m)
                },
                None => Some(String::from_str("Paiement refusé")),
            },
        }
    };
    let raw_response = Some(utf8_lossy(data));
    TpePaymentResponse {
        success,
        transaction_result,
        amount_cents,
        authorization_number,
        error_message,
        raw_response,
    }
}

/// First position where the two bytes `a, b` stand side by side.
pub open spec fn find_pair(s: Seq<u8>, a: u8, b: u8) -> Option<int>
    decreases s.len(),
{
    if s.len() < 2 {
        None
    } else if s[0] == a && s[1] == b {
        Some(0)
    } else {
        match find_pair(s.drop_first(), a, b) {
            Some(i) => Some(i + 1),
            None => None,
        }
    }
}

/// What `find_pair` returns: the first adjacent occurrence, if any.
pub proof fn lemma_find_pair(s: Seq<u8>, a: u8, b: u8)
    ensures
        match find_pair(s, a, b) {
            Some(i) => 0 <= i < s.len() - 1 && s[i] == a && s[i + 1] == b && forall|j: int|
                0 <= j < i ==> !(s[j] == a && #[trigger] s[j + 1] == b),
            None => forall|j: int| 0 <= j < s.len() - 1 ==> !(s[j] == a && #[trigger] s[j + 1] == b),
        },
    decreases s.len(),
{
    if s.len() >= 2 && !(s[0] == a && s[1] == b) {
        let t = s.drop_first();
        lemma_find_pair(t, a, b);
        assert(forall|j: int| 1 <= j < s.len() ==> s[j] == t[j - 1]);
    }
}

/// When `s[i], s[i+1]` is the first occurrence, `find_pair` returns `i`.
pub proof fn lemma_find_pair_is_first(s: Seq<u8>, a: u8, b: u8, i: int)
    requires
        0 <= i < s.len() - 1,
        s[i] == a,
        s[i + 1] == b,
        forall|j: int| 0 <= j < i ==> !(s[j] == a && #[trigger] s[j + 1] == b),
    ensures
        find_pair(s, a, b) == Some(i),
    decreases s.len(),
{
    if i > 0 {
        let t = s.drop_first();
        assert(forall|j: int| 1 <= j < s.len() ==> s[j] == t[j - 1]);
        lemma_find_pair_is_first(t, a, b, i - 1);
    }
}

/// The value of the first field headed by the tag `a, b`, read by the
/// tag-length-value rule; empty where the tag is absent, the length does
/// not parse, or the value runs past the end.
pub open spec fn spec_extract_tlv(s: Seq<u8>, a: u8, b: u8) -> Seq<u8> {
    match find_pair(s, a, b) {
        None => seq![],
        Some(p) => if crate::tlvscan::field_parses_at(s, p) {
            s.subrange(p + 5, p + 5 + crate::tlvscan::field_len_at(s, p))
        } else {
            seq![]
        },
    }
}

/// Read the value of the first field headed by the tag `a, b` out of a
/// buffer, per `spec_extract_tlv`.
pub fn extract_tlv_bytes(data: &[u8], a: u8, b: u8) -> (r: Vec<u8>)
    ensures
        r@ == spec_extract_tlv(data@, a, b),
{
    proof {
        lemma_find_pair(data@, a, b);
    }
    let mut p: usize = 0;
    if data.len() >= 2 {
        while data.len() - p >= 2
            invariant
                p <= data@.len(),
                forall|j: int| 0 <= j < p ==> !(data@[j] == a && #[trigger] data@[j + 1] == b),
            decreases data@.len() - p,
        {
            if data[p] == a && data[p + 1] == b {
                proof {
                    lemma_find_pair_is_first(data@, a, b, p as int);
                }
                if data.len() - p >= 5 {
                    let d0 = data[p + 2];
                    let d1 = data[p + 3];
                    let d2 = data[p + 4];
                    if 0x30 <= d0 && d0 <= 0x39 && 0x30 <= d1 && d1 <= 0x39 && 0x30 <= d2 && d2
                        <= 0x39 {
                        let vlen: usize = ((d0 - 0x30) as usize) * 100 + ((d1 - 0x30) as usize)
                            * 10 + ((d2 - 0x30) as usize);
                        if vlen <= data.len() - (p + 5) {
                            proof {
                                assert(crate::tlvscan::field_parses_at(data@, p as int));
                            }
                            let v = vstd::slice::slice_to_vec(
                                vstd::slice::slice_subrange(data, p + 5, p + 5 + vlen),
                            );
                            return v;
                        }
                    }
                }
                proof {
                    assert(!crate::tlvscan::field_parses_at(data@, p as int));
                }
                return Vec::new();
            }
            p = p + 1;
        }
    }
    proof {
        assert(find_pair(data@, a, b) is None);
    }
    Vec::new()
}

/// The refusal message keyed by the `AF` code of a TLV answer.
pub open spec fn spec_af_message(c: Seq<u8>) -> Seq<char> {
    if c == seq![0x30u8, 0x31u8] {
        "Transaction annulée"@
    } else if c == seq![0x30u8, 0x32u8] {
        "Carte refusée"@
    } else if c == seq![0x30u8, 0x33u8] {
        "Erreur communication"@
    } else if c == seq![0x30u8, 0x39u8] {
        "Erreur format message (protocole incompatible)"@
    } else if c == seq![0x31u8, 0x30u8] {
        "Fonction impossible"@
    } else if c == seq![0x31u8, 0x31u8] {
        "Transaction abandonnée"@
    } else {
        "Transaction non effectuée"@
    }
}

/// The refusal message keyed by a binary result code.
pub open spec fn spec_binary_message(c: Seq<u8>) -> Seq<char> {
    if c == seq![0x30u8, 0x31u8] {
        "Transaction annulée"@
    } else if c == seq![0x30u8, 0x32u8] {
        "Carte refusée"@
    } else if c == seq![0x30u8, 0x33u8] {
        "Erreur communication"@
    } else if c == seq![0x31u8, 0x30u8] {
        "Fonction impossible"@
    } else if c == seq![0x31u8, 0x31u8] {
        "Timeout"@
    } else {
        "Transaction échouée"@
    }
}

/// Test two bytes of a vector against a code.
fn code_is(v: &Vec<u8>, c0: u8, c1: u8) -> (r: bool)
    ensures
        r == (v@ == seq![c0, c1]),
{
    let hit = v.len() == 2 && v[0] == c0 && v[1] == c1;
    proof {
        assert((v@ == seq![c0, c1]) <==> (v@.len() == 2 && v@[0] == c0 && v@[1] == c1)) by {
            if v@.len() == 2 && v@[0] == c0 && v@[1] == c1 {
                assert(v@ =~= seq![c0, c1]);
            }
        }
    }
    hit
}

/// The `spec_af_message` of a code vector.
fn af_message_for(c: &Vec<u8>) -> (r: String)
    ensures
        r@ == spec_af_message(c@),
{
    if code_is(c, 0x30, 0x31) {
        String::from_str("Transaction annulée")
    } else if code_is(c, 0x30, 0x32) {
        String::from_str("Carte refusée")
    } else if code_is(c, 0x30, 0x33) {
        String::from_str("Erreur communication")
    } else if code_is(c, 0x30, 0x39) {
        String::from_str("Erreur format message (protocole incompatible)")
    } else if code_is(c, 0x31, 0x30) {
        String::from_str("Fonction impossible")
    } else if code_is(c, 0x31, 0x31) {
        String::from_str("Transaction abandonnée")
    } else {
        String::from_str("Transaction non effectuée")
    }
}

/// The `spec_binary_message` of a code vector.
fn binary_message_for(c: &Vec<u8>) -> (r: String)
    ensures
        r@ == spec_binary_message(c@),
{
    if code_is(c, 0x30, 0x31) {
        String::from_str("Transaction annulée")
    } else if code_is(c, 0x30, 0x32) {
        String::from_str("Carte refusée")
    } else if code_is(c, 0x30, 0x33) {
        String::from_str("Erreur communication")
    } else if code_is(c, 0x31, 0x30) {
        String::from_str("Fonction impossible")
    } else if code_is(c, 0x31, 0x31) {
        String::from_str("Timeout")
    } else {
        String::from_str("Transaction échouée")
    }
}

/// A TLV answer is one whose body holds the `AE` tag somewhere.
pub open spec fn body_is_tlv(b: Seq<u8>) -> bool {
    find_pair(b, 0x41, 0x45) is Some
}

/// Whether the bytes `a, b` stand adjacent anywhere in `data`.
fn has_pair(data: &[u8], a: u8, b: u8) -> (r: bool)
    ensures
        r == (find_pair(data@, a, b) is Some),
{
    proof {
        lemma_find_pair(data@, a, b);
    }
    if data.len() < 2 {
        return false;
    }
    let mut p: usize = 0;
    while data.len() - p >= 2
        invariant
            p <= data@.len(),
            forall|j: int| 0 <= j < p ==> !(data@[j] == a && #[trigger] data@[j + 1] == b),
        decreases data@.len() - p,
    {
        if data[p] == a && data[p + 1] == b {
            proof {
                lemma_find_pair_is_first(data@, a, b, p as int);
            }
            return true;
        }
        p = p + 1;
    }
    false
}

/// Decode a serial payment answer. The framed body is located; a body
/// holding the `AE` tag is read as a TLV answer (`AE == "10"` grants, the
/// `AF` code names the refusal), any other body is read as a binary answer
/// through the code windows; a buffer with no frame yields the
/// invalid-format outcome. Success is never an error: every buffer decodes
/// to an outcome.
pub fn parse_response(data: &[u8], amount_cents: u32, raw: &str) -> (r: Result<
    TpePaymentResponse,
    String,
>)
    ensures
        r matches Ok(out) && out.amount_cents == amount_cents && out.authorization_number is None
            && match spec_locate_body(data@) {
            None => {
                &&& out.success == false
                &&& out.transaction_result@ == "??"@
                &&& out.error_message matches Some(m) && m@ == "Format de réponse invalide: "@
                    + raw@
                &&& out.raw_response matches Some(w) && w@ == raw@
            },
            Some(b) => {
                if body_is_tlv(b) {
                    let ae = spec_extract_tlv(b, 0x41, 0x45);
                    let af = spec_extract_tlv(b, 0x41, 0x46);
                    if ae == seq![0x31u8, 0x30u8] {
                        &&& out.success == true
                        &&& out.transaction_result@ == "10"@
                        &&& out.error_message is None
                        &&& out.raw_response matches Some(w) && w@ == raw@
                    } else {
                        &&& out.success == false
                        &&& (all_ascii_bytes(ae) && all_ascii_bytes(af) ==> {
                            &&& out.transaction_result@ == "AE="@ + chars_of_bytes(ae) + ",AF="@
                                + chars_of_bytes(af)
                            &&& out.error_message matches Some(m) && m@ == spec_af_message(af)
                                + " (AE="@ + chars_of_bytes(ae) + ", AF="@ + chars_of_bytes(af)
                                + ")"@
                        })
                        &&& out.error_message is Some
                        &&& out.raw_response matches Some(w) && w@ == raw@
                    }
                } else {
                    let c = spec_result_code(b);
                    if c == seq![0x30u8, 0x30u8] {
                        &&& out.success == true
                        &&& out.transaction_result@ == "00"@
                        &&& out.error_message is None
                        &&& out.raw_response matches Some(w) && w@ == raw@
                    } else {
                        &&& out.success == false
                        &&& (all_ascii_bytes(c) ==> {
                            &&& out.transaction_result@ == chars_of_bytes(c)
                            &&& out.error_message matches Some(m) && m@ == spec_binary_message(c)
                                + " (code: "@ + chars_of_bytes(c) + ")"@
                        })
                        &&& out.error_message is Some
                        &&& out.raw_response matches Some(w) && w@ == raw@
                    }
                }
            },
        },
{
    let located = locate_frame(data);
    match located {
        None => Ok(
            TpePaymentResponse {
                success: false,
                transaction_result: String::from_str("??"),
                amount_cents,
                authorization_number: None,
                error_message: Some(
                    {
                        let mut m = String::from_str("Format de réponse invalide: ");
                        m.append(raw);
                        m
                    },
                ),
                raw_response: Some(String::from_str(raw)),
            },
        ),
        Some((s, e)) => {
            let body = vstd::slice::slice_subrange(data, s + 1, e);
            if has_pair(body, 0x41, 0x45) {
                let ae = extract_tlv_bytes(body, 0x41, 0x45);
                let af = extract_tlv_bytes(body, 0x41, 0x46);
                if code_is(&ae, 0x31, 0x30) {
                    Ok(
                        TpePaymentResponse {
                            success: true,
                            transaction_result: String::from_str("10"),
                            amount_cents,
                            authorization_number: None,
                            error_message: None,
                            raw_response: Some(String::from_str(raw)),
                        },
                    )
                } else {
                    let ae_str = utf8_lossy(ae.as_slice());
                    let af_str = utf8_lossy(af.as_slice());
                    let mut tr = String::from_str("AE=");
                    tr.append(ae_str.as_str());
                    tr.append(",AF=");
                    tr.append(af_str.as_str());
                    let mut m = af_message_for(&af);
                    m.append(" (AE=");
                    m.append(ae_str.as_str());
                    m.append(", AF=");
                    m.append(af_str.as_str());
                    m.append(")");
                    Ok(
                        TpePaymentResponse {
                            success: false,
                            transaction_result: tr,
                            amount_cents,
                            authorization_number: None,
                            error_message: Some(m),
                            raw_response: Some(String::from_str(raw)),
                        },
                    )
                }
            } else {
                let code = result_code_bytes(body);
                if code_is(&code, 0x30, 0x30) {
                    Ok(
                        TpePaymentResponse {
                            success: true,
                            transaction_result: String::from_str("00"),
                            amount_cents,
                            authorization_number: None,
                            error_message: None,
                            raw_response: Some(String::from_str(raw)),
                        },
                    )
                } else {
                    let code_str = utf8_lossy(code.as_slice());
                    let mut m = binary_message_for(&code);
                    m.append(" (code: ");
                    m.append(code_str.as_str());
                    m.append(")");
                    Ok(
                        TpePaymentResponse {
                            success: false,
                            transaction_result: code_str,
                            amount_cents,
                            authorization_number: None,
                            error_message: Some(m),
                            raw_response: Some(String::from_str(raw)),
                        },
                    )
                }
            }
        },
    }
}

} // verus!
