//! Per-transaction session decisions. The host owns the transport and the
//! clock: it opens the port or the socket, reads and writes, sleeps, and
//! polls the cancellation flag. Every protocol decision — what to answer
//! to a handshake reply, when to fall back, when a response is complete,
//! what a cancellation sends, what a connection test means — stands here,
//! as a function of the bytes and the flag.

use vstd::prelude::*;
use vstd::string::StringExecFns;
use crate::codec::{bytes_to_hex, spec_hex_bytes, ACK, CAN, ENQ, EOT, ETX, NAK, STX};
use crate::protocols::{
    all_ascii_bytes,
    build_concert_v2,
    build_concert_v3_binary,
    build_concert_v3_tlv,
    chars_of_bytes,
    spec_amount_digits,
};
use crate::types::{TpePaymentResponse, TpeTestResult};

verus! {

/// What to do with the reply to the opening ENQ probe.
#[derive(Debug, PartialEq, Eq, Structural)]
pub enum HandshakeAction {
    /// The terminal acknowledged, stayed silent, or answered noise: send
    /// the request (many terminals skip the handshake).
    Proceed,
    /// The terminal was itself polling with ENQ: acknowledge it first.
    ReplyAckThenProceed,
}

/// Decide on the handshake reply: a reply opening with ENQ is answered
/// with ACK; anything else, including silence, lets the request go out.
pub fn on_handshake_reply(reply: &[u8]) -> (r: HandshakeAction)
    ensures
        r == (if reply@.len() > 0 && reply@[0] == ENQ {
            HandshakeAction::ReplyAckThenProceed
        } else {
            HandshakeAction::Proceed
        }),
{
    if reply.len() > 0 && reply[0] == ENQ {
        HandshakeAction::ReplyAckThenProceed
    } else {
        HandshakeAction::Proceed
    }
}

/// What to do with the probe read right after sending the request.
#[derive(Debug, PartialEq, Eq, Structural)]
pub enum ProbeAction {
    /// A lone ENQ: the terminal asks whether we listen; answer ACK and
    /// await the response.
    ReplyAckAndAwait,
    /// ENQ with more, EOT or NAK: the format was rejected; try the plain
    /// ASCII fallback once.
    AsciiFallback,
    /// Anything else: await the response.
    Await,
}

/// Decide on the post-send probe reply, per the rejection rule: a lone
/// ENQ is acknowledged; ENQ with company, EOT or NAK triggers the ASCII
/// fallback unless the descriptor already forced it.
pub fn on_send_probe(reply: &[u8], forced_ascii: bool) -> (r: ProbeAction)
    ensures
        r == (if reply@.len() == 1 && reply@[0] == ENQ {
            ProbeAction::ReplyAckAndAwait
        } else if reply@.len() > 0 && (reply@[0] == ENQ || reply@[0] == EOT || reply@[0] == NAK)
            && !forced_ascii {
            ProbeAction::AsciiFallback
        } else {
            ProbeAction::Await
        }),
{
    if reply.len() == 1 && reply[0] == ENQ {
        ProbeAction::ReplyAckAndAwait
    } else if reply.len() > 0 && (reply[0] == ENQ || reply[0] == EOT || reply[0] == NAK)
        && !forced_ascii {
        ProbeAction::AsciiFallback
    } else {
        ProbeAction::Await
    }
}

/// Progress of the long response read.
#[derive(Debug, PartialEq, Eq, Structural)]
pub enum ResponseProgress {
    /// Keep reading.
    Waiting,
    /// An ETX arrived: the frame is complete.
    Complete,
    /// An EOT with no STX: the terminal gave up without an answer.
    Aborted,
}

/// Take one received chunk into the response buffer and decide: a chunk
/// holding ENQ must be answered with ACK at once (the terminal asks leave
/// to send); the read is complete on ETX, and aborted on EOT without STX.
pub fn on_response_chunk(buffer: &mut Vec<u8>, chunk: &[u8]) -> (r: (bool, ResponseProgress))
    ensures
        final(buffer)@ == old(buffer)@ + chunk@,
        r.0 == chunk@.contains(ENQ),
        r.1 == (if final(buffer)@.contains(ETX) {
            ResponseProgress::Complete
        } else if final(buffer)@.contains(EOT) && !final(buffer)@.contains(STX) {
            ResponseProgress::Aborted
        } else {
            ResponseProgress::Waiting
        }),
{
    buffer.extend_from_slice(chunk);
    let reply_ack = contains_byte(chunk, ENQ);
    let progress = if contains_byte(buffer.as_slice(), ETX) {
        ResponseProgress::Complete
    } else if contains_byte(buffer.as_slice(), EOT) && !contains_byte(buffer.as_slice(), STX) {
        ResponseProgress::Aborted
    } else {
        ResponseProgress::Waiting
    };
    (reply_ack, progress)
}

/// Whether `b` occurs in `buf`.
pub fn contains_byte(buf: &[u8], b: u8) -> (r: bool)
    ensures
        r == buf@.contains(b),
{
    proof {
        crate::codec::lemma_find_byte(buf@, b);
    }
    match crate::codec::find_first(buf, b) {
        Some(_) => true,
        None => false,
    }
}

/// The bytes a cancellation sends on the open transport: three CAN marks
/// and an EOT.
pub fn cancel_sequence() -> (r: Vec<u8>)
    ensures
        r@ == seq![CAN, CAN, CAN, EOT],
{
    let mut v: Vec<u8> = Vec::new();
    v.push(CAN);
    v.push(CAN);
    v.push(CAN);
    v.push(EOT);
    proof {
        assert(v@ =~= seq![CAN, CAN, CAN, EOT]);
    }
    v
}

/// The outcome of a cancelled payment.
pub fn cancelled_outcome(amount_cents: u32) -> (r: TpePaymentResponse)
    ensures
        r.success == false,
        r.transaction_result@ == "CANCELLED"@,
        r.amount_cents == amount_cents,
        r.authorization_number is None,
        r.error_message matches Some(m) && m@ == "Transaction cancelled by user"@,
        r.raw_response is None,
{
    TpePaymentResponse {
        success: false,
        transaction_result: String::from_str("CANCELLED"),
        amount_cents,
        authorization_number: None,
        error_message: Some(String::from_str("Transaction cancelled by user")),
        raw_response: None,
    }
}

/// The bytes that confirm receipt of a Caisse-AP answer: ACK then EOT.
pub fn confirm_sequence() -> (r: Vec<u8>)
    ensures
        r@ == seq![ACK, EOT],
{
    let mut v: Vec<u8> = Vec::new();
    v.push(ACK);
    v.push(EOT);
    proof {
        assert(v@ =~= seq![ACK, EOT]);
    }
    v
}

/// The error of a serial payment that hit the transaction deadline.
pub fn serial_timeout_error() -> (r: String)
    ensures
        r@ == "Timeout (120s)"@,
{
    String::from_str("Timeout (120s)")
}

/// The error of a TCP payment that hit the transaction deadline with no
/// data at all.
pub fn tcp_timeout_error() -> (r: String)
    ensures
        r@ == "Timeout (150s)"@,
{
    String::from_str("Timeout (150s)")
}

/// The error of an ASCII fallback that drew no reply.
pub fn ascii_no_reply_error() -> (r: String)
    ensures
        r@ == "Pas de réponse au format alternatif"@,
{
    String::from_str("Pas de réponse au format alternatif")
}

/// Classify the outcome of a connection test. A TCP descriptor counts as
/// connected as soon as the socket opened: a bare ENQ could desynchronize
/// a Caisse-AP terminal, so none is sent. On serial, the reply to the ENQ
/// probe decides: ACK, any other bytes, or silence, each with its message.
pub fn classify_test_reply(reply: &[u8], is_tcp: bool) -> (r: TpeTestResult)
    ensures
        r.connected == true,
        is_tcp ==> r.message@ == "Connected to TPE via TCP ✓"@ && r.raw_data is None,
        !is_tcp && reply@.len() > 0 && reply@[0] == ACK ==> r.message@
            == "Connected - ACK Received ✓"@,
        !is_tcp && reply@.len() > 0 ==> (r.raw_data matches Some(h) && h@ == chars_of_bytes(
            spec_hex_bytes(reply@),
        )),
        !is_tcp && reply@.len() > 0 && reply@[0] != ACK ==> r.message@ == "Connected - Response: "@
            + chars_of_bytes(spec_hex_bytes(reply@)),
        !is_tcp && reply@.len() == 0 ==> r.message@ == "Connected, no data received"@ && r.raw_data
            is None,
{
    if is_tcp {
        TpeTestResult {
            connected: true,
            message: String::from_str("Connected to TPE via TCP ✓"),
            raw_data: None,
        }
    } else if reply.len() > 0 {
        let hex = bytes_to_hex(reply);
        let message = if reply[0] == ACK {
            String::from_str("Connected - ACK Received ✓")
        } else {
            let mut m = String::from_str("Connected - Response: ");
            m.append(hex.as_str());
            m
        };
        TpeTestResult { connected: true, message, raw_data: Some(hex) }
    } else {
        TpeTestResult {
            connected: true,
            message: String::from_str("Connected, no data received"),
            raw_data: None,
        }
    }
}

/// The decimal digits of `n` without padding, most significant first.
pub open spec fn spec_unpadded_digits(n: nat) -> Seq<u8>
    decreases n,
{
    if n < 10 {
        seq![(0x30 + n) as u8]
    } else {
        spec_unpadded_digits(n / 10).push((0x30 + n % 10) as u8)
    }
}

/// The decimal digits of `n` without padding.
pub fn unpadded_digits(n: u32) -> (r: Vec<u8>)
    ensures
        r@ == spec_unpadded_digits(n as nat),
{
    let mut vals: Vec<u8> = Vec::new();
    let mut m = n;
    loop
        invariant_except_break
            forall|j: int| 0 <= j < vals@.len() ==> #[trigger] vals@[j] < 10,
            vals@.len() == 0 ==> m == n,
            vals@.len() >= 1 ==> m > 0 && spec_unpadded_digits(n as nat) == spec_unpadded_digits(
                m as nat,
            ) + Seq::new(vals@.len() as nat, |j: int| (0x30 + vals@[vals@.len() - 1 - j]) as u8),
        ensures
            forall|j: int| 0 <= j < vals@.len() ==> #[trigger] vals@[j] < 10,
            spec_unpadded_digits(n as nat) == Seq::new(
                vals@.len() as nat,
                |j: int| (0x30 + vals@[vals@.len() - 1 - j]) as u8,
            ),
        decreases m,
    {
        let ghost old_vals = vals@;
        let ghost old_m = m as nat;
        vals.push((m % 10) as u8);
        m = m / 10;
        proof {
            let tail_old = Seq::new(
                old_vals.len() as nat,
                |j: int| (0x30 + old_vals[old_vals.len() - 1 - j]) as u8,
            );
            let tail_new = Seq::new(
                vals@.len() as nat,
                |j: int| (0x30 + vals@[vals@.len() - 1 - j]) as u8,
            );
            assert(tail_new =~= seq![(0x30 + old_m % 10) as u8] + tail_old);
            if old_vals.len() == 0 {
                if old_m < 10 {
                    assert(spec_unpadded_digits(n as nat) =~= tail_new);
                } else {
                    assert(spec_unpadded_digits(n as nat) == spec_unpadded_digits(old_m / 10).push(
                        (0x30 + old_m % 10) as u8,
                    ));
                    assert(spec_unpadded_digits(n as nat) =~= spec_unpadded_digits(m as nat)
                        + tail_new);
                }
            } else {
                if old_m < 10 {
                    assert(spec_unpadded_digits(old_m) =~= seq![(0x30 + old_m) as u8]);
                    assert(spec_unpadded_digits(n as nat) =~= tail_new);
                } else {
                    assert(spec_unpadded_digits(old_m) == spec_unpadded_digits(old_m / 10).push(
                        (0x30 + old_m % 10) as u8,
                    ));
                    assert(spec_unpadded_digits(old_m) =~= spec_unpadded_digits(m as nat) + seq![
                        (0x30 + old_m % 10) as u8,
                    ]);
                    assert(spec_unpadded_digits(n as nat) =~= spec_unpadded_digits(m as nat)
                        + tail_new);
                }
            }
        }
        if m == 0 {
            break ;
        }
    }
    let ghost final_tail = Seq::new(
        vals@.len() as nat,
        |j: int| (0x30 + vals@[vals@.len() - 1 - j]) as u8,
    );
    proof {
        assert(spec_unpadded_digits(n as nat) =~= final_tail);
    }
    let mut out: Vec<u8> = Vec::new();
    let mut k = vals.len();
    while k > 0
        invariant
            k <= vals@.len(),
            out@.len() == vals@.len() - k,
            forall|j: int| 0 <= j < vals@.len() ==> #[trigger] vals@[j] < 10,
            forall|j: int|
                0 <= j < out@.len() ==> #[trigger] out@[j] == (0x30 + vals@[vals@.len() - 1
                    - j]) as u8,
        decreases k,
    {
        k = k - 1;
        out.push(0x30 + vals[k]);
    }
    proof {
        assert(out@ =~= final_tail);
    }
    out
}

/// The plain-text fallback line for an amount: `DEBIT <euros>.<cc> EUR`
/// with a carriage return, euros unpadded and cents always two digits.
pub open spec fn spec_debit_line(amount: nat) -> Seq<u8> {
    seq![0x44u8, 0x45u8, 0x42u8, 0x49u8, 0x54u8, 0x20u8] + spec_unpadded_digits(amount / 100)
        + seq![0x2eu8] + spec_amount_digits(amount % 100, 2) + seq![
        0x20u8,
        0x45u8,
        0x55u8,
        0x52u8,
        0x0du8,
    ]
}

/// Build the plain-text fallback message sent when a terminal rejects the
/// framed protocol: `DEBIT <euros>.<cc> EUR` and a carriage return, no
/// framing and no LRC.
pub fn build_ascii_fallback(amount_cents: u32) -> (r: Vec<u8>)
    ensures
        r@ == spec_debit_line(amount_cents as nat),
{
    let euros = unpadded_digits(amount_cents / 100);
    let cents = crate::protocols::amount_digit_bytes(amount_cents % 100, 2);
    let mut out: Vec<u8> = Vec::new();
    out.push(0x44);
    out.push(0x45);
    out.push(0x42);
    out.push(0x49);
    out.push(0x54);
    out.push(0x20);
    out.extend_from_slice(euros.as_slice());
    out.push(0x2e);
    out.extend_from_slice(cents.as_slice());
    out.push(0x20);
    out.push(0x45);
    out.push(0x55);
    out.push(0x52);
    out.push(0x0d);
    proof {
        assert(out@ =~= spec_debit_line(amount_cents as nat));
    }
    out
}

/// The outcome of an ASCII-fallback exchange that drew a reply. The driver
/// deliberately does not read success out of the free-form reply: the
/// outcome carries the reply's text and hex for the operator to judge.
pub fn ascii_fallback_outcome(reply: &[u8], amount_cents: u32) -> (r: TpePaymentResponse)
    ensures
        r.success == false,
        r.transaction_result@ == "?"@,
        r.amount_cents == amount_cents,
        r.authorization_number is None,
        r.error_message is Some,
        all_ascii_bytes(reply@) ==> (r.error_message matches Some(m) && m@
            == "Mode ASCII utilisé. Réponse: "@ + chars_of_bytes(reply@)),
        r.raw_response is Some,
        all_ascii_bytes(reply@) ==> (r.raw_response matches Some(w) && w@ == "ASCII: "@
            + chars_of_bytes(reply@) + " | HEX: "@ + chars_of_bytes(spec_hex_bytes(reply@))),
{
    let text = crate::protocols::utf8_lossy(reply);
    let hex = bytes_to_hex(reply);
    proof {
        if all_ascii_bytes(reply@) {
            assert(text@ =~= chars_of_bytes(reply@));
        }
    }
    let mut m = String::from_str("Mode ASCII utilisé. Réponse: ");
    m.append(text.as_str());
    let mut w = String::from_str("ASCII: ");
    w.append(text.as_str());
    w.append(" | HEX: ");
    w.append(hex.as_str());
    TpePaymentResponse {
        success: false,
        transaction_result: String::from_str("?"),
        amount_cents,
        authorization_number: None,
        error_message: Some(m),
        raw_response: Some(w),
    }
}

/// Build the framed payment request for a protocol-version byte: 2 is
/// Concert V2 binary, 4 is Concert V3 binary, and every other byte —
/// including the SmilePay selector — is Concert V3 TLV.
pub fn build_payment_message(amount_cents: u32, pos_number: &str, protocol_version: u8) -> (r: Vec<
    u8,
>)
    ensures
        protocol_version == 2 ==> r@.len() == 17 && r@ == crate::codec::frame_of(
            r@.subrange(1, 15),
        ) && crate::protocols::is_concert_v2_payload(
            r@.subrange(1, 15),
            vstd::string::StringSliceAdditionalSpecFns::spec_bytes(pos_number),
            amount_cents as nat,
        ),
        protocol_version == 4 ==> r@.len() == 22 && r@ == crate::codec::frame_of(
            r@.subrange(1, 20),
        ) && crate::protocols::is_concert_v3_payload(
            r@.subrange(1, 20),
            vstd::string::StringSliceAdditionalSpecFns::spec_bytes(pos_number),
            amount_cents as nat,
        ),
        protocol_version != 2 && protocol_version != 4 ==> r@.len() == 56 && r@
            == crate::codec::frame_of(r@.subrange(1, 54))
            && crate::protocols::is_concert_v3_tlv_payload(
            r@.subrange(1, 54),
            vstd::string::StringSliceAdditionalSpecFns::spec_bytes(pos_number),
            amount_cents as nat,
        ),
{
    if protocol_version == 2 {
        build_concert_v2(amount_cents, pos_number)
    } else if protocol_version == 4 {
        build_concert_v3_binary(amount_cents, pos_number)
    } else {
        build_concert_v3_tlv(amount_cents, pos_number)
    }
}

/// Capacity of the in-memory diagnostic log.
pub const LOG_CAP: usize = 500;

/// Append one line to the in-memory diagnostic log, dropping the oldest
/// line once the buffer is full.
pub fn log_append(buffer: &mut Vec<String>, entry: String)
    ensures
        final(buffer)@ == (if old(buffer)@.len() < LOG_CAP as int {
            old(buffer)@.push(entry)
        } else {
            old(buffer)@.push(entry).subrange(1, old(buffer)@.len() as int + 1)
        }),
        old(buffer)@.len() <= LOG_CAP as int ==> final(buffer)@.len() <= LOG_CAP as int,
{
    let ghost before = buffer@;
    buffer.push(entry);
    if buffer.len() > LOG_CAP {
        buffer.remove(0);
        proof {
            assert(buffer@ =~= before.push(entry).subrange(1, before.len() as int + 1));
        }
    }
}

/// One diagnostic log line: the timestamp in brackets, then the message.
pub fn make_log_entry(timestamp: &str, message: &str) -> (r: String)
    ensures
        r@ == "["@ + timestamp@ + "] "@ + message@,
{
    let mut s = String::from_str("[");
    s.append(timestamp);
    s.append("] ");
    s.append(message);
    s
}


/// Whether a descriptor's bytes end in the `+ASCII` marker.
pub open spec fn spec_forced_ascii(s: Seq<u8>) -> bool {
    s.len() >= 6 && s.subrange(s.len() - 6, s.len() as int) == seq![
        0x2bu8,
        0x41u8,
        0x53u8,
        0x43u8,
        0x49u8,
        0x49u8,
    ]
}

/// A descriptor's bytes with the trailing `+ASCII` marker stripped.
pub open spec fn spec_clean_descriptor(s: Seq<u8>) -> Seq<u8> {
    if spec_forced_ascii(s) {
        s.subrange(0, s.len() - 6)
    } else {
        s
    }
}

/// Split a connection descriptor: strip a trailing `+ASCII` marker, and
/// decide the transport — a colon in what remains names `host:port` over
/// TCP, anything else a serial device.
pub fn parse_descriptor(descriptor: &str) -> (r: (String, bool, bool))
    ensures
        r.2 == spec_forced_ascii(
            vstd::string::StringSliceAdditionalSpecFns::spec_bytes(descriptor),
        ),
        r.1 == spec_clean_descriptor(
            vstd::string::StringSliceAdditionalSpecFns::spec_bytes(descriptor),
        ).contains(0x3a),
        crate::protocols::all_ascii_bytes(
            vstd::string::StringSliceAdditionalSpecFns::spec_bytes(descriptor),
        ) ==> r.0@ == chars_of_bytes(
            spec_clean_descriptor(
                vstd::string::StringSliceAdditionalSpecFns::spec_bytes(descriptor),
            ),
        ),
{
    let bytes = descriptor.as_bytes();
    let ghost sb = vstd::string::StringSliceAdditionalSpecFns::spec_bytes(descriptor);
    let n = bytes.len();
    let forced = n >= 6 && bytes[n - 6] == 0x2b && bytes[n - 5] == 0x41 && bytes[n - 4] == 0x53
        && bytes[n - 3] == 0x43 && bytes[n - 2] == 0x49 && bytes[n - 1] == 0x49;
    proof {
        if n >= 6 {
            assert(sb.subrange(n - 6, n as int) =~= seq![
                sb[n - 6],
                sb[n - 5],
                sb[n - 4],
                sb[n - 3],
                sb[n - 2],
                sb[n - 1],
            ]);
            assert((sb.subrange(n - 6, n as int) == seq![
                0x2bu8,
                0x41u8,
                0x53u8,
                0x43u8,
                0x49u8,
                0x49u8,
            ]) <==> (sb[n - 6] == 0x2b && sb[n - 5] == 0x41 && sb[n - 4] == 0x53 && sb[n - 3]
                == 0x43 && sb[n - 2] == 0x49 && sb[n - 1] == 0x49)) by {
                if sb[n - 6] == 0x2b && sb[n - 5] == 0x41 && sb[n - 4] == 0x53 && sb[n - 3] == 0x43
                    && sb[n - 2] == 0x49 && sb[n - 1] == 0x49 {
                    assert(sb.subrange(n - 6, n as int) =~= seq![
                        0x2bu8,
                        0x41u8,
                        0x53u8,
                        0x43u8,
                        0x49u8,
                        0x49u8,
                    ]);
                }
            }
        }
        assert(forced == spec_forced_ascii(sb));
    }
    let clean = if forced {
        vstd::slice::slice_subrange(bytes, 0, n - 6)
    } else {
        bytes
    };
    proof {
        assert(clean@ =~= spec_clean_descriptor(sb));
    }
    let is_tcp = contains_byte(clean, 0x3a);
    let clean_str = crate::protocols::utf8_lossy(clean);
    proof {
        if crate::protocols::all_ascii_bytes(sb) {
            assert(crate::protocols::all_ascii_bytes(clean@));
            assert(clean_str@ =~= chars_of_bytes(clean@));
        }
    }
    (clean_str, is_tcp, forced)
}


/// Unpadded digits are ASCII digit bytes.
pub proof fn lemma_unpadded_digits_ascii(n: nat)
    ensures
        crate::protocols::ascii_digits(spec_unpadded_digits(n)),
        forall|i: int|
            0 <= i < spec_unpadded_digits(n).len() ==> #[trigger] spec_unpadded_digits(n)[i]
                < 0x80,
    decreases n,
{
    if n >= 10 {
        lemma_unpadded_digits_ascii(n / 10);
        let d = spec_unpadded_digits(n);
        assert(forall|i: int|
            0 <= i < d.len() - 1 ==> d[i] == spec_unpadded_digits(n / 10)[i]);
        assert(forall|i: int| 0 <= i < d.len() ==> 0x30 <= #[trigger] d[i] <= 0x39);
    }
}


/// A width of zero digits of the number zero is a run of `'0'` bytes.
proof fn lemma_amount_digits_of_zero(k: nat)
    ensures
        spec_amount_digits(0, k) == Seq::new(k, |i: int| 0x30u8),
    decreases k,
{
    if k > 0 {
        lemma_amount_digits_of_zero((k - 1) as nat);
        assert(spec_amount_digits(0, k) =~= Seq::new(k, |i: int| 0x30u8));
    } else {
        assert(spec_amount_digits(0, 0) =~= Seq::new(0, |i: int| 0x30u8));
    }
}

/// A zero-padded amount field is exactly the plain decimal of the amount
/// behind a run of `'0'` bytes, whenever the decimal fits the width: the
/// field carries the amount itself.
pub proof fn lemma_amount_digits_zero_padded(n: nat, w: nat)
    requires
        spec_unpadded_digits(n).len() <= w,
    ensures
        spec_amount_digits(n, w) == Seq::new(
            (w - spec_unpadded_digits(n).len()) as nat,
            |i: int| 0x30u8,
        ) + spec_unpadded_digits(n),
    decreases n,
{
    let u = spec_unpadded_digits(n);
    if n < 10 {
        lemma_amount_digits_of_zero((w - 1) as nat);
        assert(spec_amount_digits(n, w) == spec_amount_digits(0, (w - 1) as nat).push(
            (0x30 + n) as u8,
        ));
        assert(spec_amount_digits(n, w) =~= Seq::new((w - u.len()) as nat, |i: int| 0x30u8) + u);
    } else {
        let t = spec_unpadded_digits(n / 10);
        assert(u == t.push((0x30 + n % 10) as u8));
        lemma_amount_digits_zero_padded(n / 10, (w - 1) as nat);
        assert(spec_amount_digits(n, w) == spec_amount_digits(n / 10, (w - 1) as nat).push(
            (0x30 + n % 10) as u8,
        ));
        assert(spec_amount_digits(n, w) =~= Seq::new((w - u.len()) as nat, |i: int| 0x30u8) + u);
    }
}

} // verus!
