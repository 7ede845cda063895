use tpe_driver::codec::{calculate_lrc, frame_bytes, locate_frame, ETX, STX};
use tpe_driver::session::{HandshakeAction, ProbeAction};
use tpe_driver::{build_concert_v2, build_concert_v3_binary, format_pos_number, TpeProtocol};

#[test]
fn lrc_of_empty_is_zero() {
    assert_eq!(calculate_lrc(&[]), 0);
}

#[test]
fn lrc_xors_all_bytes() {
    assert_eq!(calculate_lrc(&[0x01, 0x02, 0x03]), 0x00);
    assert_eq!(calculate_lrc(&[0xFF]), 0xFF);
    assert_eq!(calculate_lrc(&[0x12, 0x34]), 0x26);
}

#[test]
fn frame_wraps_payload_with_stx_etx_lrc() {
    let payload = [0x41u8, 0x42, 0x43];
    let frame = frame_bytes(&payload);
    assert_eq!(frame[0], STX);
    assert_eq!(&frame[1..4], &payload);
    assert_eq!(frame[4], ETX);
    let expected_lrc = 0x41 ^ 0x42 ^ 0x43 ^ ETX;
    assert_eq!(frame[5], expected_lrc);
    assert_eq!(frame.len(), 6);
}

#[test]
fn locate_frame_finds_framed_body() {
    let frame = frame_bytes(&[0x41u8, 0x42, 0x43]);
    let (s, e) = locate_frame(&frame).expect("frame should be located");
    assert_eq!(s, 0);
    assert_eq!(e, 4);
    assert_eq!(&frame[s + 1..e], &[0x41, 0x42, 0x43]);
}

#[test]
fn locate_frame_rejects_etx_before_stx() {
    let buf = [ETX, 0x41, STX];
    assert!(locate_frame(&buf).is_none());
}

#[test]
fn locate_frame_rejects_missing_marks() {
    assert!(locate_frame(&[0x41, 0x42]).is_none());
}

#[test]
fn concert_v2_wire_bytes_for_small_amount() {
    // 500 cents on POS "1": ASCII payload "00100000500978".
    let frame = build_concert_v2(500, "1");
    let expected_payload = b"00100000500978";
    assert_eq!(frame[0], STX);
    assert_eq!(&frame[1..15], expected_payload);
    assert_eq!(frame[15], ETX);
    let mut lrc = ETX;
    for b in expected_payload.iter() {
        lrc ^= *b;
    }
    assert_eq!(frame[16], lrc);
    assert_eq!(frame.len(), 17);
}

#[test]
fn concert_v3_binary_payload_is_19_chars() {
    // 1234 cents on POS "02": ASCII payload "0002000000001234978".
    let frame = build_concert_v3_binary(1234, "02");
    assert_eq!(frame[0], STX);
    assert_eq!(&frame[1..20], b"0002000000001234978");
    assert_eq!(frame[20], ETX);
    assert_eq!(frame.len(), 22);
}

#[test]
fn pos_number_normalizes_to_two_digits() {
    assert_eq!(format_pos_number("1"), "01");
    assert_eq!(format_pos_number(""), "01");
    assert_eq!(format_pos_number("02"), "02");
    assert_eq!(format_pos_number("123"), "12");
}

#[test]
fn protocol_version_bytes_map_to_selectors() {
    assert_eq!(TpeProtocol::from_version(2), TpeProtocol::ConcertV2);
    assert_eq!(TpeProtocol::from_version(3), TpeProtocol::ConcertV3Tlv);
    assert_eq!(TpeProtocol::from_version(4), TpeProtocol::ConcertV3Binary);
    assert_eq!(TpeProtocol::from_version(5), TpeProtocol::SmilePay);
    assert_eq!(TpeProtocol::from_version(6), TpeProtocol::YavinLocal);
    assert_eq!(TpeProtocol::from_version(7), TpeProtocol::YavinCloud);
    assert_eq!(TpeProtocol::from_version(0), TpeProtocol::ConcertV3Tlv);
    assert_eq!(TpeProtocol::from_version(99), TpeProtocol::ConcertV3Tlv);
}

#[test]
fn protocol_names_and_transport_kind() {
    assert_eq!(TpeProtocol::ConcertV2.name(), "Concert V2 (Binaire)");
    assert_eq!(TpeProtocol::CaisseApIp.name(), "Caisse-AP IP (Nepting)");
    assert!(TpeProtocol::YavinLocal.is_http());
    assert!(TpeProtocol::YavinCloud.is_http());
    assert!(!TpeProtocol::ConcertV2.is_http());
    assert!(!TpeProtocol::CaisseApIp.is_http());
}

#[test]
fn amounts_wider_than_the_field_keep_low_digits() {
    // A V2 amount field holds eight digits; the frame width stays fixed.
    let frame = build_concert_v2(4_294_967_295, "01");
    assert_eq!(frame.len(), 17);
    assert_eq!(&frame[1..4], b"001");
    assert_eq!(&frame[4..12], b"94967295");
}

#[test]
fn concert_v3_tlv_payload_fields_in_order() {
    // 1500 cents on POS "01": the TLV fields stand in their fixed order.
    let frame = tpe_driver::build_concert_v3_tlv(1500, "01");
    assert_eq!(frame[0], STX);
    let body = &frame[1..54];
    assert_eq!(&body[0..14], b"CZ0040320CA002");
    assert_eq!(&body[14..16], b"01");
    assert_eq!(&body[16..41], b"CE003978BA0010CD0010CB012");
    assert_eq!(&body[41..53], b"000000001500");
    assert_eq!(frame[54], ETX);
    assert_eq!(frame.len(), 56);
}

#[test]
fn smilepay_uses_concert_v3_tlv_frame() {
    assert_eq!(
        tpe_driver::build_smilepay(700, "03"),
        tpe_driver::build_concert_v3_tlv(700, "03")
    );
}

#[test]
fn caisse_ap_ip_adds_transaction_id_and_label() {
    let frame = tpe_driver::build_caisse_ap_ip(1500, "01");
    assert_eq!(frame.len(), 78);
    let body = &frame[1..76];
    assert_eq!(&body[0..14], b"CZ0040320CA002");
    assert_eq!(&body[14..16], b"01");
    assert_eq!(&body[41..53], b"000000001500");
    assert_eq!(&body[53..58], b"TI006");
    assert!(body[58..64].iter().all(|b| b.is_ascii_digit()));
    assert_eq!(&body[64..75], b"LB006CAISSE");
    assert_eq!(frame[76], ETX);
    // The frame carries a real LRC over body and ETX.
    let mut lrc = ETX;
    for b in body.iter() {
        lrc ^= *b;
    }
    assert_eq!(frame[77], lrc);
}

#[test]
fn parse_accepts_code_00_in_either_window() {
    // A V2-style body answers at offset 1, a V3-style body at offset 2.
    let reply = frame_bytes(b"0000000000500");
    let r = tpe_driver::parse_concert_response(&reply);
    assert!(r.success);
    assert_eq!(r.code, "00");
    assert_eq!(r.message, "Transaction acceptée");

    let v3_reply = frame_bytes(b"010000000500");
    let r3 = tpe_driver::parse_concert_response(&v3_reply);
    assert!(r3.success);
    assert_eq!(r3.code, "00");
}

#[test]
fn parse_maps_refusal_codes_to_messages() {
    let refused = frame_bytes(b"002xxxx");
    let r = tpe_driver::parse_concert_response(&refused);
    assert!(!r.success);
    assert_eq!(r.code, "02");
    assert_eq!(r.message, "Carte refusée");

    let cancelled = frame_bytes(b"001xxxx");
    let rc = tpe_driver::parse_concert_response(&cancelled);
    assert!(!rc.success);
    assert_eq!(rc.code, "01");
    assert_eq!(rc.message, "Transaction annulée");
}

#[test]
fn parse_rejects_unframed_data() {
    let r = tpe_driver::parse_concert_response(b"garbage");
    assert!(!r.success);
    assert_eq!(r.code, "??");
    assert_eq!(r.message, "Réponse invalide");
}

#[test]
fn parse_names_unknown_codes() {
    let reply = frame_bytes(b"099xxxx");
    let r = tpe_driver::parse_concert_response(&reply);
    assert!(!r.success);
    assert_eq!(r.code, "99");
    assert_eq!(r.message, "Erreur inconnue (99)");
}

#[test]
fn parse_picks_known_code_from_either_window() {
    // V2 window "20" is unknown; V3 window "02" is known: the known code wins.
    let reply = frame_bytes(b"5202");
    let r = tpe_driver::parse_concert_response(&reply);
    assert!(!r.success);
    assert_eq!(r.code, "02");
    assert_eq!(r.message, "Carte refusée");
}

#[test]
fn hex_renders_upper_case_pairs() {
    assert_eq!(tpe_driver::bytes_to_hex(&[0x02, 0xAB, 0x7F]), "02 AB 7F");
    assert_eq!(tpe_driver::bytes_to_hex(&[]), "");
    assert_eq!(tpe_driver::bytes_to_hex(&[0x00]), "00");
}

#[test]
fn payment_message_dispatches_on_version_byte() {
    assert_eq!(
        tpe_driver::build_payment_message(500, "1", 2),
        tpe_driver::build_concert_v2(500, "1")
    );
    assert_eq!(
        tpe_driver::build_payment_message(1234, "02", 4),
        tpe_driver::build_concert_v3_binary(1234, "02")
    );
    assert_eq!(
        tpe_driver::build_payment_message(1500, "01", 3),
        tpe_driver::build_concert_v3_tlv(1500, "01")
    );
    assert_eq!(
        tpe_driver::build_payment_message(1500, "01", 5),
        tpe_driver::build_concert_v3_tlv(1500, "01")
    );
    assert_eq!(
        tpe_driver::build_payment_message(1500, "01", 0),
        tpe_driver::build_concert_v3_tlv(1500, "01")
    );
}

#[test]
fn caisse_ap_approves_on_authorization_code() {
    // CV=01 and AL=1 do not refuse when an authorization code is present.
    let reply = frame_bytes(b"CV00201AC006123456AL0011");
    let r = tpe_driver::parse_caisse_ap_response(&reply, 1500);
    assert!(r.success);
    assert_eq!(r.transaction_result, "APPROVED");
    assert_eq!(r.authorization_number.as_deref(), Some("123456"));
    assert!(r.error_message.is_none());
    assert_eq!(r.amount_cents, 1500);
}

#[test]
fn caisse_ap_refusal_names_the_code() {
    let reply = frame_bytes(b"CO00207");
    let r = tpe_driver::parse_caisse_ap_response(&reply, 1500);
    assert!(!r.success);
    assert_eq!(r.transaction_result, "REFUSED");
    assert_eq!(r.error_message.as_deref(), Some("Paiement refusé (Code: 07)"));
}

#[test]
fn caisse_ap_approves_on_cv_zero() {
    let reply = frame_bytes(b"CV00200");
    let r = tpe_driver::parse_caisse_ap_response(&reply, 100);
    assert!(r.success);
    assert!(r.authorization_number.is_none());
}

#[test]
fn caisse_ap_refusal_without_codes() {
    let reply = frame_bytes(b"AL0011");
    let r = tpe_driver::parse_caisse_ap_response(&reply, 100);
    assert!(!r.success);
    assert_eq!(r.error_message.as_deref(), Some("Paiement refusé"));
}

#[test]
fn tlv_format_error_mentions_format() {
    let reply = frame_bytes(b"AE00201AF00209");
    let r = tpe_driver::parse_response(&reply, 1000, "raw").unwrap();
    assert!(!r.success);
    assert_eq!(r.transaction_result, "AE=01,AF=09");
    let msg = r.error_message.unwrap();
    assert!(msg.contains("format"));
    assert_eq!(
        msg,
        "Erreur format message (protocole incompatible) (AE=01, AF=09)"
    );
}

#[test]
fn tlv_ae_ten_is_approval() {
    let reply = frame_bytes(b"AE00210");
    let r = tpe_driver::parse_response(&reply, 1000, "raw").unwrap();
    assert!(r.success);
    assert_eq!(r.transaction_result, "10");
    assert!(r.error_message.is_none());
}

#[test]
fn binary_response_through_parse_response() {
    let reply = frame_bytes(b"010000000500");
    let r = tpe_driver::parse_response(&reply, 500, "raw").unwrap();
    assert!(r.success);
    assert_eq!(r.transaction_result, "00");
    assert!(r.authorization_number.is_none());
    assert_eq!(r.raw_response.as_deref(), Some("raw"));
}

#[test]
fn unframed_response_is_invalid_format() {
    let r = tpe_driver::parse_response(b"noise", 500, "6E 6F 69 73 65").unwrap();
    assert!(!r.success);
    assert_eq!(r.transaction_result, "??");
    assert_eq!(
        r.error_message.as_deref(),
        Some("Format de réponse invalide: 6E 6F 69 73 65")
    );
}

#[test]
fn cancellation_sends_can_can_can_eot() {
    let bytes = tpe_driver::cancel_sequence();
    assert_eq!(bytes, vec![0x18, 0x18, 0x18, 0x04]);
    let outcome = tpe_driver::cancelled_outcome(500);
    assert!(!outcome.success);
    assert_eq!(outcome.transaction_result, "CANCELLED");
    assert_eq!(
        outcome.error_message.as_deref(),
        Some("Transaction cancelled by user")
    );
}

#[test]
fn cancellation_interrupts_a_response_loop() {
    // The driver sits in the response loop of a stub transport; once the
    // flag is seen, the cancel sequence goes to the stub and the outcome
    // is CANCELLED.
    let mut stub_received: Vec<u8> = Vec::new();
    let mut buffer: Vec<u8> = Vec::new();
    let mut outcome = None;
    for step in 0..10 {
        let cancelled = step >= 3;
        if cancelled {
            stub_received.extend_from_slice(&tpe_driver::cancel_sequence());
            outcome = Some(tpe_driver::cancelled_outcome(2000));
            break;
        }
        let (_ack, progress) = tpe_driver::on_response_chunk(&mut buffer, &[]);
        assert_eq!(progress, tpe_driver::session::ResponseProgress::Waiting);
    }
    assert_eq!(stub_received, vec![0x18, 0x18, 0x18, 0x04]);
    let outcome = outcome.unwrap();
    assert_eq!(outcome.transaction_result, "CANCELLED");
    assert!(!outcome.success);
}

#[test]
fn response_loop_acks_enq_and_stops_on_etx() {
    let mut buffer: Vec<u8> = Vec::new();
    let (ack, progress) = tpe_driver::on_response_chunk(&mut buffer, &[0x05]);
    assert!(ack);
    assert_eq!(progress, tpe_driver::session::ResponseProgress::Waiting);
    let (ack2, progress2) = tpe_driver::on_response_chunk(&mut buffer, &[0x02, 0x41, 0x03]);
    assert!(!ack2);
    assert_eq!(progress2, tpe_driver::session::ResponseProgress::Complete);
}

#[test]
fn response_loop_aborts_on_eot_without_stx() {
    let mut buffer: Vec<u8> = Vec::new();
    let (_ack, progress) = tpe_driver::on_response_chunk(&mut buffer, &[0x04]);
    assert_eq!(progress, tpe_driver::session::ResponseProgress::Aborted);
}

#[test]
fn handshake_and_probe_decisions() {
    assert_eq!(tpe_driver::on_handshake_reply(&[0x06]), HandshakeAction::Proceed);
    assert_eq!(
        tpe_driver::on_handshake_reply(&[0x05]),
        HandshakeAction::ReplyAckThenProceed
    );
    assert_eq!(tpe_driver::on_handshake_reply(&[]), HandshakeAction::Proceed);
    assert_eq!(tpe_driver::on_send_probe(&[0x05], false), ProbeAction::ReplyAckAndAwait);
    assert_eq!(tpe_driver::on_send_probe(&[0x05, 0x05], false), ProbeAction::AsciiFallback);
    assert_eq!(tpe_driver::on_send_probe(&[0x15], false), ProbeAction::AsciiFallback);
    assert_eq!(tpe_driver::on_send_probe(&[0x04], false), ProbeAction::AsciiFallback);
    assert_eq!(tpe_driver::on_send_probe(&[0x04], true), ProbeAction::Await);
    assert_eq!(tpe_driver::on_send_probe(&[0x06], false), ProbeAction::Await);
    assert_eq!(tpe_driver::on_send_probe(&[], false), ProbeAction::Await);
}

#[test]
fn ascii_fallback_line_formats_cents() {
    assert_eq!(tpe_driver::build_ascii_fallback(1050), b"DEBIT 10.50 EUR\r");
    assert_eq!(tpe_driver::build_ascii_fallback(500), b"DEBIT 5.00 EUR\r");
    assert_eq!(tpe_driver::build_ascii_fallback(7), b"DEBIT 0.07 EUR\r");
    assert_eq!(tpe_driver::build_ascii_fallback(0), b"DEBIT 0.00 EUR\r");
}

#[test]
fn test_reply_classification() {
    let tcp = tpe_driver::classify_test_reply(&[], true);
    assert!(tcp.connected);
    assert_eq!(tcp.message, "Connected to TPE via TCP ✓");
    let ack = tpe_driver::classify_test_reply(&[0x06], false);
    assert_eq!(ack.message, "Connected - ACK Received ✓");
    assert_eq!(ack.raw_data.as_deref(), Some("06"));
    let other = tpe_driver::classify_test_reply(&[0x15, 0x02], false);
    assert_eq!(other.message, "Connected - Response: 15 02");
    let silent = tpe_driver::classify_test_reply(&[], false);
    assert!(silent.connected);
    assert_eq!(silent.message, "Connected, no data received");
}

#[test]
fn descriptor_parsing_strips_marker_and_picks_transport() {
    let (clean, tcp, forced) = tpe_driver::parse_descriptor("192.168.1.50:8888");
    assert_eq!(clean, "192.168.1.50:8888");
    assert!(tcp);
    assert!(!forced);
    let (clean2, tcp2, forced2) = tpe_driver::parse_descriptor("COM3+ASCII");
    assert_eq!(clean2, "COM3");
    assert!(!tcp2);
    assert!(forced2);
    let (clean3, tcp3, forced3) = tpe_driver::parse_descriptor("/dev/ttyUSB0");
    assert_eq!(clean3, "/dev/ttyUSB0");
    assert!(!tcp3);
    assert!(!forced3);
}

#[test]
fn log_buffer_keeps_the_last_five_hundred() {
    let mut buf: Vec<String> = Vec::new();
    for i in 0..600 {
        tpe_driver::log_append(&mut buf, format!("line {}", i));
    }
    assert_eq!(buf.len(), 500);
    assert_eq!(buf[0], "line 100");
    assert_eq!(buf[499], "line 599");
}

#[test]
fn log_entry_format() {
    assert_eq!(
        tpe_driver::session::make_log_entry("2024-01-02 03:04:05.678", "hello"),
        "[2024-01-02 03:04:05.678] hello"
    );
}

#[test]
fn tlv_scanner_reads_fields_and_resynchronizes() {
    let pairs = tpe_driver::tlv_pairs(b"CA00201CB003978");
    assert_eq!(pairs.len(), 2);
    assert_eq!(&pairs[0].0, b"CA");
    assert_eq!(&pairs[0].1, b"01");
    assert_eq!(&pairs[1].0, b"CB");
    assert_eq!(&pairs[1].1, b"978");
    // One corrupted value byte: every other field still comes out.
    let pairs2 = tpe_driver::tlv_pairs(b"CA002Z1CB003978");
    assert_eq!(pairs2.len(), 2);
    assert_eq!(&pairs2[0].1, b"Z1");
    assert_eq!(&pairs2[1].0, b"CB");
    assert_eq!(&pairs2[1].1, b"978");
    // Leading noise is skipped.
    let pairs3 = tpe_driver::tlv_pairs(b"\x02CV00200\x03");
    assert_eq!(pairs3.len(), 1);
    assert_eq!(&pairs3[0].0, b"CV");
    assert_eq!(&pairs3[0].1, b"00");
}

#[test]
fn extract_tlv_value_reads_first_field() {
    assert_eq!(tpe_driver::extract_tlv_value("AE00201AF00209", "AF"), "09");
    assert_eq!(tpe_driver::extract_tlv_value("AE00201AF00209", "AE"), "01");
    assert_eq!(tpe_driver::extract_tlv_value("AE00201", "ZZ"), "");
    assert_eq!(tpe_driver::extract_tlv_value("AExxx01", "AE"), "");
}

#[test]
fn yavin_local_payload_is_plain_json() {
    let payload = tpe_driver::build_yavin_local_payload(500, "TID123");
    assert_eq!(
        payload,
        "{\"serial_number\":\"TID123\",\"amount\":500,\"currency\":\"EUR\",\"transaction_type\":\"PAYMENT\"}"
    );
}

#[test]
fn yavin_payloads_escape_and_parse_back() {
    // A terminal id holding a quote must come back escaped: real JSON
    // parsing reads the same id back out.
    let payload = tpe_driver::build_yavin_local_payload(75, "a\"b");
    let v: serde_json::Value = serde_json::from_str(&payload).expect("valid JSON");
    assert_eq!(v.get("serial_number").and_then(|x| x.as_str()), Some("a\"b"));
    assert_eq!(v.get("amount").and_then(|x| x.as_u64()), Some(75));
    assert_eq!(v.get("currency").and_then(|x| x.as_str()), Some("EUR"));

    let cloud = tpe_driver::build_yavin_cloud_payload(1200, "T9", "ref-7");
    let w: serde_json::Value = serde_json::from_str(&cloud).expect("valid JSON");
    assert_eq!(w.get("merchant_reference").and_then(|x| x.as_str()), Some("ref-7"));
    assert_eq!(w.get("transaction_type").and_then(|x| x.as_str()), Some("PAYMENT"));
}

#[test]
fn tlv_field_encoding() {
    assert_eq!(tpe_driver::tlv("CZ", "0320"), "CZ0040320");
    assert_eq!(tpe_driver::tlv("CB", "000000001500"), "CB012000000001500");
    assert_eq!(tpe_driver::tlv("BA", ""), "BA000");
}

#[test]
fn every_known_code_round_trips() {
    // A V2-style body whose second window holds no known code gives each
    // table code back, with its fixed message.
    let cases = [
        ("00", true, "Transaction acceptée"),
        ("01", false, "Transaction annulée"),
        ("02", false, "Carte refusée"),
        ("03", false, "Erreur communication"),
        ("10", false, "Fonction impossible"),
        ("11", false, "Timeout"),
    ];
    for (code, success, message) in cases {
        let mut body = b"0".to_vec();
        body.extend_from_slice(code.as_bytes());
        body.extend_from_slice(b"zzzz");
        let reply = frame_bytes(&body);
        let r = tpe_driver::parse_concert_response(&reply);
        assert_eq!(r.success, success, "code {}", code);
        assert_eq!(r.code, code);
        assert_eq!(r.message, message);
    }
}

#[test]
fn ascii_fallback_outcome_carries_the_reply() {
    let outcome = tpe_driver::session::ascii_fallback_outcome(b"OK", 300);
    assert!(!outcome.success);
    assert_eq!(outcome.transaction_result, "?");
    assert_eq!(
        outcome.error_message.as_deref(),
        Some("Mode ASCII utilisé. Réponse: OK")
    );
    assert_eq!(
        outcome.raw_response.as_deref(),
        Some("ASCII: OK | HEX: 4F 4B")
    );
}
