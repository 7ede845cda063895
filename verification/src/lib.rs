//! Driver library for bank-card payment terminals ("TPE", terminal de
//! paiement électronique) of the Concert family: V2 and V3 binary frames,
//! V3 TLV, Caisse-AP over IP and SmilePay.
//!
//! The library holds the protocol logic: the frame codec (STX/ETX/LRC),
//! the payload builders, the tag-length-value scanner, the response
//! decoders, the per-transaction session decisions and the diagnostic log
//! buffer. Transport I/O (serial line, TCP socket, files) is left to the
//! host, which feeds bytes in and carries bytes out.

use vstd::prelude::*;

pub mod codec;
pub mod protocols;
pub mod response;
pub mod session;
pub mod tlvscan;
pub mod types;

pub use codec::{bytes_to_hex, calculate_lrc, frame_bytes, frame_message, locate_frame};
pub use response::{parse_caisse_ap_response, parse_response};
pub use session::{
    build_ascii_fallback,
    build_payment_message,
    cancel_sequence,
    cancelled_outcome,
    classify_test_reply,
    log_append,
    on_handshake_reply,
    on_response_chunk,
    on_send_probe,
    parse_descriptor,
};
pub use tlvscan::{extract_tlv_value, tlv_pairs};
pub use protocols::{
    build_caisse_ap_ip,
    build_yavin_cloud_payload,
    build_yavin_local_payload,
    build_concert_v2,
    build_concert_v3_binary,
    build_concert_v3_tlv,
    build_smilepay,
    format_pos_number,
    parse_concert_response,
    tlv,
    ConcertResponse,
    TpeProtocol,
};
pub use types::{
    HardwareStatus,
    PrinterConfig,
    SerialPortInfo,
    SystemPrinterInfo,
    TpeConfig,
    TpePaymentRequest,
    TpePaymentResponse,
    TpeTestResult,
};

verus! {

} // verus!
