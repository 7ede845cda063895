//! Plain data carried between the host and the driver.

use vstd::prelude::*;

verus! {

/// Connection settings for one payment terminal.
#[derive(Debug, Clone)]
pub struct TpeConfig {
    pub name: String,
    /// Serial device name, or `host:port` for TCP.
    pub port: String,
    pub baud_rate: u32,
    pub pos_number: String,
    pub protocol_version: u8,
}

/// One payment to run on the terminal.
#[derive(Debug)]
pub struct TpePaymentRequest {
    pub amount_cents: u32,
    pub payment_mode: String,
}

/// Outcome of a payment attempt.
#[derive(Debug)]
pub struct TpePaymentResponse {
    pub success: bool,
    pub transaction_result: String,
    pub amount_cents: u32,
    pub authorization_number: Option<String>,
    pub error_message: Option<String>,
    pub raw_response: Option<String>,
}

/// Outcome of a connection test.
#[derive(Debug)]
pub struct TpeTestResult {
    pub connected: bool,
    pub message: String,
    pub raw_data: Option<String>,
}

/// One serial port found on the machine.
#[derive(Debug, Clone)]
pub struct SerialPortInfo {
    pub name: String,
    pub port_type: String,
    pub manufacturer: Option<String>,
    pub product: Option<String>,
}

/// Settings of the receipt printer.
#[derive(Debug)]
pub struct PrinterConfig {
    pub port: String,
    pub baud_rate: u32,
    pub paper_width: u8,
}

/// Whether the printer and the cash drawer answer on their ports.
#[derive(Debug)]
pub struct HardwareStatus {
    pub printer_connected: bool,
    pub printer_port: Option<String>,
    pub drawer_connected: bool,
    pub drawer_port: Option<String>,
}

/// One printer known to the system spooler.
#[derive(Debug)]
pub struct SystemPrinterInfo {
    pub name: String,
    pub driver_name: String,
    pub is_default: bool,
}

} // verus!
