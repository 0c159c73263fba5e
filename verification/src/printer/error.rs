//! Typed errors of the printer crate. Payloads are data; each error has a
//! message that says what is out of range.

use vstd::prelude::*;
use vstd::string::StringExecFns;

use crate::printer::symbol::{barcode_kind_name, gs1_type_name, BarcodeKind, Gs1DataBarType};
use crate::text::{
    debug_bytes, decimal, hex4, hex_byte, push_debug_bytes, push_decimal, push_hex4, push_hex_byte,
};

verus! {

/// A command that cannot be encoded as given.
#[derive(Debug, Clone, PartialEq, Eq)]
#[non_exhaustive]
#[allow(inconsistent_fields)]
pub enum EncodeError {
    Size { width: u8, height: u8 },
    BarcodeData { kind: BarcodeKind },
    BarcodeWidth(u8),
    BarcodeHeight(u8),
    BarcodeTooLong { len: usize },
    QrTooLong { len: usize },
    QrSize(u8),
    QrModel(u8),
    SymbolDataLength { symbol: &'static str, len: usize, max: usize },
    HriFont(u8),
    Pdf417Columns(u8),
    Pdf417Rows(u8),
    Pdf417Width(u8),
    Pdf417RowHeight(u8),
    Pdf417CorrectionRatio(u8),
    DataMatrixSize(u8),
    DataMatrixType { rows: u8, cols: u8 },
    Gs1DataEmpty,
    Gs1Data { kind: Gs1DataBarType, len: usize },
    Gs1ModuleWidth(u8),
    Gs2dTooLong { len: usize },
    GraphicsPackedLen { expected: usize, got: usize },
    GraphicsTooLong { len: usize },
    PrintSpeed(u8),
}

/// The message of an encoding error.
pub open spec fn encode_message(e: EncodeError) -> Seq<char> {
    match e {
        EncodeError::Size { width, height } => "size width="@ + decimal(width as nat) + " height="@ + decimal(height as nat) + " not in 1..=8"@,
        EncodeError::BarcodeData { kind } => "invalid "@ + barcode_kind_name(kind) + " payload"@,
        EncodeError::BarcodeWidth(n) => "barcode width "@ + decimal(n as nat) + " not in 2..=6"@,
        EncodeError::BarcodeHeight(n) => "barcode height "@ + decimal(n as nat) + " is 0"@,
        EncodeError::BarcodeTooLong { len } => "barcode payload length "@ + decimal(len as nat) + " exceeds 255"@,
        EncodeError::QrTooLong { len } => "QR data length "@ + decimal(len as nat) + " not in 1..=7089"@,
        EncodeError::QrSize(n) => "QR module size "@ + decimal(n as nat) + " not in 1..=16"@,
        EncodeError::QrModel(n) => "QR model "@ + decimal(n as nat) + " is not supported by TM-T20III"@,
        EncodeError::SymbolDataLength { symbol, len, max } => symbol@ + " data length "@ + decimal(len as nat) + " not in 1..="@ + decimal(max as nat),
        EncodeError::HriFont(n) => "HRI font "@ + decimal(n as nat) + " is not supported by TM-T20III"@,
        EncodeError::Pdf417Columns(n) => "PDF417 columns "@ + decimal(n as nat) + " not in 0..=30"@,
        EncodeError::Pdf417Rows(n) => "PDF417 rows "@ + decimal(n as nat) + " not in 0 or 3..=90"@,
        EncodeError::Pdf417Width(n) => "PDF417 width "@ + decimal(n as nat) + " not in 1..=8"@,
        EncodeError::Pdf417RowHeight(n) => "PDF417 row height "@ + decimal(n as nat) + " not in 2..=8"@,
        EncodeError::Pdf417CorrectionRatio(n) => "PDF417 correction ratio "@ + decimal(n as nat) + " not in 1..=40"@,
        EncodeError::DataMatrixSize(n) => "DataMatrix size "@ + decimal(n as nat) + " not in 2..=16"@,
        EncodeError::DataMatrixType { rows, cols } => "DataMatrix type "@ + decimal(rows as nat) + "x"@ + decimal(cols as nat) + " is not a legal size"@,
        EncodeError::Gs1DataEmpty => "GS1 DataBar data is empty"@,
        EncodeError::Gs1Data { kind, len } => "GS1 DataBar "@ + gs1_type_name(kind) + " data length "@ + decimal(len as nat) + " is not a legal payload"@,
        EncodeError::Gs1ModuleWidth(n) => "GS1 module width "@ + decimal(n as nat) + " not in 2..=8"@,
        EncodeError::Gs2dTooLong { len } => "GS ( k payload length "@ + decimal(len as nat) + " exceeds 65535"@,
        EncodeError::GraphicsPackedLen { expected, got } => "graphics packed length "@ + decimal(got as nat) + ", expected "@ + decimal(expected as nat),
        EncodeError::GraphicsTooLong { len } => "graphics payload length "@ + decimal(len as nat) + " exceeds 65535"@,
        EncodeError::PrintSpeed(n) => "print speed "@ + decimal(n as nat) + " not in 1..=13"@,
    }
}

impl EncodeError {
    /// The message: what was given and the range it should be in.
    pub fn message(&self) -> (r: String)
        ensures
            r@ == encode_message(*self),
    {
        match *self {
            EncodeError::Size { width, height } => {
                let mut s = String::from_str("size width=");
                push_decimal(&mut s, width as u64);
                s.append(" height=");
                push_decimal(&mut s, height as u64);
                s.append(" not in 1..=8");
                s
            },
            EncodeError::BarcodeData { kind } => {
                let mut s = String::from_str("invalid ");
                s.append(kind.name());
                s.append(" payload");
                s
            },
            EncodeError::BarcodeWidth(n) => {
                let mut s = String::from_str("barcode width ");
                push_decimal(&mut s, n as u64);
                s.append(" not in 2..=6");
                s
            },
            EncodeError::BarcodeHeight(n) => {
                let mut s = String::from_str("barcode height ");
                push_decimal(&mut s, n as u64);
                s.append(" is 0");
                s
            },
            EncodeError::BarcodeTooLong { len } => {
                let mut s = String::from_str("barcode payload length ");
                push_decimal(&mut s, len as u64);
                s.append(" exceeds 255");
                s
            },
            EncodeError::QrTooLong { len } => {
                let mut s = String::from_str("QR data length ");
                push_decimal(&mut s, len as u64);
                s.append(" not in 1..=7089");
                s
            },
            EncodeError::QrSize(n) => {
                let mut s = String::from_str("QR module size ");
                push_decimal(&mut s, n as u64);
                s.append(" not in 1..=16");
                s
            },
            EncodeError::QrModel(n) => {
                let mut s = String::from_str("QR model ");
                push_decimal(&mut s, n as u64);
                s.append(" is not supported by TM-T20III");
                s
            },
            EncodeError::SymbolDataLength { symbol, len, max } => {
                let mut s = String::from_str(symbol);
                s.append(" data length ");
                push_decimal(&mut s, len as u64);
                s.append(" not in 1..=");
                push_decimal(&mut s, max as u64);
                s
            },
            EncodeError::HriFont(n) => {
                let mut s = String::from_str("HRI font ");
                push_decimal(&mut s, n as u64);
                s.append(" is not supported by TM-T20III");
                s
            },
            EncodeError::Pdf417Columns(n) => {
                let mut s = String::from_str("PDF417 columns ");
                push_decimal(&mut s, n as u64);
                s.append(" not in 0..=30");
                s
            },
            EncodeError::Pdf417Rows(n) => {
                let mut s = String::from_str("PDF417 rows ");
                push_decimal(&mut s, n as u64);
                s.append(" not in 0 or 3..=90");
                s
            },
            EncodeError::Pdf417Width(n) => {
                let mut s = String::from_str("PDF417 width ");
                push_decimal(&mut s, n as u64);
                s.append(" not in 1..=8");
                s
            },
            EncodeError::Pdf417RowHeight(n) => {
                let mut s = String::from_str("PDF417 row height ");
                push_decimal(&mut s, n as u64);
                s.append(" not in 2..=8");
                s
            },
            EncodeError::Pdf417CorrectionRatio(n) => {
                let mut s = String::from_str("PDF417 correction ratio ");
                push_decimal(&mut s, n as u64);
                s.append(" not in 1..=40");
                s
            },
            EncodeError::DataMatrixSize(n) => {
                let mut s = String::from_str("DataMatrix size ");
                push_decimal(&mut s, n as u64);
                s.append(" not in 2..=16");
                s
            },
            EncodeError::DataMatrixType { rows, cols } => {
                let mut s = String::from_str("DataMatrix type ");
                push_decimal(&mut s, rows as u64);
                s.append("x");
                push_decimal(&mut s, cols as u64);
                s.append(" is not a legal size");
                s
            },
            EncodeError::Gs1DataEmpty => {
                let mut s = String::from_str("GS1 DataBar data is empty");
                s
            },
            EncodeError::Gs1Data { kind, len } => {
                let mut s = String::from_str("GS1 DataBar ");
                s.append(kind.name());
                s.append(" data length ");
                push_decimal(&mut s, len as u64);
                s.append(" is not a legal payload");
                s
            },
            EncodeError::Gs1ModuleWidth(n) => {
                let mut s = String::from_str("GS1 module width ");
                push_decimal(&mut s, n as u64);
                s.append(" not in 2..=8");
                s
            },
            EncodeError::Gs2dTooLong { len } => {
                let mut s = String::from_str("GS ( k payload length ");
                push_decimal(&mut s, len as u64);
                s.append(" exceeds 65535");
                s
            },
            EncodeError::GraphicsPackedLen { expected, got } => {
                let mut s = String::from_str("graphics packed length ");
                push_decimal(&mut s, got as u64);
                s.append(", expected ");
                push_decimal(&mut s, expected as u64);
                s
            },
            EncodeError::GraphicsTooLong { len } => {
                let mut s = String::from_str("graphics payload length ");
                push_decimal(&mut s, len as u64);
                s.append(" exceeds 65535");
                s
            },
            EncodeError::PrintSpeed(n) => {
                let mut s = String::from_str("print speed ");
                push_decimal(&mut s, n as u64);
                s.append(" not in 1..=13");
                s
            },
        }
    }
}

/// A status byte that is not a status reply.
#[derive(Debug, Clone, Copy, PartialEq, Eq, Structural)]
#[non_exhaustive]
pub enum StatusError {
    BadPattern { byte: u8 },
}

/// The message of a status error.
pub open spec fn status_message(e: StatusError) -> Seq<char> {
    match e {
        StatusError::BadPattern { byte } => "status byte "@ + hex_byte(byte) + " is not 0xx1xx10"@,
    }
}

impl StatusError {
    /// The message, with the byte in hex.
    pub fn message(&self) -> (r: String)
        ensures
            r@ == status_message(*self),
    {
        match *self {
            StatusError::BadPattern { byte } => {
                let mut s = String::from_str("status byte ");
                push_hex_byte(&mut s, byte);
                s.append(" is not 0xx1xx10");
                s
            },
        }
    }
}

/// An identity reply that is not one the printer sends.
#[derive(Debug, Clone, PartialEq, Eq)]
#[non_exhaustive]
pub enum IdentifyError {
    Unexpected { got: Vec<u8> },
}

/// The message of an identify error.
pub open spec fn identify_message(got: Seq<u8>) -> Seq<char> {
    "unexpected identity reply "@ + debug_bytes(got)
}

impl IdentifyError {
    /// The message, with the reply as a list of bytes.
    pub fn message(&self) -> (r: String)
        ensures
            match self {
                IdentifyError::Unexpected { got } => r@ == identify_message(got@),
            },
    {
        match self {
            IdentifyError::Unexpected { got } => {
                let mut s = String::from_str("unexpected identity reply ");
                push_debug_bytes(&mut s, got.as_slice());
                s
            },
        }
    }
}

/// A reply frame that does not hold together.
#[derive(Debug, Clone, PartialEq, Eq)]
#[non_exhaustive]
#[allow(inconsistent_fields)]
pub enum FramingError {
    UnexpectedEof,
    Overlength { max: usize, got: usize },
    WrongId { requested: [u8; 4], got: [u8; 4] },
}

/// The message of a framing error.
pub open spec fn framing_message(e: FramingError) -> Seq<char> {
    match e {
        FramingError::UnexpectedEof => "reply ended before the frame completed"@,
        FramingError::Overlength { max, got } => "reply length "@ + decimal(got as nat)
            + " exceeds bound "@ + decimal(max as nat),
        FramingError::WrongId { requested, got } => "completion id "@ + debug_bytes(got@)
            + " is not "@ + debug_bytes(requested@),
    }
}

impl FramingError {
    /// The message.
    pub fn message(&self) -> (r: String)
        ensures
            r@ == framing_message(*self),
    {
        match self {
            FramingError::UnexpectedEof => String::from_str("reply ended before the frame completed"),
            FramingError::Overlength { max, got } => {
                let mut s = String::from_str("reply length ");
                push_decimal(&mut s, *got as u64);
                s.append(" exceeds bound ");
                push_decimal(&mut s, *max as u64);
                s
            },
            FramingError::WrongId { requested, got } => {
                let mut s = String::from_str("completion id ");
                push_debug_bytes(&mut s, got.as_slice());
                s.append(" is not ");
                push_debug_bytes(&mut s, requested.as_slice());
                s
            },
        }
    }
}

/// A raster that cannot be built or sliced as asked.
#[derive(Debug, Clone, Copy, PartialEq, Eq, Structural)]
#[non_exhaustive]
#[allow(inconsistent_fields)]
pub enum RasterError {
    ZeroWidth,
    ZeroHeight,
    LengthMismatch { expected: usize, got: usize },
    Overflow,
    Alloc,
    InvalidRowRange,
}

/// The message of a raster error.
pub open spec fn raster_message(e: RasterError) -> Seq<char> {
    match e {
        RasterError::ZeroWidth => "raster width is 0"@,
        RasterError::ZeroHeight => "raster height is 0"@,
        RasterError::LengthMismatch { expected, got } => "raster packed length "@ + decimal(got as nat)
            + ", expected "@ + decimal(expected as nat),
        RasterError::Overflow => "raster dimension overflow"@,
        RasterError::Alloc => "raster allocation failed"@,
        RasterError::InvalidRowRange => "raster row range is empty or out of bounds"@,
    }
}

impl RasterError {
    /// The message.
    pub fn message(&self) -> (r: String)
        ensures
            r@ == raster_message(*self),
    {
        match *self {
            RasterError::ZeroWidth => String::from_str("raster width is 0"),
            RasterError::ZeroHeight => String::from_str("raster height is 0"),
            RasterError::LengthMismatch { expected, got } => {
                let mut s = String::from_str("raster packed length ");
                push_decimal(&mut s, got as u64);
                s.append(", expected ");
                push_decimal(&mut s, expected as u64);
                s
            },
            RasterError::Overflow => String::from_str("raster dimension overflow"),
            RasterError::Alloc => String::from_str("raster allocation failed"),
            RasterError::InvalidRowRange => String::from_str("raster row range is empty or out of bounds"),
        }
    }
}

/// The message for a USB printer that is not attached: the vendor and
/// product ids in four-digit hex, then the serial number when one was asked
/// for.
pub open spec fn usb_not_found_message(vid: u16, pid: u16, serial: Option<Seq<char>>) -> Seq<char> {
    "USB "@ + hex4(vid) + ":"@ + hex4(pid) + match serial {
        Some(s) => " serial "@ + s + " not found"@,
        None => " not found"@,
    }
}

/// The message for a USB printer that is not attached.
pub fn usb_not_found(vid: u16, pid: u16, serial: Option<&str>) -> (r: String)
    ensures
        r@ == usb_not_found_message(
            vid,
            pid,
            match serial {
                Some(s) => Some(s@),
                None => None,
            },
        ),
{
    let mut s = String::from_str("USB ");
    push_hex4(&mut s, vid);
    s.append(":");
    push_hex4(&mut s, pid);
    match serial {
        Some(n) => {
            s.append(" serial ");
            s.append(n);
            s.append(" not found");
        },
        None => {
            s.append(" not found");
        },
    }
    s
}

} // verus!
