use tm20::printer::error::{
    usb_not_found, EncodeError, FramingError, IdentifyError, RasterError, StatusError,
};
use tm20::printer::symbol::{BarcodeKind, Gs1DataBarType};

#[test]
fn encode_error_display_ranges() {
    assert_eq!(
        EncodeError::BarcodeWidth(1).message(),
        "barcode width 1 not in 2..=6"
    );
    assert_eq!(
        EncodeError::QrSize(0).message(),
        "QR module size 0 not in 1..=16"
    );
    assert_eq!(
        EncodeError::Pdf417Width(0).message(),
        "PDF417 width 0 not in 1..=8"
    );
    assert_eq!(
        EncodeError::Pdf417RowHeight(0).message(),
        "PDF417 row height 0 not in 2..=8"
    );
    assert_eq!(
        EncodeError::Gs1ModuleWidth(1).message(),
        "GS1 module width 1 not in 2..=8"
    );
    let gs1 = EncodeError::Gs1Data {
        kind: Gs1DataBarType::Stacked,
        len: 14,
    };
    let text = gs1.message();
    assert!(text.contains("14"), "{text}");
    assert!(text.contains("Stacked"), "{text}");
    assert_ne!(text, EncodeError::Gs1DataEmpty.message());
}

#[test]
fn every_encode_error_names_its_payload() {
    let cases: Vec<(EncodeError, &str)> = vec![
        (EncodeError::Size { width: 9, height: 0 }, "size width=9 height=0 not in 1..=8"),
        (EncodeError::BarcodeData { kind: BarcodeKind::Ean13 }, "invalid Ean13 payload"),
        (EncodeError::BarcodeHeight(0), "barcode height 0 is 0"),
        (EncodeError::BarcodeTooLong { len: 256 }, "barcode payload length 256 exceeds 255"),
        (EncodeError::QrTooLong { len: 7090 }, "QR data length 7090 not in 1..=7089"),
        (EncodeError::QrModel(1), "QR model 1 is not supported by TM-T20III"),
        (
            EncodeError::SymbolDataLength { symbol: "MaxiCode", len: 139, max: 138 },
            "MaxiCode data length 139 not in 1..=138",
        ),
        (EncodeError::HriFont(3), "HRI font 3 is not supported by TM-T20III"),
        (EncodeError::Pdf417Columns(31), "PDF417 columns 31 not in 0..=30"),
        (EncodeError::Pdf417Rows(2), "PDF417 rows 2 not in 0 or 3..=90"),
        (EncodeError::Pdf417CorrectionRatio(41), "PDF417 correction ratio 41 not in 1..=40"),
        (EncodeError::DataMatrixSize(17), "DataMatrix size 17 not in 2..=16"),
        (EncodeError::DataMatrixType { rows: 7, cols: 9 }, "DataMatrix type 7x9 is not a legal size"),
        (EncodeError::Gs1DataEmpty, "GS1 DataBar data is empty"),
        (
            EncodeError::Gs1Data { kind: Gs1DataBarType::Limited, len: 3 },
            "GS1 DataBar Limited data length 3 is not a legal payload",
        ),
        (EncodeError::Gs2dTooLong { len: 65536 }, "GS ( k payload length 65536 exceeds 65535"),
        (
            EncodeError::GraphicsPackedLen { expected: 72, got: 70 },
            "graphics packed length 70, expected 72",
        ),
        (EncodeError::GraphicsTooLong { len: 70000 }, "graphics payload length 70000 exceeds 65535"),
        (EncodeError::PrintSpeed(14), "print speed 14 not in 1..=13"),
    ];
    for (err, want) in cases {
        assert_eq!(err.message(), want);
    }
}

#[test]
fn status_byte_prints_in_hex() {
    assert_eq!(
        StatusError::BadPattern { byte: 0x1b }.message(),
        "status byte 0x1b is not 0xx1xx10"
    );
    assert_eq!(
        StatusError::BadPattern { byte: 0 }.message(),
        "status byte 0x00 is not 0xx1xx10"
    );
    assert_eq!(
        StatusError::BadPattern { byte: 0xff }.message(),
        "status byte 0xff is not 0xx1xx10"
    );
}

#[test]
fn replies_print_as_byte_lists() {
    assert_eq!(
        IdentifyError::Unexpected { got: vec![95, 0, 255] }.message(),
        "unexpected identity reply [95, 0, 255]"
    );
    assert_eq!(
        IdentifyError::Unexpected { got: vec![] }.message(),
        "unexpected identity reply []"
    );
    assert_eq!(
        FramingError::WrongId { requested: [1, 2, 3, 4], got: [9, 8, 7, 6] }.message(),
        "completion id [9, 8, 7, 6] is not [1, 2, 3, 4]"
    );
    assert_eq!(
        FramingError::Overlength { max: 80, got: 81 }.message(),
        "reply length 81 exceeds bound 80"
    );
    assert_eq!(
        FramingError::UnexpectedEof.message(),
        "reply ended before the frame completed"
    );
}

#[test]
fn raster_errors_say_what_is_wrong() {
    assert_eq!(RasterError::ZeroWidth.message(), "raster width is 0");
    assert_eq!(RasterError::ZeroHeight.message(), "raster height is 0");
    assert_eq!(
        RasterError::LengthMismatch { expected: 144, got: 143 }.message(),
        "raster packed length 143, expected 144"
    );
    assert_eq!(RasterError::Overflow.message(), "raster dimension overflow");
    assert_eq!(RasterError::Alloc.message(), "raster allocation failed");
    assert_eq!(
        RasterError::InvalidRowRange.message(),
        "raster row range is empty or out of bounds"
    );
}

#[test]
fn large_numbers_print_every_digit() {
    assert_eq!(
        EncodeError::GraphicsTooLong { len: 18_446_744_073 }.message(),
        "graphics payload length 18446744073 exceeds 65535"
    );
    assert_eq!(EncodeError::QrSize(255).message(), "QR module size 255 not in 1..=16");
}

#[test]
fn usb_not_found_pads_ids_to_four_hex_digits() {
    assert_eq!(usb_not_found(0x04b8, 0x0e28, None), "USB 04b8:0e28 not found");
    assert_eq!(usb_not_found(0x1, 0xabc, None), "USB 0001:0abc not found");
    assert_eq!(usb_not_found(0xffff, 0, None), "USB ffff:0000 not found");
}

#[test]
fn usb_not_found_names_the_serial() {
    assert_eq!(
        usb_not_found(0x04b8, 0x0e28, Some("X5K1234")),
        "USB 04b8:0e28 serial X5K1234 not found"
    );
}
