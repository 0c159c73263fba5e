//! Barcode and two-dimensional symbol kinds that errors name.

use vstd::prelude::*;

verus! {

/// One-dimensional barcode symbologies of `GS k`.
#[derive(Debug, Clone, Copy, PartialEq, Eq, Structural)]
pub enum BarcodeKind {
    UpcA,
    UpcE,
    Ean13,
    Ean8,
    Code39,
    Itf,
    Codabar,
    Code93,
    Code128,
}

/// The name `{:?}` prints for a barcode kind.
pub open spec fn barcode_kind_name(k: BarcodeKind) -> Seq<char> {
    match k {
        BarcodeKind::UpcA => "UpcA"@,
        BarcodeKind::UpcE => "UpcE"@,
        BarcodeKind::Ean13 => "Ean13"@,
        BarcodeKind::Ean8 => "Ean8"@,
        BarcodeKind::Code39 => "Code39"@,
        BarcodeKind::Itf => "Itf"@,
        BarcodeKind::Codabar => "Codabar"@,
        BarcodeKind::Code93 => "Code93"@,
        BarcodeKind::Code128 => "Code128"@,
    }
}

impl BarcodeKind {
    /// The variant's name.
    pub fn name(self) -> (r: &'static str)
        ensures
            r@ == barcode_kind_name(self),
    {
        match self {
            BarcodeKind::UpcA => "UpcA",
            BarcodeKind::UpcE => "UpcE",
            BarcodeKind::Ean13 => "Ean13",
            BarcodeKind::Ean8 => "Ean8",
            BarcodeKind::Code39 => "Code39",
            BarcodeKind::Itf => "Itf",
            BarcodeKind::Codabar => "Codabar",
            BarcodeKind::Code93 => "Code93",
            BarcodeKind::Code128 => "Code128",
        }
    }
}

/// GS1 DataBar symbol types.
#[derive(Debug, Clone, Copy, PartialEq, Eq, Structural)]
pub enum Gs1DataBarType {
    Omnidirectional,
    Truncated,
    Limited,
    Expanded,
    Stacked,
    StackedOmnidirectional,
    ExpandedStacked,
}

/// The name `{:?}` prints for a GS1 DataBar type.
pub open spec fn gs1_type_name(k: Gs1DataBarType) -> Seq<char> {
    match k {
        Gs1DataBarType::Omnidirectional => "Omnidirectional"@,
        Gs1DataBarType::Truncated => "Truncated"@,
        Gs1DataBarType::Limited => "Limited"@,
        Gs1DataBarType::Expanded => "Expanded"@,
        Gs1DataBarType::Stacked => "Stacked"@,
        Gs1DataBarType::StackedOmnidirectional => "StackedOmnidirectional"@,
        Gs1DataBarType::ExpandedStacked => "ExpandedStacked"@,
    }
}

impl Gs1DataBarType {
    /// The variant's name.
    pub fn name(self) -> (r: &'static str)
        ensures
            r@ == gs1_type_name(self),
    {
        match self {
            Gs1DataBarType::Omnidirectional => "Omnidirectional",
            Gs1DataBarType::Truncated => "Truncated",
            Gs1DataBarType::Limited => "Limited",
            Gs1DataBarType::Expanded => "Expanded",
            Gs1DataBarType::Stacked => "Stacked",
            Gs1DataBarType::StackedOmnidirectional => "StackedOmnidirectional",
            Gs1DataBarType::ExpandedStacked => "ExpandedStacked",
        }
    }
}

} // verus!
