use tm20::error::Error;
use tm20::face::parse::{decode_name, name_at, parse_postscript_name, u16_be};
use tm20::face::shape::ShapeKind;
use tm20::face::shaper::shape_units;

/// A `name` table with one record per `(platform, encoding, name_id, bytes)`.
fn name_table(records: &[(u16, u16, u16, &[u8])]) -> Vec<u8> {
    let count = records.len() as u16;
    let storage = 6 + 12 * count;
    let mut out = Vec::new();
    out.extend_from_slice(&0u16.to_be_bytes());
    out.extend_from_slice(&count.to_be_bytes());
    out.extend_from_slice(&storage.to_be_bytes());
    let mut strings = Vec::new();
    for (platform, encoding, name_id, bytes) in records {
        out.extend_from_slice(&platform.to_be_bytes());
        out.extend_from_slice(&encoding.to_be_bytes());
        out.extend_from_slice(&0u16.to_be_bytes());
        out.extend_from_slice(&name_id.to_be_bytes());
        out.extend_from_slice(&(bytes.len() as u16).to_be_bytes());
        out.extend_from_slice(&(strings.len() as u16).to_be_bytes());
        strings.extend_from_slice(bytes);
    }
    out.extend_from_slice(&strings);
    out
}

fn utf16be(s: &str) -> Vec<u8> {
    s.encode_utf16().flat_map(|u| u.to_be_bytes()).collect()
}

/// A single-font sfnt holding only `name`.
fn font_with_name(name: &[u8]) -> Vec<u8> {
    let mut out = Vec::new();
    out.extend_from_slice(&0x0001_0000u32.to_be_bytes());
    out.extend_from_slice(&1u16.to_be_bytes());
    out.extend_from_slice(&16u16.to_be_bytes());
    out.extend_from_slice(&0u16.to_be_bytes());
    out.extend_from_slice(&0u16.to_be_bytes());
    out.extend_from_slice(b"name");
    out.extend_from_slice(&0u32.to_be_bytes());
    out.extend_from_slice(&28u32.to_be_bytes());
    out.extend_from_slice(&(name.len() as u32).to_be_bytes());
    out.extend_from_slice(name);
    out
}

#[test]
fn big_endian_reads_stay_inside() {
    let b = [0x12, 0x34, 0x56];
    assert_eq!(u16_be(&b, 0), Some(0x1234));
    assert_eq!(u16_be(&b, 1), Some(0x3456));
    assert_eq!(u16_be(&b, 2), None);
    assert_eq!(u16_be(&b, usize::MAX), None);
}

#[test]
fn names_decode_by_platform() {
    assert_eq!(decode_name(3, 1, &utf16be("Helvetica")).as_deref(), Some("Helvetica"));
    assert_eq!(decode_name(0, 3, &utf16be("a\u{1F600}")).as_deref(), Some("a\u{1F600}"));
    // odd UTF-16 length, lone surrogate
    assert_eq!(decode_name(3, 1, &[0, 65, 0]), None);
    assert_eq!(decode_name(3, 1, &[0xD8, 0x3D, 0, 65]), None);
    assert_eq!(decode_name(3, 1, &[0xDE, 0x00]), None);
    // Mac Roman and the rest are ASCII only
    assert_eq!(decode_name(1, 0, b"Menlo-Regular").as_deref(), Some("Menlo-Regular"));
    assert_eq!(decode_name(1, 0, &[0x48, 0xE9]), None);
    assert_eq!(decode_name(3, 0, b"").as_deref(), Some(""));
}

#[test]
fn the_windows_unicode_name_is_preferred() {
    let mac = b"Mac-Name";
    let win = utf16be("Win-Name");
    let table = name_table(&[(1, 0, 6, mac), (3, 1, 6, &win), (3, 1, 4, b"xx")]);
    assert_eq!(parse_postscript_name(&table).as_deref(), Some("Win-Name"));
    // among equals the first wins; empty and undecodable records are skipped
    let uni = utf16be("First");
    let table = name_table(&[(3, 1, 6, b""), (0, 3, 6, &uni), (0, 4, 6, &utf16be("Second")), (1, 0, 6, &[0xff])]);
    assert_eq!(parse_postscript_name(&table).as_deref(), Some("First"));
    // no id 6 at all
    let table = name_table(&[(3, 1, 1, &win)]);
    assert_eq!(parse_postscript_name(&table), None);
}

#[test]
fn a_malformed_name_table_has_no_name() {
    let win = utf16be("Name");
    let mut table = name_table(&[(3, 1, 6, &win)]);
    table.truncate(table.len() - 1);
    assert_eq!(parse_postscript_name(&table), None);
    assert_eq!(parse_postscript_name(&[0, 0, 0]), None);
    // the count promises a second record that is not there
    let mut table = name_table(&[(3, 1, 6, &win)]);
    table[3] = 2;
    assert_eq!(parse_postscript_name(&table[..18]), None);
}

#[test]
fn garbage_bytes_are_a_font_error() {
    assert!(matches!(name_at(&[0, 1, 2, 3], 0), Err(Error::Font)));
}

#[test]
fn the_name_of_a_face_is_read_from_its_directory() {
    let name = name_table(&[(3, 1, 6, &utf16be("Tiny-Regular"))]);
    let font = font_with_name(&name);
    assert_eq!(name_at(&font, 0).unwrap().as_deref(), Some("Tiny-Regular"));
    // a single font has no second face
    assert!(matches!(name_at(&font, 1), Err(Error::Font)));
}

#[test]
fn a_font_without_a_cmap_shapes_to_notdef() {
    let font = font_with_name(&name_table(&[(3, 1, 6, &utf16be("Plain"))]));
    let glyphs = shape_units(&font, 0, "ab", ShapeKind::Run).expect("the font opens");
    assert_eq!(glyphs.len(), 2);
    assert!(glyphs.iter().all(|g| g.0 == 0));
    assert_eq!(glyphs.iter().map(|g| g.1).collect::<Vec<u32>>(), vec![0, 1]);
    assert_eq!(shape_units(&font, 1, "ab", ShapeKind::Run), None);
}
