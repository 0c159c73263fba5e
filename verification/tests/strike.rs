use tm20::geometry::FRAC;
use tm20::printer::graphics::width_bytes;
use tm20::strike::{from_mask, placeholder, Strike};

#[test]
fn ink_keeps_negative_bearing_and_descender() {
    let coverage = vec![255u8; 8 * 12];
    // 10.0 px of advance is 640 units of 26.6
    let strike = from_mask(-4, 10, 8, 12, &coverage, 10 * FRAC);
    assert_eq!(strike.left(), -4);
    assert_eq!(strike.top(), 10);
    let ink = strike.ink();
    assert!(!ink.is_empty());
    assert_eq!(ink.x0().units(), i64::from(-4) * i64::from(FRAC));
    assert_eq!(ink.y0().units(), i64::from(-10) * i64::from(FRAC));
    assert_eq!(ink.x1().units(), i64::from(4) * i64::from(FRAC));
    assert_eq!(ink.y1().units(), i64::from(2) * i64::from(FRAC));
}

#[test]
fn empty_coverage_is_empty_ink() {
    assert!(Strike::empty(64).ink().is_empty());
    assert!(from_mask(0, 0, 0, 0, &[], FRAC).ink().is_empty());
}

#[test]
fn placeholder_is_a_hollow_box_on_the_baseline() {
    let box_ = placeholder(31);
    assert_eq!((box_.width(), box_.height()), (17, 20));
    assert_eq!(box_.top(), 20, "stands on the baseline");
    assert!(box_.advance_units() > i32::from(box_.width()) * FRAC);
    let stride = width_bytes(box_.width());
    let bits = box_.bits();
    let bit = |x: usize, y: usize| bits[y * stride + x / 8] & (0x80 >> (x % 8)) != 0;
    assert!(bit(0, 0) && bit(16, 19) && bit(8, 0) && bit(0, 10));
    assert!(!bit(8, 10), "the middle is paper");
    let tiny = placeholder(1);
    assert!(tiny.width() >= 3 && tiny.height() >= 3);
}

#[test]
fn mask_packs_dots_at_the_ink_cut() {
    // 10 x 2: coverage 96 and above is black, below is paper
    let mut coverage = vec![0u8; 20];
    coverage[0] = 96;
    coverage[1] = 95;
    coverage[9] = 255;
    coverage[10] = 200;
    let s = from_mask(1, 2, 10, 2, &coverage, 7);
    assert_eq!(s.width(), 10);
    assert_eq!(s.height(), 2);
    assert_eq!(s.advance_units(), 7);
    assert_eq!(s.bits(), &[0b1000_0000, 0b0100_0000, 0b1000_0000, 0b0000_0000]);
}

#[test]
fn short_or_oversized_masks_are_empty() {
    let s = from_mask(3, 4, 4, 4, &[255; 15], 5);
    assert_eq!((s.width(), s.height(), s.left(), s.top()), (0, 0, 0, 0));
    assert_eq!(s.advance_units(), 5);
    assert!(s.bits().is_empty());
    let s = from_mask(0, 0, 70_000, 1, &[], 9);
    assert_eq!(s.width(), 0);
    assert_eq!(s.advance_units(), 9);
}

#[test]
fn placeholder_geometry_scales_with_ppem() {
    let s = Strike::placeholder(100);
    assert_eq!((s.width(), s.height()), (55, 65));
    assert_eq!(s.left(), 10);
    assert_eq!(s.advance_units(), (55 + 20) * FRAC);
    let stride = width_bytes(s.width());
    assert_eq!(s.bits().len(), stride * 65);
    // stroke is 100 / 16 = 6 dots: dot (5, 30) is black, (6, 30) paper
    let bits = s.bits();
    let bit = |x: usize, y: usize| bits[y * stride + x / 8] & (0x80 >> (x % 8)) != 0;
    assert!(bit(5, 30));
    assert!(!bit(6, 30));
    // padding past the width stays paper
    assert!(!bit(55, 0));
    let ink = s.ink();
    assert_eq!(ink.y1().units(), 0);
    assert_eq!(ink.y0().units(), -65 * i64::from(FRAC));
}

#[test]
fn zero_ppem_is_drawn_like_one() {
    let a = placeholder(0);
    let b = placeholder(1);
    assert_eq!((a.width(), a.height(), a.advance_units()), (b.width(), b.height(), b.advance_units()));
    assert_eq!(a.bits(), b.bits());
    assert_eq!(a.advance_units(), 3 * FRAC);
}

#[test]
fn width_bytes_rounds_up_to_whole_bytes() {
    assert_eq!(width_bytes(0), 0);
    assert_eq!(width_bytes(1), 1);
    assert_eq!(width_bytes(8), 1);
    assert_eq!(width_bytes(9), 2);
    assert_eq!(width_bytes(576), 72);
}
