use std::sync::Arc;

use tm20::error::Error;
use tm20::face::fallback::Segment;
use tm20::face::shaper::{
    advance_width, metric_tables, narrow_glyph_id, raw_glyph, shape_units, to_units,
};
use tm20::face::shape::{
    advance_fits_at, assemble, fallback_ppem, features_for, plan_run, scale, shaper_advance, strike_source,
    tracking_fits, tracking_units, FeatureTag, RawGlyph, RunPlan, ShapeKind, ShapedRun, Source, StrikeSource,
};
use tm20::geometry::{Advance, FRAC};
use tm20::strike::{from_mask, Strike};

fn raw(glyph_id: u16, cluster: u32, x_advance: i32) -> RawGlyph {
    RawGlyph { glyph_id, cluster, x_offset: 0, y_offset: 0, x_advance }
}

/// A capital: 10 x 20 dots of ink, bearing 2, standing on the baseline.
fn capital() -> Arc<Strike> {
    Arc::new(from_mask(2, 20, 10, 20, &[255; 200], 14 * FRAC))
}

fn h_run() -> ShapedRun {
    assemble("H", 0, &[raw(43, 0, 14 * FRAC)], &[capital()]).expect("H")
}

#[test]
fn translated_metrics_reject_unrepresentable_ascent() {
    let run = h_run();
    let dy = i64::try_from(i128::from(run.ink().y0().units()) - i128::from(i64::MIN)).unwrap();
    assert!(matches!(
        run.translate(Advance::zero(), Advance::from_units(dy)),
        Err(Error::CoordinateOverflow)
    ));
    let edge = run
        .translate(Advance::zero(), Advance::from_units(dy - 1))
        .unwrap();
    assert_eq!(edge.ascent().units(), i64::MAX);
}

#[test]
fn translate_near_signed_limits() {
    let run = h_run();
    assert!(!run.ink().is_empty());
    let ok = run
        .translate(Advance::from_units(100), Advance::from_units(-20))
        .expect("modest translate");
    assert!(!ok.ink().is_empty());
    assert_eq!(
        ok.glyphs()[0].x().units(),
        run.glyphs()[0].x().units() + 100
    );
    assert_eq!(ok.glyphs()[0].y().units(), run.glyphs()[0].y().units() - 20);
    let overflow = run.translate(Advance::from_units(i64::MAX), Advance::zero());
    assert!(
        matches!(overflow, Err(Error::CoordinateOverflow)),
        "pen overflow is an error, not empty ink"
    );
    let neg = run.translate(Advance::zero(), Advance::from_units(i64::MIN));
    assert!(
        matches!(neg, Err(Error::CoordinateOverflow)),
        "y negation overflow is an error, not a panic"
    );
}

#[test]
fn empty_run_is_empty() {
    let run = ShapedRun::empty();
    assert!(run.glyphs().is_empty());
    assert_eq!(run.advance(), Advance::zero());
    assert!(run.ink().is_empty());
    assert_eq!(run.ascent().units(), 0);
    assert_eq!(run.depth().units(), 0);
    assert_eq!(run.overhang().units(), 0);
    let same = run.translate(Advance::zero(), Advance::zero()).unwrap();
    assert!(same.glyphs().is_empty());
}

#[test]
fn a_capital_has_ascent_and_no_depth() {
    let run = h_run();
    assert_eq!(run.advance().units(), i64::from(14 * FRAC));
    assert_eq!(run.ascent().units(), i64::from(20 * FRAC));
    assert_eq!(run.depth().units(), 0);
    assert_eq!(run.overhang().units(), 0);
    assert_eq!(run.text(), "H");
    let ink = run.ink();
    assert_eq!((ink.x0().units(), ink.x1().units()), (i64::from(2 * FRAC), i64::from(12 * FRAC)));
}

#[test]
fn pens_follow_advances_offsets_and_tracking() {
    let glyphs = [
        RawGlyph { glyph_id: 5, cluster: 0, x_offset: 3, y_offset: -7, x_advance: 100 },
        RawGlyph { glyph_id: 6, cluster: 1, x_offset: 0, y_offset: 0, x_advance: 50 },
        RawGlyph { glyph_id: 7, cluster: 2, x_offset: -4, y_offset: 0, x_advance: 60 },
    ];
    let strikes = [capital(), capital(), capital()];
    let run = assemble("abc", 10, &glyphs, &strikes).unwrap();
    let xs: Vec<i64> = run.glyphs().iter().map(|g| g.x().units()).collect();
    assert_eq!(xs, vec![3, 110, 166]);
    assert_eq!(run.glyphs()[0].y().units(), -7);
    // no tracking after the last glyph
    assert_eq!(run.advance().units(), 100 + 10 + 50 + 10 + 60);
    // the run ink holds every glyph's ink
    for g in run.glyphs() {
        let gi = g.ink().unwrap();
        assert!(run.ink().x0() <= gi.x0() && gi.x1() <= run.ink().x1());
        assert!(run.ink().y0() <= gi.y0() && gi.y1() <= run.ink().y1());
    }
}

#[test]
fn a_notdef_glyph_advances_by_its_placeholder() {
    let boxed = Arc::new(Strike::placeholder(31));
    let run = assemble("x", 0, &[raw(0, 0, 999)], &[boxed.clone()]).unwrap();
    assert_eq!(run.advance().units(), i64::from(boxed.advance_units()));
    assert!(Arc::ptr_eq(run.glyphs()[0].strike_arc(), &boxed));
    assert_eq!(run.glyphs()[0].strike().width(), 17);
}

#[test]
fn a_pen_leaving_i32_is_an_overflow() {
    let glyphs = [raw(5, 0, i32::MAX), raw(6, 1, 1)];
    let strikes = [capital(), capital()];
    assert!(matches!(
        assemble("ab", 0, &glyphs, &strikes),
        Err(Error::CoordinateOverflow)
    ));
    // the last advance may reach the limit exactly
    assert!(assemble("a", 0, &[raw(5, 0, i32::MAX)], &[capital()]).is_ok());
}

#[test]
fn runs_are_planned_around_missing_glyphs() {
    let text = "a\u{1F600}b";
    let first = [raw(10, 0, 1), raw(0, 1, 1), raw(11, 5, 1)];
    assert_eq!(
        plan_run(text, &first, true).unwrap(),
        RunPlan::Split(vec![
            Segment { range: 0..1, fallback: false },
            Segment { range: 1..5, fallback: true },
            Segment { range: 5..6, fallback: false },
        ])
    );
    assert!(matches!(
        plan_run(text, &first, false),
        Err(Error::MissingGlyph { text: t }) if t == text
    ));
    let whole = [raw(10, 0, 1), raw(11, 1, 1)];
    assert_eq!(plan_run("ab", &whole, true).unwrap(), RunPlan::Primary);
    assert_eq!(plan_run("ab", &whole, false).unwrap(), RunPlan::Primary);
    // a presentation selector goes to the fallback even when nothing is missing
    let heart = "\u{2764}\u{FE0F}";
    let first = [raw(10, 0, 1), raw(11, 3, 1)];
    assert_eq!(
        plan_run(heart, &first, true).unwrap(),
        RunPlan::Split(vec![Segment { range: 0..6, fallback: true }])
    );
    assert_eq!(plan_run(heart, &first, false).unwrap(), RunPlan::Primary);
}

#[test]
fn strikes_come_from_the_face_that_shaped_them() {
    assert_eq!(strike_source(Source::Primary, 0, true), StrikeSource::Placeholder);
    assert_eq!(strike_source(Source::Fallback, 0, true), StrikeSource::Placeholder);
    assert_eq!(strike_source(Source::Primary, 7, false), StrikeSource::Primary);
    assert_eq!(strike_source(Source::Fallback, 7, true), StrikeSource::Fallback);
    assert_eq!(strike_source(Source::Fallback, 7, false), StrikeSource::Placeholder);
}

#[test]
fn the_fallback_ppem_is_scaled_and_at_least_one_dot() {
    assert_eq!(fallback_ppem(31, 100), 31);
    assert_eq!(fallback_ppem(31, 50), 16);
    assert_eq!(fallback_ppem(1, 10), 1);
    assert_eq!(fallback_ppem(0, 0), 1);
    assert_eq!(fallback_ppem(u16::MAX, 255), u16::MAX);
}

#[test]
fn features_by_kind_of_run() {
    let (kern, liga, calt) = (FeatureTag::Kern, FeatureTag::Liga, FeatureTag::Calt);
    assert_eq!(features_for(ShapeKind::Run), vec![kern, liga, calt]);
    assert_eq!(
        features_for(ShapeKind::Figure),
        vec![kern, liga, calt, FeatureTag::Tnum, FeatureTag::Lnum]
    );
    assert_eq!(features_for(ShapeKind::Mark), vec![kern, liga, calt, FeatureTag::Case]);
    assert_eq!(kern.tag(), u32::from_be_bytes(*b"kern"));
    assert_eq!(FeatureTag::Case.tag(), u32::from_be_bytes(*b"case"));
    assert_eq!(FeatureTag::Tnum.tag(), u32::from_be_bytes(*b"tnum"));
}

#[test]
fn scale_tracking_and_advances_in_26_6() {
    assert_eq!(scale(31), 31 * 64);
    assert_eq!(tracking_units(51, 50), 51 * 64 * 50 / 1000);
    assert_eq!(tracking_units(51, -50), -(51 * 64 * 50 / 1000));
    let inked = Strike::placeholder(31);
    assert_eq!(shaper_advance(&inked, 500, None, 31, 1000), inked.advance_units());
    let blank = Strike::empty(0);
    assert_eq!(shaper_advance(&blank, 500, None, 31, 1000), 500 * 31 * 64 / 1000);
    assert_eq!(shaper_advance(&blank, -500, None, 31, 1000), -(500 * 31 * 64 / 1000));
    assert_eq!(shaper_advance(&blank, 3, None, 10, 0), 3 * 640);
}

#[test]
fn font_units_scale_to_26_6_toward_zero() {
    assert_eq!(to_units(500, 31, 1000), 500 * 31 * 64 / 1000);
    assert_eq!(to_units(-500, 31, 1000), -(500 * 31 * 64 / 1000));
    assert_eq!(to_units(7, 10, 0), 7 * 640);
    assert_eq!(to_units(i32::MAX, u16::MAX, 1), i32::MAX);
    assert_eq!(to_units(i32::MIN, u16::MAX, 1), i32::MIN);
}

#[test]
fn shaper_glyphs_become_run_glyphs() {
    assert_eq!(narrow_glyph_id(41), 41);
    assert_eq!(narrow_glyph_id(65535), 65535);
    assert_eq!(narrow_glyph_id(65536), 0);
    let blank = Strike::empty(0);
    let g = raw_glyph((70_000, 3, 100, -50, 600), &blank, Some(560), 31, 1000);
    assert_eq!(g.glyph_id, (70_000 % 65_536) as u16);
    assert_eq!(g.cluster, 3);
    assert_eq!(g.x_offset, 100 * 31 * 64 / 1000);
    assert_eq!(g.y_offset, -(50 * 31 * 64 / 1000));
    assert_eq!(g.x_advance, 600 * 31 * 64 / 1000);
    let boxed = Strike::placeholder(31);
    let h = raw_glyph((5, 0, 0, 0, 600), &boxed, None, 31, 1000);
    assert_eq!(h.glyph_id, 5);
    assert_eq!(h.x_advance, boxed.advance_units());
    assert!(advance_fits_at(&boxed, i32::MAX, None, u16::MAX, 1000));
    assert!(!advance_fits_at(&blank, i32::MAX, None, u16::MAX, 1000));
    assert!(advance_fits_at(&blank, 600, None, 31, 1000));
}

#[test]
fn shaping_garbage_is_refused() {
    assert_eq!(shape_units(b"not a font", 0, "Hi", ShapeKind::Run), None);
}

#[test]
fn tracking_fits_where_the_product_stays_in_i32() {
    assert!(tracking_fits(51, 50));
    assert!(tracking_fits(51, -50));
    assert!(tracking_fits(u16::MAX, 512));
    assert!(!tracking_fits(u16::MAX, 513));
    assert!(!tracking_fits(u16::MAX, i16::MIN));
}

#[test]
fn a_strike_advance_keeps_the_shapers_kerning() {
    let boxed = Strike::placeholder(31);
    let own = boxed.advance_units();
    // the font advance is 600 units; the shaper kerned it to 560
    assert_eq!(shaper_advance(&boxed, 560, Some(600), 31, 1000), own - 40 * 31 * 64 / 1000);
    assert_eq!(shaper_advance(&boxed, 650, Some(600), 31, 1000), own + 50 * 31 * 64 / 1000);
    assert_eq!(shaper_advance(&boxed, 600, Some(600), 31, 1000), own);
    assert!(!advance_fits_at(&boxed, i32::MAX, Some(0), u16::MAX, 1));
    let h = raw_glyph((5, 0, 0, 0, 560), &boxed, Some(600), 31, 1000);
    assert_eq!(h.x_advance, own - 40 * 31 * 64 / 1000);
}

#[test]
fn advance_widths_come_from_hhea_and_hmtx() {
    let mut hhea = vec![0u8; 36];
    hhea[34] = 0;
    hhea[35] = 2;
    let hmtx = [0x02, 0x58, 0, 0, 0x01, 0xf4, 0, 0, 0, 7];
    assert_eq!(advance_width(&hhea, &hmtx, 0), Some(600));
    assert_eq!(advance_width(&hhea, &hmtx, 1), Some(500));
    assert_eq!(advance_width(&hhea, &hmtx, 9), Some(500));
    assert_eq!(advance_width(&hhea[..35], &hmtx, 0), None);
    assert_eq!(advance_width(&[0u8; 36], &hmtx, 0), None);
    assert_eq!(advance_width(&hhea, &hmtx[..5], 1), None);
    assert_eq!(metric_tables(b"not a font", 0), None);
}

#[test]
fn a_move_and_its_opposite_give_the_run_back() {
    let glyphs = [raw(5, 0, 100), raw(6, 1, 50)];
    let run = assemble("ab", 0, &glyphs, &[capital(), capital()]).unwrap();
    let there = run
        .translate(Advance::from_units(300), Advance::from_units(-45))
        .unwrap();
    let back = there
        .translate(Advance::from_units(-300), Advance::from_units(45))
        .unwrap();
    assert_eq!(back.glyphs().len(), run.glyphs().len());
    for (a, b) in back.glyphs().iter().zip(run.glyphs()) {
        assert_eq!((a.glyph_id(), a.x(), a.y()), (b.glyph_id(), b.x(), b.y()));
        assert!(Arc::ptr_eq(a.strike_arc(), b.strike_arc()));
    }
    assert_eq!(back.advance(), run.advance());
    assert_eq!(back.ink(), run.ink());
    assert_eq!(back.text(), run.text());
    let same = run.translate(Advance::zero(), Advance::zero()).unwrap();
    assert_eq!(same.ink(), run.ink());
    assert_eq!(same.glyphs()[1].x(), run.glyphs()[1].x());
}

#[test]
fn tracking_moves_each_pen_by_its_place_in_the_run() {
    let glyphs = [raw(5, 0, 100), raw(6, 1, 50), raw(7, 2, 60)];
    let strikes = [capital(), capital(), capital()];
    let plain = assemble("abc", 0, &glyphs, &strikes).unwrap();
    let spaced = assemble("abc", 7, &glyphs, &strikes).unwrap();
    for (i, (t, p)) in spaced.glyphs().iter().zip(plain.glyphs()).enumerate() {
        assert_eq!(t.x().units(), p.x().units() + 7 * i as i64);
    }
    assert_eq!(spaced.advance().units(), plain.advance().units() + 2 * 7);
}

#[test]
fn run_ink_is_the_least_box_of_its_glyphs() {
    let blank = Arc::new(Strike::empty(10 * FRAC));
    let none = assemble("  ", 0, &[raw(3, 0, 10 * FRAC), raw(3, 1, 10 * FRAC)], &[blank.clone(), blank])
        .unwrap();
    assert!(none.ink().is_empty());
    assert_eq!(none.ink(), tm20::geometry::InkBounds::empty());
    let run = h_run();
    let g = run.glyphs()[0].ink().unwrap();
    assert_eq!(run.ink(), g);
}
