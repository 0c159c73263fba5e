//! Shaping: HarfRust turns text into glyphs in font units; the library
//! narrows their ids and scales their offsets and advances to 26.6 at the
//! run's ppem.

use harfrust::{Feature, FontRef, ShaperData, Tag, UnicodeBuffer};
use vstd::prelude::*;

use crate::face::parse::{be16_at, font_table, sfnt_opens, sfnt_table, u16_be};
use crate::face::shape::{
    advance_fits, advance_spec, div_toward_zero, features_for, features_spec, scale, shaper_advance,
    tag_value, FeatureTag, RawGlyph, ShapeKind,
};
use crate::geometry::FRAC;
use crate::strike::Strike;

verus! {

/// What HarfRust's shaper gives for `text` in the font at `index` of
/// `bytes`, with the features tagged `features` (big-endian tags) turned on and the script
/// and direction guessed from the text: for each glyph its id, cluster,
/// x and y offset and x advance, in font units.
pub uninterp spec fn harfrust_shape(
    bytes: Seq<u8>,
    index: u32,
    text: Seq<char>,
    features: Seq<u32>,
) -> Seq<(u32, u32, i32, i32, i32)>;

/// Opens the font at `index` of `bytes` (`harfrust::FontRef::from_index`)
/// and shapes `text` in it with HarfRust (`Shaper::shape`, after
/// `UnicodeBuffer::guess_segment_properties`), each feature of `features`
/// on over the whole text. Claims that `None` is exactly a refusal to open
/// and that the glyphs are the named result of the shaping on these
/// arguments.
#[verifier::external_body]
fn shape_font(bytes: &[u8], index: u32, text: &str, features: &[u32]) -> (r: Option<
    Vec<(u32, u32, i32, i32, i32)>,
>)
    ensures
        r is Some <==> sfnt_opens(bytes@, index),
        r matches Some(v) ==> v@ == harfrust_shape(bytes@, index, text@, features@),
{
    let font = FontRef::from_index(bytes, index).ok()?;
    let data = ShaperData::new(&font);
    let mut buf = UnicodeBuffer::new();
    buf.push_str(text);
    buf.guess_segment_properties();
    let feats: Vec<Feature> = features.iter().map(|t| Feature::new(Tag::from_u32(*t), 1, ..)).collect();
    let out = data.shaper(&font).build().shape(buf, &feats);
    let pairs = out.glyph_infos().iter().zip(out.glyph_positions());
    Some(pairs.map(|(g, p)| (g.glyph_id, g.cluster, p.x_offset, p.y_offset, p.x_advance)).collect())
}

/// The tags of the features a run of `kind` is shaped with, in order.
pub open spec fn feature_tags(kind: ShapeKind) -> Seq<u32> {
    features_spec(kind).map_values(|f: FeatureTag| tag_value(f))
}

/// Shapes `text` in the face at `index` of `bytes` with the features of a
/// run of `kind`: the shaper's glyphs in font units, or `None` when the
/// font does not open there.
pub fn shape_units(bytes: &[u8], index: u32, text: &str, kind: ShapeKind) -> (r: Option<
    Vec<(u32, u32, i32, i32, i32)>,
>)
    ensures
        r is Some <==> sfnt_opens(bytes@, index),
        r matches Some(v) ==> v@ == harfrust_shape(bytes@, index, text@, feature_tags(kind)),
{
    let features = features_for(kind);
    let mut tags: Vec<u32> = Vec::new();
    let mut i: usize = 0;
    while i < features.len()
        invariant
            features@ == features_spec(kind),
            i <= features@.len(),
            tags@.len() == i,
            forall|k: int| 0 <= k < i ==> tags@[k] == tag_value(#[trigger] features@[k]),
        decreases features@.len() - i,
    {
        tags.push(features[i].tag());
        i = i + 1;
    }
    assert(tags@ =~= feature_tags(kind));
    shape_font(bytes, index, text, tags.as_slice())
}

/// The glyph id whose strike gives a shaper glyph its advance: one beyond
/// `u16` is `.notdef`.
pub open spec fn glyph_id_spec(id: u32) -> u16 {
    if id <= u16::MAX {
        id as u16
    } else {
        0
    }
}

/// The glyph id whose strike gives a shaper glyph its advance.
pub fn narrow_glyph_id(id: u32) -> (r: u16)
    ensures
        r == glyph_id_spec(id),
{
    if id <= 65535 {
        id as u16
    } else {
        0
    }
}

/// `v` font units of an `upem` em as 26.6 at `ppem`: rounded toward zero
/// and held to `i32`.
pub open spec fn units_at(v: int, ppem: u16, upem: u16) -> int {
    let q = div_toward_zero(v * (ppem * FRAC), if upem < 1 { 1 } else { upem as int });
    if q < i32::MIN {
        i32::MIN as int
    } else if q > i32::MAX {
        i32::MAX as int
    } else {
        q
    }
}

/// Font units of an `upem` em as 26.6 at `ppem`.
pub fn to_units(v: i32, ppem: u16, upem: u16) -> (r: i32)
    ensures
        r == units_at(v as int, ppem, upem),
{
    let sc = scale(ppem);
    assert(-0x40_0000_0000_0000 <= v * sc <= 0x40_0000_0000_0000) by (nonlinear_arith)
        requires
            i32::MIN <= v <= i32::MAX,
            0 <= sc <= 65535 * 64,
    ;
    let p: i64 = v as i64 * sc as i64;
    let d: i64 = if upem < 1 {
        1
    } else {
        upem as i64
    };
    let q: i64 = if p >= 0 {
        p / d
    } else {
        -((-p) / d)
    };
    assert(q == div_toward_zero(v * (ppem * FRAC), if upem < 1 { 1 } else { upem as int }));
    if q < -2147483648 {
        -2147483648
    } else if q > 2147483647 {
        2147483647
    } else {
        q as i32
    }
}

/// The tag of the horizontal header table.
pub open spec fn hhea_tag() -> Seq<u8> {
    seq![0x68u8, 0x68u8, 0x65u8, 0x61u8]
}

/// The tag of the horizontal metrics table.
pub open spec fn hmtx_tag() -> Seq<u8> {
    seq![0x68u8, 0x6du8, 0x74u8, 0x78u8]
}

/// The `hhea` and `hmtx` tables of the face at `index` of `bytes`, or
/// `None` when the font does not open there or lacks one of them.
pub fn metric_tables(bytes: &[u8], index: u32) -> (r: Option<(Vec<u8>, Vec<u8>)>)
    ensures
        r matches Some((a, b)) ==> {
            &&& sfnt_opens(bytes@, index)
            &&& sfnt_table(bytes@, index, hhea_tag()) == Some(a@)
            &&& sfnt_table(bytes@, index, hmtx_tag()) == Some(b@)
        },
        r is None ==> !sfnt_opens(bytes@, index) || sfnt_table(bytes@, index, hhea_tag()) is None
            || sfnt_table(bytes@, index, hmtx_tag()) is None,
{
    let hhea: [u8; 4] = [0x68, 0x68, 0x65, 0x61];
    let hmtx: [u8; 4] = [0x68, 0x6d, 0x74, 0x78];
    assert(hhea@ == hhea_tag());
    assert(hmtx@ == hmtx_tag());
    let a = match font_table(bytes, index, hhea) {
        Some(Some(t)) => t,
        _ => return None,
    };
    let b = match font_table(bytes, index, hmtx) {
        Some(Some(t)) => t,
        _ => return None,
    };
    Some((a, b))
}

/// The advance width of glyph `gid` in font units: `hhea` holds the number
/// of metrics at byte 34, `hmtx` an advance every four bytes, and a glyph
/// past the last metric takes the last advance. `None` when the tables are
/// too short or hold no metric.
pub open spec fn hmtx_advance(hhea: Seq<u8>, hmtx: Seq<u8>, gid: int) -> Option<u16> {
    match be16_at(hhea, 34) {
        Some(n) => if n == 0 {
            None
        } else {
            be16_at(hmtx, 4 * (if gid < n { gid } else { n - 1 }))
        },
        None => None,
    }
}

/// The advance width of glyph `gid` in font units (see [`hmtx_advance`]).
pub fn advance_width(hhea: &[u8], hmtx: &[u8], gid: u32) -> (r: Option<u16>)
    ensures
        r == hmtx_advance(hhea@, hmtx@, gid as int),
{
    let n = match u16_be(hhea, 34) {
        Some(n) => n,
        None => return None,
    };
    if n == 0 {
        return None;
    }
    let k: u32 = if gid < n as u32 {
        gid
    } else {
        n as u32 - 1
    };
    u16_be(hmtx, 4 * (k as usize))
}

/// A shaper glyph id as the glyph id the run keeps: its low 16 bits.
pub open spec fn run_glyph_id(id: u32) -> u16 {
    (id % 65536) as u16
}

/// What a shaper glyph becomes in a run at `ppem`, given the strike of its
/// glyph and the font's own advance for it: the id cut to its low 16 bits, the offsets
/// scaled, and the advance as [`advance_spec`] gives it.
pub open spec fn raw_glyph_spec(
    g: (u32, u32, i32, i32, i32),
    s: crate::strike::StrikeView,
    font_advance: Option<u16>,
    ppem: u16,
    upem: u16,
) -> RawGlyph {
    RawGlyph {
        glyph_id: run_glyph_id(g.0),
        cluster: g.1,
        x_offset: units_at(g.2 as int, ppem, upem) as i32,
        y_offset: units_at(g.3 as int, ppem, upem) as i32,
        x_advance: advance_spec(s, g.4 as int, font_advance, ppem, upem) as i32,
    }
}

/// The shaper glyph `g` (font units of an `upem` em) as a glyph of a run at
/// `ppem`. `strike` is the strike at that ppem of glyph [`narrow_glyph_id`]`(g.0)`, and
/// `font_advance` the font's own advance for it.
pub fn raw_glyph(
    g: (u32, u32, i32, i32, i32),
    strike: &Strike,
    font_advance: Option<u16>,
    ppem: u16,
    upem: u16,
) -> (r: RawGlyph)
    requires
        advance_fits(strike@, g.4 as int, font_advance, ppem, upem),
    ensures
        r == raw_glyph_spec(g, strike@, font_advance, ppem, upem),
{
    RawGlyph {
        glyph_id: (g.0 % 65536) as u16,
        cluster: g.1,
        x_offset: to_units(g.2, ppem, upem),
        y_offset: to_units(g.3, ppem, upem),
        x_advance: shaper_advance(strike, g.4, font_advance, ppem, upem),
    }
}

/// Glyphs below the number of long metrics `n` read their own metric, four
/// bytes apart; every glyph from `n - 1` on shares the last one, as in a
/// monospaced font.
pub proof fn lemma_glyphs_past_the_last_metric_share_it(hhea: Seq<u8>, hmtx: Seq<u8>, n: u16, g: int, h: int)
    requires
        be16_at(hhea, 34) == Some(n),
        n > 0,
        0 <= g,
        0 <= h,
    ensures
        g < n ==> hmtx_advance(hhea, hmtx, g) == be16_at(hmtx, 4 * g),
        g >= n - 1 ==> hmtx_advance(hhea, hmtx, g) == be16_at(hmtx, 4 * (n - 1)),
        g >= n - 1 && h >= n - 1 ==> hmtx_advance(hhea, hmtx, g) == hmtx_advance(hhea, hmtx, h),
{
}

/// Without a metric count there is no advance.
pub proof fn lemma_no_metrics_no_advance(hhea: Seq<u8>, hmtx: Seq<u8>, g: int)
    requires
        be16_at(hhea, 34) is None || be16_at(hhea, 34) == Some(0u16),
    ensures
        hmtx_advance(hhea, hmtx, g) is None,
{
}

} // verus!
