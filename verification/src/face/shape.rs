//! Shaped runs: glyphs laid along the pen with their shared strikes, and the
//! run's checked 26.6 advance and ink bounds.

use std::sync::Arc;
use vstd::prelude::*;

use crate::error::Error;
use crate::face::fallback::{chars_of, missing_ranges, missing_ranges_spec, segments, segments_spec, Segment, EMOJI_PRESENTATION};
use std::ops::Range;
use crate::geometry::{FRAC, checked_neg, lemma_union_contains, empty_ink, ink_is_empty, ink_translated, ink_union, Advance, InkBounds};
use crate::strike::{strike_ink, Strike, StrikeView};

verus! {

/// One glyph of a [`ShapedRun`]: pen offset in 26.6 and a shared strike.
pub struct PositionedGlyph {
    glyph_id: u16,
    x: Advance,
    y: Advance,
    strike: Arc<Strike>,
}

/// What a positioned glyph holds.
pub struct GlyphView {
    pub glyph_id: u16,
    pub x: Advance,
    pub y: Advance,
    pub strike: StrikeView,
}

impl View for PositionedGlyph {
    type V = GlyphView;

    closed spec fn view(&self) -> GlyphView {
        GlyphView { glyph_id: self.glyph_id, x: self.x, y: self.y, strike: self.strike@ }
    }
}

/// Another handle on the same strike (`Arc::clone`).
#[verifier::external_body]
fn share(strike: &Arc<Strike>) -> (r: Arc<Strike>)
    ensures
        r == *strike,
{
    Arc::clone(strike)
}

/// Ink of a glyph: its strike's ink moved by the pen. `y` is up, ink is
/// y-down, so the pen's `y` is negated; `None` when a coordinate overflows.
pub open spec fn glyph_ink(g: GlyphView) -> Option<InkBounds> {
    if g.y.0 == i64::MIN {
        None
    } else {
        ink_translated(strike_ink(g.strike), g.x.0 as int, -g.y.0)
    }
}

/// Union of the glyphs' ink, or `None` when one of them overflows.
pub open spec fn glyphs_ink(gs: Seq<GlyphView>) -> Option<InkBounds>
    decreases gs.len(),
{
    if gs.len() == 0 {
        Some(empty_ink())
    } else {
        match (glyphs_ink(gs.drop_last()), glyph_ink(gs.last())) {
            (Some(a), Some(b)) => Some(ink_union(a, b)),
            _ => None,
        }
    }
}

/// The run metrics stay representable: ascent negates `y0` and the
/// overhang is `x1 - advance`.
pub open spec fn metrics_fit(ink: InkBounds, advance: Advance) -> bool {
    ink_is_empty(ink) || (ink.y0.0 != i64::MIN && ink.x1.0 - advance.0 <= i64::MAX)
}

/// What a shaped run holds.
pub struct RunView {
    pub text: Seq<char>,
    pub glyphs: Seq<GlyphView>,
    pub advance: Advance,
    pub ink: InkBounds,
}

/// A run's ink is the union of its glyphs' ink, and its metrics fit.
pub open spec fn run_ok(v: RunView) -> bool {
    &&& glyphs_ink(v.glyphs) == Some(v.ink)
    &&& metrics_fit(v.ink, v.advance)
}

/// The run made of `glyphs`, or `None` when its ink or metrics overflow.
pub open spec fn make_run(glyphs: Seq<GlyphView>, advance: Advance, text: Seq<char>) -> Option<RunView> {
    match glyphs_ink(glyphs) {
        Some(ink) => if metrics_fit(ink, advance) {
            Some(RunView { text, glyphs, advance, ink })
        } else {
            None
        },
        None => None,
    }
}

pub open spec fn glyph_views(gs: Seq<PositionedGlyph>) -> Seq<GlyphView> {
    gs.map_values(|g: PositionedGlyph| g@)
}

/// Immutable shaped run: ordered glyphs, checked 26.6 advance, actual ink bounds.
pub struct ShapedRun {
    text: String,
    glyphs: Vec<PositionedGlyph>,
    advance: Advance,
    ink: InkBounds,
}

impl View for ShapedRun {
    type V = RunView;

    closed spec fn view(&self) -> RunView {
        RunView {
            text: self.text@,
            glyphs: glyph_views(self.glyphs@),
            advance: self.advance,
            ink: self.ink,
        }
    }
}

impl PositionedGlyph {
    pub fn glyph_id(&self) -> (r: u16)
        ensures
            r == self@.glyph_id,
    {
        self.glyph_id
    }

    pub fn x(&self) -> (r: Advance)
        ensures
            r == self@.x,
    {
        self.x
    }

    pub fn y(&self) -> (r: Advance)
        ensures
            r == self@.y,
    {
        self.y
    }

    pub fn strike(&self) -> (r: &Strike)
        ensures
            r@ == self@.strike,
    {
        &self.strike
    }

    /// The shared strike itself.
    pub fn strike_arc(&self) -> (r: &Arc<Strike>)
        ensures
            r@ == self@.strike,
    {
        &self.strike
    }

    /// Strike ink translated by this glyph's pen. `y` is up; ink is y-down.
    pub fn ink(&self) -> (r: Result<InkBounds, Error>)
        ensures
            match glyph_ink(self@) {
                Some(b) => r == Ok::<InkBounds, Error>(b),
                None => r matches Err(Error::CoordinateOverflow),
            },
    {
        let neg = match checked_neg(self.y.0) {
            Some(v) => v,
            None => return Err(Error::CoordinateOverflow),
        };
        let dy = Advance::from_units(neg);
        match self.strike.ink().translate(self.x, dy) {
            Some(b) => Ok(b),
            None => Err(Error::CoordinateOverflow),
        }
    }
}

impl Clone for PositionedGlyph {
    fn clone(&self) -> (r: Self)
        ensures
            r@ == self@,
    {
        PositionedGlyph { glyph_id: self.glyph_id, x: self.x, y: self.y, strike: share(&self.strike) }
    }
}

/// The union of the glyphs' ink; [`Error::CoordinateOverflow`] when a
/// glyph's ink is not representable.
pub fn union_ink(glyphs: &[PositionedGlyph]) -> (r: Result<InkBounds, Error>)
    ensures
        match glyphs_ink(glyph_views(glyphs@)) {
            Some(b) => r == Ok::<InkBounds, Error>(b),
            None => r matches Err(Error::CoordinateOverflow),
        },
{
    let ghost gs = glyph_views(glyphs@);
    let mut ink = InkBounds::empty();
    let mut i: usize = 0;
    while i < glyphs.len()
        invariant
            gs == glyph_views(glyphs@),
            i <= glyphs@.len(),
            glyphs_ink(gs.take(i as int)) == Some(ink),
        decreases glyphs@.len() - i,
    {
        assert(gs.take(i + 1).drop_last() =~= gs.take(i as int));
        assert(gs.take(i + 1).last() == glyphs@[i as int]@);
        let g = match glyphs[i].ink() {
            Ok(b) => b,
            Err(e) => {
                proof {
                    lemma_glyphs_ink_prefix_none(gs, i + 1);
                }
                return Err(e);
            },
        };
        ink = ink.union(g);
        i = i + 1;
    }
    assert(gs.take(glyphs@.len() as int) =~= gs);
    Ok(ink)
}

/// Once a prefix of the glyphs overflows, so do all of them.
proof fn lemma_glyphs_ink_prefix_none(gs: Seq<GlyphView>, i: int)
    requires
        0 <= i <= gs.len(),
        glyphs_ink(gs.take(i)) is None,
    ensures
        glyphs_ink(gs) is None,
    decreases gs.len() - i,
{
    if i < gs.len() {
        assert(gs.take(i + 1).drop_last() =~= gs.take(i));
        lemma_glyphs_ink_prefix_none(gs, i + 1);
    } else {
        assert(gs.take(i) =~= gs);
    }
}

impl ShapedRun {
    #[verifier::type_invariant]
    spec fn wf(&self) -> bool {
        run_ok(self@)
    }

    /// Admit the complete metric domain, not just individually valid endpoints.
    fn new(glyphs: Vec<PositionedGlyph>, advance: Advance, text: String) -> (r: Result<ShapedRun, Error>)
        ensures
            match make_run(glyph_views(glyphs@), advance, text@) {
                Some(v) => r matches Ok(run) && run@ == v,
                None => r matches Err(Error::CoordinateOverflow),
            },
    {
        let ink = match union_ink(glyphs.as_slice()) {
            Ok(b) => b,
            Err(e) => return Err(e),
        };
        if !ink.is_empty() {
            if ink.y0.0 == i64::MIN {
                return Err(Error::CoordinateOverflow);
            }
            let overhang = ink.x1.0 as i128 - advance.0 as i128;
            if overhang > i64::MAX as i128 {
                return Err(Error::CoordinateOverflow);
            }
        }
        Ok(ShapedRun { text, glyphs, advance, ink })
    }

    /// The run with no glyphs, no advance and no ink.
    pub fn empty() -> (r: ShapedRun)
        ensures
            r@.text.len() == 0,
            r@.glyphs.len() == 0,
            r@.advance.0 == 0,
            r@.ink == empty_ink(),
    {
        let r = ShapedRun {
            text: String::new(),
            glyphs: Vec::new(),
            advance: Advance(0),
            ink: InkBounds::empty(),
        };
        assert(glyph_views(r.glyphs@) =~= Seq::<GlyphView>::empty());
        r
    }

    /// The glyphs in pen order.
    pub fn glyphs(&self) -> (r: &[PositionedGlyph])
        ensures
            glyph_views(r@) == self@.glyphs,
            run_ok(self@),
    {
        proof {
            use_type_invariant(self);
        }
        self.glyphs.as_slice()
    }

    /// Decoded text behind this run, retained for layout diagnostics.
    pub fn text(&self) -> (r: &String)
        ensures
            r@ == self@.text,
    {
        &self.text
    }

    pub fn advance(&self) -> (r: Advance)
        ensures
            r == self@.advance,
            run_ok(self@),
    {
        proof {
            use_type_invariant(self);
        }
        self.advance
    }

    /// The actual ink of the run: the union of its glyphs' ink, whose
    /// ascent and overhang are representable ([`run_ok`]).
    pub fn ink(&self) -> (r: InkBounds)
        ensures
            r == self@.ink,
            run_ok(self@),
    {
        proof {
            use_type_invariant(self);
        }
        self.ink
    }

    /// Distance from the baseline up to the top of ink, in 26.6. Zero if none.
    pub fn ascent(&self) -> (r: Advance)
        ensures
            r.0 == if ink_is_empty(self@.ink) || self@.ink.y0.0 >= 0 {
                0
            } else {
                -self@.ink.y0.0
            },
    {
        proof {
            use_type_invariant(self);
        }
        if self.ink.is_empty() {
            return Advance(0);
        }
        let up = -self.ink.y0.0;
        Advance(if up > 0 { up } else { 0 })
    }

    /// Distance from the baseline down to the bottom of ink, in 26.6. Zero if none.
    pub fn depth(&self) -> (r: Advance)
        ensures
            r.0 == if ink_is_empty(self@.ink) || self@.ink.y1.0 <= 0 {
                0
            } else {
                self@.ink.y1.0
            },
    {
        if self.ink.is_empty() {
            return Advance(0);
        }
        let down = self.ink.y1.0;
        Advance(if down > 0 { down } else { 0 })
    }

    /// Ink beyond the pen advance, to the right. Zero if the ink is inside.
    pub fn overhang(&self) -> (r: Advance)
        ensures
            r.0 == if ink_is_empty(self@.ink) || self@.ink.x1.0 <= self@.advance.0 {
                0
            } else {
                self@.ink.x1.0 - self@.advance.0
            },
    {
        proof {
            use_type_invariant(self);
        }
        if self.ink.is_empty() || self.ink.x1.0 <= self.advance.0 {
            return Advance(0);
        }
        Advance(self.ink.x1.0 - self.advance.0)
    }
}

/// Every glyph moved by `(dx, dy)`, or `None` when a pen leaves `i64`.
pub open spec fn glyphs_moved(gs: Seq<GlyphView>, dx: int, dy: int) -> Option<Seq<GlyphView>> {
    if forall|i: int|
        0 <= i < gs.len() ==> i64::MIN <= #[trigger] gs[i].x.0 + dx <= i64::MAX && i64::MIN
            <= gs[i].y.0 + dy <= i64::MAX {
        Some(
            gs.map_values(
                |g: GlyphView|
                    GlyphView {
                        glyph_id: g.glyph_id,
                        x: Advance((g.x.0 + dx) as i64),
                        y: Advance((g.y.0 + dy) as i64),
                        strike: g.strike,
                    },
            ),
        )
    } else {
        None
    }
}

/// What moving a run by `(dx, dy)` gives when allocation succeeds.
pub open spec fn run_translated(v: RunView, dx: int, dy: int) -> Option<RunView> {
    if v.glyphs.len() == 0 && dx == 0 && dy == 0 {
        Some(v)
    } else {
        match glyphs_moved(v.glyphs, dx, dy) {
            Some(gs) => make_run(gs, v.advance, v.text),
            None => None,
        }
    }
}

impl Clone for ShapedRun {
    fn clone(&self) -> (r: Self)
        ensures
            r@ == self@,
    {
        proof {
            use_type_invariant(self);
        }
        let mut glyphs: Vec<PositionedGlyph> = Vec::new();
        let mut i: usize = 0;
        while i < self.glyphs.len()
            invariant
                i <= self.glyphs@.len(),
                glyphs@.len() == i,
                glyph_views(glyphs@) == glyph_views(self.glyphs@).take(i as int),
            decreases self.glyphs@.len() - i,
        {
            let c = self.glyphs[i].clone();
            assert(c@ == glyph_views(self.glyphs@)[i as int]);
            let ghost before = glyphs@;
            glyphs.push(c);
            assert forall|k: int| 0 <= k < i + 1 implies #[trigger] glyph_views(glyphs@)[k]
                == glyph_views(self.glyphs@).take(i + 1)[k] by {
                if k < i {
                    assert(glyphs@[k] == before[k]);
                    assert(glyph_views(before)[k] == glyph_views(self.glyphs@).take(i as int)[k]);
                }
            }
            assert(glyph_views(glyphs@) =~= glyph_views(self.glyphs@).take(i + 1));
            i = i + 1;
        }
        assert(glyph_views(glyphs@) =~= glyph_views(self.glyphs@));
        ShapedRun { text: self.text.clone(), glyphs, advance: self.advance, ink: self.ink }
    }
}

impl ShapedRun {
    /// Checked translation of every glyph pen. `dy` is up (same as
    /// [`PositionedGlyph::y`]); ink is y-down, so a positive `dy` raises
    /// painted and measured ink together. Besides a failed allocation
    /// ([`Error::Alloc`]), the result is [`run_translated`]: a coordinate
    /// leaving `i64` is [`Error::CoordinateOverflow`].
    pub fn translate(&self, dx: Advance, dy: Advance) -> (r: Result<ShapedRun, Error>)
        ensures
            r matches Err(Error::Alloc) ==> !(self@.glyphs.len() == 0 && dx.0 == 0 && dy.0 == 0),
            !(r matches Err(Error::Alloc)) ==> match run_translated(self@, dx.0 as int, dy.0 as int) {
                Some(v) => r matches Ok(run) && run@ == v,
                None => r matches Err(Error::CoordinateOverflow),
            },
    {
        if self.glyphs.len() == 0 && dx.0 == 0 && dy.0 == 0 {
            proof {
                use_type_invariant(self);
            }
            return Ok(self.clone());
        }
        let mut glyphs: Vec<PositionedGlyph> = Vec::new();
        if glyphs.try_reserve(self.glyphs.len()).is_err() {
            return Err(Error::Alloc);
        }
        self.translate_into(glyphs, dx, dy)
    }

    /// Moves every glyph pen by `(dx, dy)` into `glyphs`, an empty vector
    /// (reserved by the caller), and builds the moved run: the result is
    /// [`run_translated`], a coordinate leaving `i64` being
    /// [`Error::CoordinateOverflow`].
    pub fn translate_into(&self, glyphs: Vec<PositionedGlyph>, dx: Advance, dy: Advance) -> (r: Result<
        ShapedRun,
        Error,
    >)
        requires
            glyphs@.len() == 0,
        ensures
            match run_translated(self@, dx.0 as int, dy.0 as int) {
                Some(v) => r matches Ok(run) && run@ == v,
                None => r matches Err(Error::CoordinateOverflow),
            },
    {
        proof {
            use_type_invariant(self);
        }
        let mut glyphs = glyphs;
        let ghost gs = glyph_views(self.glyphs@);
        let mut i: usize = 0;
        while i < self.glyphs.len()
            invariant
                gs == glyph_views(self.glyphs@),
                i <= gs.len(),
                glyphs@.len() == i,
                forall|k: int|
                    0 <= k < i ==> i64::MIN <= #[trigger] gs[k].x.0 + dx.0 <= i64::MAX && i64::MIN
                        <= gs[k].y.0 + dy.0 <= i64::MAX,
                forall|k: int|
                    #![trigger glyphs@[k]]
                    0 <= k < i ==> glyphs@[k]@ == (GlyphView {
                        glyph_id: gs[k].glyph_id,
                        x: Advance((gs[k].x.0 + dx.0) as i64),
                        y: Advance((gs[k].y.0 + dy.0) as i64),
                        strike: gs[k].strike,
                    }),
            decreases gs.len() - i,
        {
            let g = &self.glyphs[i];
            assert(g@ == gs[i as int]);
            let x = match g.x.checked_add(dx) {
                Some(v) => v,
                None => {
                    assert(!(i64::MIN <= gs[i as int].x.0 + dx.0 <= i64::MAX));
                    assert(glyphs_moved(gs, dx.0 as int, dy.0 as int) is None);
                    return Err(Error::CoordinateOverflow);
                },
            };
            let y = match g.y.checked_add(dy) {
                Some(v) => v,
                None => {
                    assert(!(i64::MIN <= gs[i as int].y.0 + dy.0 <= i64::MAX));
                    assert(glyphs_moved(gs, dx.0 as int, dy.0 as int) is None);
                    return Err(Error::CoordinateOverflow);
                },
            };
            glyphs.push(PositionedGlyph { glyph_id: g.glyph_id, x, y, strike: share(&g.strike) });
            i = i + 1;
        }
        let ghost moved = glyphs_moved(gs, dx.0 as int, dy.0 as int);
        assert(moved is Some);
        assert(glyph_views(glyphs@) =~= moved.unwrap());
        proof {
            if gs.len() == 0 {
                assert(glyph_views(glyphs@) =~= gs);
                assert(glyphs_ink(gs) == Some(empty_ink()));
            }
        }
        ShapedRun::new(glyphs, self.advance, self.text.clone())
    }
}

/// 26.6 units per em at `ppem`.
pub fn scale(ppem: u16) -> (r: i32)
    ensures
        r == ppem * FRAC,
{
    ppem as i32 * 64
}

/// The fallback's ppem for a primary run at `ppem` when the fallback is set
/// at `scale_percent` of the primary em: rounded, saturated, never below one
/// dot.
pub fn fallback_ppem(ppem: u16, scale_percent: u8) -> (r: u16)
    ensures
        r == ({
            let scaled = (ppem * scale_percent + 50) / 100;
            if scaled < 1 {
                1
            } else if scaled > u16::MAX {
                u16::MAX as int
            } else {
                scaled
            }
        }),
{
    assert(ppem * scale_percent <= 65535 * 255) by (nonlinear_arith)
        requires
            ppem <= 65535,
            scale_percent <= 255,
    ;
    let scaled = (ppem as u32 * scale_percent as u32 + 50) / 100;
    if scaled < 1 {
        1
    } else if scaled > 65535 {
        65535
    } else {
        scaled as u16
    }
}

/// Integer division rounding toward zero.
pub open spec fn div_toward_zero(a: int, b: int) -> int {
    if a >= 0 {
        a / b
    } else {
        -((-a) / b)
    }
}

/// Whether [`tracking_units`] can take `tracking_em` at `ppem`: the
/// product of the em in 26.6 and the tracking stays in `i32`.
pub fn tracking_fits(ppem: u16, tracking_em: i16) -> (r: bool)
    ensures
        r == fits_i32(ppem * FRAC * tracking_em),
{
    let sc = scale(ppem);
    assert(-0x40_0000_0000 <= sc * tracking_em <= 0x40_0000_0000) by (nonlinear_arith)
        requires
            i16::MIN <= tracking_em <= i16::MAX,
            0 <= sc <= 65535 * 64,
    ;
    let p: i64 = sc as i64 * tracking_em as i64;
    -2147483648 <= p && p <= 2147483647
}

/// Pen tracking for a display mark: `tracking_em` thousandths of an em at
/// `ppem`, in 26.6, rounded toward zero.
pub fn tracking_units(ppem: u16, tracking_em: i16) -> (r: i32)
    requires
        i32::MIN <= ppem * FRAC * tracking_em <= i32::MAX,
    ensures
        r == div_toward_zero(ppem * FRAC * tracking_em, 1000),
{
    let p: i64 = ppem as i64 * 64 * tracking_em as i64;
    let q: i64 = if p >= 0 {
        p / 1000
    } else {
        -((-p) / 1000)
    };
    q as i32
}

/// What a run is shaped for.
#[derive(Debug, Clone, Copy, PartialEq, Eq, Structural)]
pub enum ShapeKind {
    /// Proportional text.
    Run,
    /// Tabular, lining figures.
    Figure,
    /// A display mark.
    Mark,
}

/// An OpenType feature the shaper turns on.
#[derive(Debug, Clone, Copy, PartialEq, Eq, Structural)]
pub enum FeatureTag {
    Kern,
    Liga,
    Calt,
    Tnum,
    Lnum,
    Case,
}

/// A feature's OpenType tag: its four ASCII bytes read as a big-endian
/// `u32`.
pub open spec fn tag_value(f: FeatureTag) -> u32 {
    match f {
        FeatureTag::Kern => 0x6b65726e,
        FeatureTag::Liga => 0x6c696761,
        FeatureTag::Calt => 0x63616c74,
        FeatureTag::Tnum => 0x746e756d,
        FeatureTag::Lnum => 0x6c6e756d,
        FeatureTag::Case => 0x63617365,
    }
}

impl FeatureTag {
    /// The OpenType tag, four ASCII bytes as a big-endian `u32`.
    pub fn tag(self) -> (r: u32)
        ensures
            r == tag_value(self),
    {
        match self {
            FeatureTag::Kern => 0x6b65726e,
            FeatureTag::Liga => 0x6c696761,
            FeatureTag::Calt => 0x63616c74,
            FeatureTag::Tnum => 0x746e756d,
            FeatureTag::Lnum => 0x6c6e756d,
            FeatureTag::Case => 0x63617365,
        }
    }
}

/// Features for a kind of run: kern, liga and calt always; figures add tnum
/// and lnum, marks add case.
pub open spec fn features_spec(kind: ShapeKind) -> Seq<FeatureTag> {
    match kind {
        ShapeKind::Run => seq![FeatureTag::Kern, FeatureTag::Liga, FeatureTag::Calt],
        ShapeKind::Figure => seq![
            FeatureTag::Kern,
            FeatureTag::Liga,
            FeatureTag::Calt,
            FeatureTag::Tnum,
            FeatureTag::Lnum,
        ],
        ShapeKind::Mark => seq![FeatureTag::Kern, FeatureTag::Liga, FeatureTag::Calt, FeatureTag::Case],
    }
}

/// The features a run of `kind` is shaped with, in order.
pub fn features_for(kind: ShapeKind) -> (r: Vec<FeatureTag>)
    ensures
        r@ == features_spec(kind),
{
    let mut out: Vec<FeatureTag> = Vec::new();
    out.push(FeatureTag::Kern);
    out.push(FeatureTag::Liga);
    out.push(FeatureTag::Calt);
    match kind {
        ShapeKind::Run => {},
        ShapeKind::Figure => {
            out.push(FeatureTag::Tnum);
            out.push(FeatureTag::Lnum);
        },
        ShapeKind::Mark => {
            out.push(FeatureTag::Case);
        },
    }
    assert(out@ =~= features_spec(kind));
    out
}

/// One glyph as the shaper returned it, before strikes and pen positions.
#[derive(Debug, Clone, Copy, PartialEq, Eq, Structural)]
pub struct RawGlyph {
    pub glyph_id: u16,
    pub cluster: u32,
    pub x_offset: i32,
    pub y_offset: i32,
    pub x_advance: i32,
}

/// Which face shaped a glyph.
#[derive(Debug, Clone, Copy, PartialEq, Eq, Structural)]
pub enum Source {
    Primary,
    Fallback,
}

/// Where a shaped glyph's strike comes from.
#[derive(Debug, Clone, Copy, PartialEq, Eq, Structural)]
pub enum StrikeSource {
    /// The box for a character no face has.
    Placeholder,
    /// The primary face at the run's ppem.
    Primary,
    /// The fallback face at its own ppem.
    Fallback,
}

/// A `.notdef` glyph is a placeholder box; otherwise the face that shaped
/// the glyph paints it, and a fallback glyph without a fallback face is a
/// placeholder.
pub fn strike_source(source: Source, glyph_id: u16, has_fallback: bool) -> (r: StrikeSource)
    ensures
        r == if glyph_id == 0 {
            StrikeSource::Placeholder
        } else {
            match source {
                Source::Primary => StrikeSource::Primary,
                Source::Fallback => if has_fallback {
                    StrikeSource::Fallback
                } else {
                    StrikeSource::Placeholder
                },
            }
        },
{
    if glyph_id == 0 {
        return StrikeSource::Placeholder;
    }
    match source {
        Source::Primary => StrikeSource::Primary,
        Source::Fallback => if has_fallback {
            StrikeSource::Fallback
        } else {
            StrikeSource::Placeholder
        },
    }
}

/// The strike has an advance of its own: an advance, or pixels.
pub open spec fn own_advance(s: StrikeView) -> bool {
    s.advance != 0 || s.width != 0
}

/// Font units of an `upem` em (zero counts as one) at `ppem`, in 26.6,
/// rounded toward zero.
pub open spec fn scaled(v: int, ppem: u16, upem: u16) -> int {
    div_toward_zero(v * (ppem * FRAC), if upem < 1 { 1 } else { upem as int })
}

/// What the shaper added to the font's own advance `font_advance` to reach
/// `raw` (kerning and other positioning), in 26.6 at `ppem`; nothing when
/// the font's advance is unknown.
pub open spec fn adjustment(raw: int, font_advance: Option<u16>, ppem: u16, upem: u16) -> int {
    match font_advance {
        Some(h) => scaled(raw - h, ppem, upem),
        None => 0,
    }
}

/// The advance fits in `i32`.
pub open spec fn advance_fits(s: StrikeView, raw: int, font_advance: Option<u16>, ppem: u16, upem: u16) -> bool {
    if own_advance(s) {
        fits_i32(s.advance + adjustment(raw, font_advance, ppem, upem))
    } else {
        fits_i32(raw * (ppem * FRAC))
    }
}

/// The advance of a glyph with strike `s` whose shaped advance is `raw`
/// font units, of which `font_advance` is the font's own: a strike with an
/// advance of its own takes the place of the font's advance, and what the
/// shaper added to it is kept; otherwise `raw` is scaled.
pub open spec fn advance_spec(s: StrikeView, raw: int, font_advance: Option<u16>, ppem: u16, upem: u16) -> int {
    if own_advance(s) {
        s.advance + adjustment(raw, font_advance, ppem, upem)
    } else {
        scaled(raw, ppem, upem)
    }
}

/// `v` font units scaled to 26.6 at `ppem`, rounded toward zero.
fn scale_units(v: i64, ppem: u16, upem: u16) -> (r: i64)
    requires
        -0x2_0000_0000 <= v <= 0x2_0000_0000,
    ensures
        r == scaled(v as int, ppem, upem),
        -0x100_0000_0000_0000 <= r <= 0x100_0000_0000_0000,
{
    let sc = scale(ppem);
    assert(-0x100_0000_0000_0000 <= v * sc <= 0x100_0000_0000_0000) by (nonlinear_arith)
        requires
            -0x2_0000_0000 <= v <= 0x2_0000_0000,
            0 <= sc <= 65535 * 64,
    ;
    let p: i64 = v * sc as i64;
    let d: i64 = if upem < 1 {
        1
    } else {
        upem as i64
    };
    let q: i64 = if p >= 0 {
        p / d
    } else {
        -((-p) / d)
    };
    assert(-0x100_0000_0000_0000 <= q <= 0x100_0000_0000_0000) by (nonlinear_arith)
        requires
            -0x100_0000_0000_0000 <= p <= 0x100_0000_0000_0000,
            d >= 1,
            p >= 0 ==> q == p / d,
            p < 0 ==> q == -((-p) / (d as int)),
    ;
    q
}

/// The advance before it is held to `i32`.
fn advance_wide(strike: &Strike, raw: i32, font_advance: Option<u16>, ppem: u16, upem: u16) -> (r: i64)
    ensures
        r == advance_spec(strike@, raw as int, font_advance, ppem, upem),
{
    if strike.advance_units() != 0 || strike.width() != 0 {
        let adj: i64 = match font_advance {
            Some(h) => scale_units(raw as i64 - h as i64, ppem, upem),
            None => 0,
        };
        strike.advance_units() as i64 + adj
    } else {
        scale_units(raw as i64, ppem, upem)
    }
}

/// Whether [`shaper_advance`] can take these arguments.
pub fn advance_fits_at(strike: &Strike, raw: i32, font_advance: Option<u16>, ppem: u16, upem: u16) -> (r: bool)
    ensures
        r == advance_fits(strike@, raw as int, font_advance, ppem, upem),
{
    if strike.advance_units() != 0 || strike.width() != 0 {
        let a = advance_wide(strike, raw, font_advance, ppem, upem);
        return -2147483648 <= a && a <= 2147483647;
    }
    let sc = scale(ppem);
    assert(-0x40_0000_0000_0000 <= raw * sc <= 0x40_0000_0000_0000) by (nonlinear_arith)
        requires
            i32::MIN <= raw <= i32::MAX,
            0 <= sc <= 65535 * 64,
    ;
    let p: i64 = raw as i64 * sc as i64;
    -2147483648 <= p && p <= 2147483647
}

/// The advance the shaper gives a glyph at `ppem` (see [`advance_spec`]):
/// a strike with an advance or pixels of its own puts its advance in place
/// of the font's `font_advance`, keeping what the shaper added to that;
/// otherwise the shaped `raw` advance (font units of an `upem` em) is
/// scaled to 26.6, rounded toward zero.
pub fn shaper_advance(strike: &Strike, raw: i32, font_advance: Option<u16>, ppem: u16, upem: u16) -> (r: i32)
    requires
        advance_fits(strike@, raw as int, font_advance, ppem, upem),
    ensures
        r == advance_spec(strike@, raw as int, font_advance, ppem, upem),
{
    if !(strike.advance_units() != 0 || strike.width() != 0) {
        let sc = scale(ppem);
        assert(i32::MIN <= raw * sc <= i32::MAX);
        assert(-0x2_0000_0000 <= raw <= 0x2_0000_0000);
    }
    let a = advance_wide(strike, raw, font_advance, ppem, upem);
    if !(strike.advance_units() != 0 || strike.width() != 0) {
        assert(i32::MIN <= a <= i32::MAX) by (nonlinear_arith)
            requires
                a == div_toward_zero(raw * (ppem * FRAC), if upem < 1 { 1 } else { upem as int }),
                i32::MIN <= raw * (ppem * FRAC) <= i32::MAX,
        ;
    }
    a as i32
}

/// How far a glyph moves the pen: a placeholder keeps its own advance, the
/// shaper's was `.notdef`'s.
pub open spec fn pen_step(g: RawGlyph, s: StrikeView) -> int {
    if g.glyph_id == 0 {
        s.advance as int
    } else {
        g.x_advance as int
    }
}

/// The pen before glyph `i`: the steps before it, with `tracking` between
/// glyphs.
pub open spec fn pen_before(raw: Seq<RawGlyph>, strikes: Seq<StrikeView>, tracking: int, i: int) -> int
    decreases i,
{
    if i <= 0 {
        0
    } else {
        pen_before(raw, strikes, tracking, i - 1) + pen_step(raw[i - 1], strikes[i - 1]) + if i
            < raw.len() {
            tracking
        } else {
            0
        }
    }
}

pub open spec fn fits_i32(v: int) -> bool {
    i32::MIN <= v <= i32::MAX
}

/// Every pen position on the way stays in `i32`.
pub open spec fn pens_fit(raw: Seq<RawGlyph>, strikes: Seq<StrikeView>, tracking: int) -> bool {
    forall|i: int|
        0 <= i < raw.len() ==> {
            let p = #[trigger] pen_before(raw, strikes, tracking, i);
            &&& fits_i32(p + raw[i].x_offset)
            &&& fits_i32(p + pen_step(raw[i], strikes[i]))
            &&& (tracking != 0 && i + 1 < raw.len()) ==> fits_i32(
                p + pen_step(raw[i], strikes[i]) + tracking,
            )
        }
}

/// The glyphs laid along the pen.
pub open spec fn laid_glyphs(raw: Seq<RawGlyph>, strikes: Seq<StrikeView>, tracking: int) -> Seq<GlyphView> {
    Seq::new(
        raw.len(),
        |i: int|
            GlyphView {
                glyph_id: raw[i].glyph_id,
                x: Advance((pen_before(raw, strikes, tracking, i) + raw[i].x_offset) as i64),
                y: Advance(raw[i].y_offset as i64),
                strike: strikes[i],
            },
    )
}

pub open spec fn strike_views(strikes: Seq<Arc<Strike>>) -> Seq<StrikeView> {
    strikes.map_values(|s: Arc<Strike>| s@)
}

/// Attach strikes and lay the pen along the run: glyph `i` sits at the pen
/// plus its offset, the pen moves by the glyph's step and by `tracking`
/// between glyphs. A pen leaving `i32`, or ink and metrics leaving `i64`,
/// is [`Error::CoordinateOverflow`].
pub fn assemble(text: &str, tracking: i32, raw: &[RawGlyph], strikes: &[Arc<Strike>]) -> (r: Result<
    ShapedRun,
    Error,
>)
    requires
        raw@.len() == strikes@.len(),
    ensures
        !pens_fit(raw@, strike_views(strikes@), tracking as int) ==> r matches Err(
            Error::CoordinateOverflow,
        ),
        pens_fit(raw@, strike_views(strikes@), tracking as int) ==> match make_run(
            laid_glyphs(raw@, strike_views(strikes@), tracking as int),
            Advance(pen_before(raw@, strike_views(strikes@), tracking as int, raw@.len() as int) as i64),
            text@,
        ) {
            Some(v) => r matches Ok(run) && run@ == v,
            None => r matches Err(Error::CoordinateOverflow),
        },
{
    let ghost sv = strike_views(strikes@);
    let ghost t = tracking as int;
    let count = raw.len();
    let mut x: i32 = 0;
    let mut glyphs: Vec<PositionedGlyph> = Vec::new();
    let mut i: usize = 0;
    while i < count
        invariant
            count == raw@.len(),
            count == strikes@.len(),
            sv == strike_views(strikes@),
            t == tracking as int,
            i <= count,
            x == pen_before(raw@, sv, t, i as int),
            glyphs@.len() == i,
            forall|k: int|
                0 <= k < i ==> {
                    let p = #[trigger] pen_before(raw@, sv, t, k);
                    &&& fits_i32(p + raw@[k].x_offset)
                    &&& fits_i32(p + pen_step(raw@[k], sv[k]))
                    &&& (t != 0 && k + 1 < count) ==> fits_i32(p + pen_step(raw@[k], sv[k]) + t)
                },
            forall|k: int|
                #![trigger glyphs@[k]]
                0 <= k < i ==> glyphs@[k]@ == laid_glyphs(raw@, sv, t)[k],
        decreases count - i,
    {
        let g = raw[i];
        let strike = share(&strikes[i]);
        assert(strike@ == sv[i as int]);
        let step = if g.glyph_id == 0 {
            strike.advance_units()
        } else {
            g.x_advance
        };
        let ghost p = pen_before(raw@, sv, t, i as int);
        let gx = match x.checked_add(g.x_offset) {
            Some(v) => v,
            None => {
                assert(!fits_i32(p + raw@[i as int].x_offset));
                return Err(Error::CoordinateOverflow);
            },
        };
        glyphs.push(
            PositionedGlyph {
                glyph_id: g.glyph_id,
                x: Advance::from_units(gx as i64),
                y: Advance::from_units(g.y_offset as i64),
                strike,
            },
        );
        x = match x.checked_add(step) {
            Some(v) => v,
            None => {
                assert(!fits_i32(p + pen_step(raw@[i as int], sv[i as int])));
                return Err(Error::CoordinateOverflow);
            },
        };
        if tracking != 0 && i + 1 < count {
            x = match x.checked_add(tracking) {
                Some(v) => v,
                None => {
                    assert(!fits_i32(p + pen_step(raw@[i as int], sv[i as int]) + t));
                    return Err(Error::CoordinateOverflow);
                },
            };
        }
        i = i + 1;
    }
    let ghost laid = laid_glyphs(raw@, sv, t);
    assert(glyph_views(glyphs@) =~= laid);
    let mut text_owned = String::new();
    text_owned.append(text);
    assert(text_owned@ =~= text@);
    ShapedRun::new(glyphs, Advance::from_units(x as i64), text_owned)
}

/// The clusters of the `.notdef` glyphs, in buffer order.
pub open spec fn notdef_clusters(gs: Seq<RawGlyph>) -> Seq<u32>
    decreases gs.len(),
{
    if gs.len() == 0 {
        Seq::empty()
    } else {
        let rest = notdef_clusters(gs.drop_last());
        if gs.last().glyph_id == 0 {
            rest.push(gs.last().cluster)
        } else {
            rest
        }
    }
}

/// The clusters of the `.notdef` glyphs, in buffer order.
pub fn missing_clusters(first: &[RawGlyph]) -> (r: Vec<u32>)
    ensures
        r@ == notdef_clusters(first@),
{
    let mut out: Vec<u32> = Vec::new();
    let mut i: usize = 0;
    while i < first.len()
        invariant
            i <= first@.len(),
            out@ == notdef_clusters(first@.take(i as int)),
        decreases first@.len() - i,
    {
        assert(first@.take(i + 1).drop_last() =~= first@.take(i as int));
        if first[i].glyph_id == 0 {
            out.push(first[i].cluster);
        }
        i = i + 1;
    }
    assert(first@.take(first@.len() as int) =~= first@);
    out
}

/// The cluster of every glyph, in buffer order.
pub open spec fn cluster_offsets(gs: Seq<RawGlyph>) -> Seq<u32> {
    gs.map_values(|g: RawGlyph| g.cluster)
}

/// The cluster of every glyph, in buffer order.
pub fn glyph_clusters(first: &[RawGlyph]) -> (r: Vec<u32>)
    ensures
        r@ == cluster_offsets(first@),
{
    let mut out: Vec<u32> = Vec::new();
    let mut i: usize = 0;
    while i < first.len()
        invariant
            i <= first@.len(),
            out@ == cluster_offsets(first@.take(i as int)),
        decreases first@.len() - i,
    {
        out.push(first[i].cluster);
        assert(out@ =~= cluster_offsets(first@.take(i + 1)));
        i = i + 1;
    }
    assert(first@.take(first@.len() as int) =~= first@);
    out
}

/// Whether `text` holds `c`.
pub fn contains_char(text: &str, c: char) -> (r: bool)
    ensures
        r == text@.contains(c),
{
    let chars = chars_of(text);
    let mut i: usize = 0;
    while i < chars.len()
        invariant
            chars@ == text@,
            i <= chars@.len(),
            forall|k: int| 0 <= k < i ==> chars@[k] != c,
        decreases chars@.len() - i,
    {
        if chars[i] == c {
            assert(text@[i as int] == c);
            return true;
        }
        i = i + 1;
    }
    false
}

/// How a run that the primary face has shaped goes on.
#[derive(Debug, PartialEq, Eq)]
pub enum RunPlan {
    /// Every glyph stays with the primary face.
    Primary,
    /// Shape each segment again, in the face its flag names.
    Split(Vec<Segment>),
}

/// Decides how a non-empty run goes on once the primary face has shaped it
/// into `first`. With a fallback face and a `.notdef` glyph or a request
/// for emoji presentation, the run is split into segments over the missing
/// clusters widened over emoji glue; without one, a `.notdef` glyph is
/// [`Error::MissingGlyph`]; otherwise the primary glyphs stand.
pub fn plan_run(text: &str, first: &[RawGlyph], has_fallback: bool) -> (r: Result<RunPlan, Error>)
    ensures
        (has_fallback && (notdef_clusters(first@).len() > 0 || text@.contains(EMOJI_PRESENTATION)))
            ==> (r matches Ok(RunPlan::Split(segs)) && exists|ranges: Seq<Range<usize>>|
            #[trigger] missing_ranges_spec(
                text.len() as int,
                cluster_offsets(first@),
                notdef_clusters(first@),
                ranges,
            ) && segments_spec(text@, ranges, segs@)),
        !(has_fallback && (notdef_clusters(first@).len() > 0 || text@.contains(EMOJI_PRESENTATION)))
            && notdef_clusters(first@).len() == 0 ==> r matches Ok(RunPlan::Primary),
        !(has_fallback && (notdef_clusters(first@).len() > 0 || text@.contains(EMOJI_PRESENTATION)))
            && notdef_clusters(first@).len() > 0 ==> (r matches Err(Error::MissingGlyph { text: t })
            && t@ == text@),
{
    let missing = missing_clusters(first);
    let wants_emoji = contains_char(text, EMOJI_PRESENTATION);
    if has_fallback && (missing.len() > 0 || wants_emoji) {
        let clusters = glyph_clusters(first);
        let ranges = missing_ranges(text.len(), clusters.as_slice(), missing.as_slice());
        let segs = segments(text, ranges.as_slice());
        assert(missing_ranges_spec(
            text.len() as int,
            cluster_offsets(first@),
            notdef_clusters(first@),
            ranges@,
        ));
        return Ok(RunPlan::Split(segs));
    }
    if missing.len() == 0 {
        Ok(RunPlan::Primary)
    } else {
        Err(Error::MissingGlyph { text: text.to_owned() })
    }
}

/// Moving two rectangles and then joining them is joining and then moving.
proof fn lemma_translate_union(a: InkBounds, b: InkBounds, dx: int, dy: int)
    requires
        ink_translated(a, dx, dy) is Some,
        ink_translated(b, dx, dy) is Some,
    ensures
        ink_translated(ink_union(a, b), dx, dy) == Some(
            ink_union(ink_translated(a, dx, dy).unwrap(), ink_translated(b, dx, dy).unwrap()),
        ),
{
}

/// A glyph moved by `(dx, dy)` has its ink moved by `(dx, -dy)`.
proof fn lemma_glyph_moved_ink(g: GlyphView, dx: int, dy: int)
    requires
        glyph_ink(g) is Some,
        i64::MIN <= g.x.0 + dx <= i64::MAX,
        i64::MIN <= g.y.0 + dy <= i64::MAX,
        glyph_ink(
            GlyphView {
                glyph_id: g.glyph_id,
                x: Advance((g.x.0 + dx) as i64),
                y: Advance((g.y.0 + dy) as i64),
                strike: g.strike,
            },
        ) is Some,
    ensures
        glyph_ink(
            GlyphView {
                glyph_id: g.glyph_id,
                x: Advance((g.x.0 + dx) as i64),
                y: Advance((g.y.0 + dy) as i64),
                strike: g.strike,
            },
        ) == ink_translated(glyph_ink(g).unwrap(), dx, -dy),
{
}

proof fn lemma_moved_ink(gs: Seq<GlyphView>, dx: int, dy: int)
    requires
        glyphs_ink(gs) is Some,
        glyphs_moved(gs, dx, dy) is Some,
        glyphs_ink(glyphs_moved(gs, dx, dy).unwrap()) is Some,
    ensures
        glyphs_ink(glyphs_moved(gs, dx, dy).unwrap()) == ink_translated(glyphs_ink(gs).unwrap(), dx, -dy),
    decreases gs.len(),
{
    let moved = glyphs_moved(gs, dx, dy).unwrap();
    if gs.len() > 0 {
        let init = gs.drop_last();
        assert(glyphs_moved(init, dx, dy) is Some) by {
            assert forall|i: int| 0 <= i < init.len() implies i64::MIN <= #[trigger] init[i].x.0 + dx
                <= i64::MAX && i64::MIN <= init[i].y.0 + dy <= i64::MAX by {
                assert(init[i] == gs[i]);
            }
        }
        assert(glyphs_moved(init, dx, dy).unwrap() =~= moved.drop_last());
        lemma_moved_ink(init, dx, dy);
        let g = gs.last();
        assert(i64::MIN <= gs[gs.len() - 1].x.0 + dx <= i64::MAX);
        lemma_glyph_moved_ink(g, dx, dy);
        lemma_translate_union(glyphs_ink(init).unwrap(), glyph_ink(g).unwrap(), dx, -dy);
    }
}

/// A run's ink holds the ink of each of its glyphs.
pub proof fn lemma_run_ink_holds_glyphs(v: RunView, i: int)
    requires
        run_ok(v),
        0 <= i < v.glyphs.len(),
    ensures
        glyph_ink(v.glyphs[i]) is Some,
        !ink_is_empty(glyph_ink(v.glyphs[i]).unwrap()) ==> {
            let g = glyph_ink(v.glyphs[i]).unwrap();
            &&& v.ink.x0.0 <= g.x0.0
            &&& v.ink.y0.0 <= g.y0.0
            &&& g.x1.0 <= v.ink.x1.0
            &&& g.y1.0 <= v.ink.y1.0
        },
{
    lemma_union_holds(v.glyphs, i);
}

proof fn lemma_union_holds(gs: Seq<GlyphView>, i: int)
    requires
        glyphs_ink(gs) is Some,
        0 <= i < gs.len(),
    ensures
        glyph_ink(gs[i]) is Some,
        !ink_is_empty(glyph_ink(gs[i]).unwrap()) ==> {
            let g = glyph_ink(gs[i]).unwrap();
            let u = glyphs_ink(gs).unwrap();
            &&& u.x0.0 <= g.x0.0
            &&& u.y0.0 <= g.y0.0
            &&& g.x1.0 <= u.x1.0
            &&& g.y1.0 <= u.y1.0
        },
    decreases gs.len(),
{
    let init = gs.drop_last();
    let a = glyphs_ink(init).unwrap();
    let b = glyph_ink(gs.last()).unwrap();
    lemma_union_contains(a, b);
    if i < gs.len() - 1 {
        lemma_union_holds(init, i);
        assert(init[i] == gs[i]);
    }
}

/// Translating a run moves its ink with it: `dy` is up and ink is y-down,
/// so the ink moves by `(dx, -dy)`.
pub proof fn lemma_translate_moves_ink(v: RunView, dx: int, dy: int, w: RunView)
    requires
        run_ok(v),
        run_translated(v, dx, dy) == Some(w),
    ensures
        ink_translated(v.ink, dx, -dy) == Some(w.ink),
        w.advance == v.advance,
        w.glyphs.len() == v.glyphs.len(),
{
    if !(v.glyphs.len() == 0 && dx == 0 && dy == 0) {
        lemma_moved_ink(v.glyphs, dx, dy);
    }
}

/// A well-formed run is the run its own glyphs make.
proof fn lemma_make_run_of_self(v: RunView)
    requires
        run_ok(v),
    ensures
        make_run(v.glyphs, v.advance, v.text) == Some(v),
{
}

/// Moving a run by zero gives the run back.
pub proof fn lemma_translate_by_zero(v: RunView)
    requires
        run_ok(v),
    ensures
        run_translated(v, 0, 0) == Some(v),
{
    if v.glyphs.len() > 0 {
        let moved = glyphs_moved(v.glyphs, 0, 0);
        assert(moved is Some);
        assert(moved.unwrap() =~= v.glyphs);
        lemma_make_run_of_self(v);
    }
}

/// A successful move is undone by the opposite move: the glyphs, advance,
/// text and ink come back as they were.
pub proof fn lemma_translate_round_trip(v: RunView, dx: int, dy: int, w: RunView, u: RunView)
    requires
        run_ok(v),
        run_translated(v, dx, dy) == Some(w),
        run_translated(w, -dx, -dy) == Some(u),
    ensures
        u == v,
{
    if v.glyphs.len() == 0 && dx == 0 && dy == 0 {
        assert(w == v);
    } else {
        let m = glyphs_moved(v.glyphs, dx, dy).unwrap();
        assert(w.glyphs == m && w.advance == v.advance && w.text == v.text);
        assert(!(w.glyphs.len() == 0 && -dx == 0 && -dy == 0));
        let back = glyphs_moved(w.glyphs, -dx, -dy);
        assert(back is Some);
        assert(back.unwrap() =~= v.glyphs);
        lemma_make_run_of_self(v);
    }
}

/// The pens of a run set with tracking against the same run without: glyph `i`
/// sits `i` trackings further right, and the run's advance grows by the
/// tracking between each pair of neighbours.
pub proof fn lemma_tracking_shifts_pens(raw: Seq<RawGlyph>, strikes: Seq<StrikeView>, tracking: int, i: int)
    requires
        0 <= i <= raw.len(),
    ensures
        i < raw.len() ==> pen_before(raw, strikes, tracking, i) == pen_before(raw, strikes, 0, i) + i
            * tracking,
        i == raw.len() && i > 0 ==> pen_before(raw, strikes, tracking, i) == pen_before(raw, strikes, 0, i)
            + (i - 1) * tracking,
    decreases i,
{
    if i > 0 {
        lemma_tracking_shifts_pens(raw, strikes, tracking, i - 1);
        let step = pen_step(raw[i - 1], strikes[i - 1]);
        assert(pen_before(raw, strikes, tracking, i) == pen_before(raw, strikes, tracking, i - 1) + step
            + if i < raw.len() { tracking } else { 0 });
        assert(pen_before(raw, strikes, 0, i) == pen_before(raw, strikes, 0, i - 1) + step);
        assert((i - 1) * tracking + tracking == i * tracking) by (nonlinear_arith);
    } else {
        assert(0 * tracking == 0);
    }
}

/// The ink of glyph `i` of `gs`.
pub open spec fn ink_of(gs: Seq<GlyphView>, i: int) -> InkBounds {
    glyph_ink(gs[i]).unwrap()
}

/// A glyph's ink without area is the empty rectangle.
proof fn lemma_glyph_ink_empty(g: GlyphView)
    requires
        glyph_ink(g) is Some,
    ensures
        ink_is_empty(glyph_ink(g).unwrap()) ==> glyph_ink(g).unwrap() == empty_ink(),
{
    let s = strike_ink(g.strike);
    if g.strike.width != 0 && g.strike.height != 0 {
        assert(s.x0.0 < s.x1.0);
        assert(s.y0.0 < s.y1.0);
    }
}

/// Which glyph gives the union its edges: with ink, each edge is that of
/// a glyph with ink; without, the union is the empty rectangle.
proof fn lemma_union_least(gs: Seq<GlyphView>)
    requires
        glyphs_ink(gs) is Some,
    ensures
        ink_is_empty(glyphs_ink(gs).unwrap()) ==> glyphs_ink(gs).unwrap() == empty_ink(),
        !ink_is_empty(glyphs_ink(gs).unwrap()) ==> exists|i: int|
            0 <= i < gs.len() && !ink_is_empty(#[trigger] ink_of(gs, i)) && ink_of(gs, i).x0
                == glyphs_ink(gs).unwrap().x0,
        !ink_is_empty(glyphs_ink(gs).unwrap()) ==> exists|i: int|
            0 <= i < gs.len() && !ink_is_empty(#[trigger] ink_of(gs, i)) && ink_of(gs, i).y0
                == glyphs_ink(gs).unwrap().y0,
        !ink_is_empty(glyphs_ink(gs).unwrap()) ==> exists|i: int|
            0 <= i < gs.len() && !ink_is_empty(#[trigger] ink_of(gs, i)) && ink_of(gs, i).x1
                == glyphs_ink(gs).unwrap().x1,
        !ink_is_empty(glyphs_ink(gs).unwrap()) ==> exists|i: int|
            0 <= i < gs.len() && !ink_is_empty(#[trigger] ink_of(gs, i)) && ink_of(gs, i).y1
                == glyphs_ink(gs).unwrap().y1,
    decreases gs.len(),
{
    if gs.len() > 0 {
        let init = gs.drop_last();
        let n = gs.len() - 1;
        lemma_union_least(init);
        let a = glyphs_ink(init).unwrap();
        let b = glyph_ink(gs.last()).unwrap();
        let u = glyphs_ink(gs).unwrap();
        assert(u == ink_union(a, b));
        lemma_glyph_ink_empty(gs.last());
        assert(ink_of(gs, n) == b);
        if !ink_is_empty(a) {
            let jx0 = choose|j: int|
                0 <= j < init.len() && !ink_is_empty(#[trigger] ink_of(init, j)) && ink_of(init, j).x0 == a.x0;
            let jy0 = choose|j: int|
                0 <= j < init.len() && !ink_is_empty(#[trigger] ink_of(init, j)) && ink_of(init, j).y0 == a.y0;
            let jx1 = choose|j: int|
                0 <= j < init.len() && !ink_is_empty(#[trigger] ink_of(init, j)) && ink_of(init, j).x1 == a.x1;
            let jy1 = choose|j: int|
                0 <= j < init.len() && !ink_is_empty(#[trigger] ink_of(init, j)) && ink_of(init, j).y1 == a.y1;
            assert(ink_of(gs, jx0) == ink_of(init, jx0));
            assert(ink_of(gs, jy0) == ink_of(init, jy0));
            assert(ink_of(gs, jx1) == ink_of(init, jx1));
            assert(ink_of(gs, jy1) == ink_of(init, jy1));
        }
    }
}

/// A run's ink is the least box holding its glyphs' ink: empty when no
/// glyph has ink, and otherwise each of its edges is an edge of a glyph's
/// ink.
pub proof fn lemma_run_ink_is_least(v: RunView)
    requires
        run_ok(v),
    ensures
        (forall|i: int| 0 <= i < v.glyphs.len() ==> ink_is_empty(#[trigger] ink_of(v.glyphs, i)))
            ==> v.ink == empty_ink(),
        !ink_is_empty(v.ink) ==> exists|i: int|
            0 <= i < v.glyphs.len() && !ink_is_empty(#[trigger] ink_of(v.glyphs, i)) && ink_of(
                v.glyphs,
                i,
            ).x0 == v.ink.x0,
        !ink_is_empty(v.ink) ==> exists|i: int|
            0 <= i < v.glyphs.len() && !ink_is_empty(#[trigger] ink_of(v.glyphs, i)) && ink_of(
                v.glyphs,
                i,
            ).y0 == v.ink.y0,
        !ink_is_empty(v.ink) ==> exists|i: int|
            0 <= i < v.glyphs.len() && !ink_is_empty(#[trigger] ink_of(v.glyphs, i)) && ink_of(
                v.glyphs,
                i,
            ).x1 == v.ink.x1,
        !ink_is_empty(v.ink) ==> exists|i: int|
            0 <= i < v.glyphs.len() && !ink_is_empty(#[trigger] ink_of(v.glyphs, i)) && ink_of(
                v.glyphs,
                i,
            ).y1 == v.ink.y1,
{
    lemma_union_least(v.glyphs);
}

/// The OpenType name of a feature, four lower-case letters.
pub open spec fn feature_name(f: FeatureTag) -> Seq<char> {
    match f {
        FeatureTag::Kern => "kern"@,
        FeatureTag::Liga => "liga"@,
        FeatureTag::Calt => "calt"@,
        FeatureTag::Tnum => "tnum"@,
        FeatureTag::Lnum => "lnum"@,
        FeatureTag::Case => "case"@,
    }
}

/// Four ASCII characters read as a big-endian number.
pub open spec fn ascii_be(s: Seq<char>) -> int {
    (s[0] as int) * 0x100_0000 + (s[1] as int) * 0x1_0000 + (s[2] as int) * 0x100 + (s[3] as int)
}

/// Each feature's tag is its name's four letters read big-endian: `kern`,
/// `liga` and `calt` for every run, `tnum` and `lnum` (tabular, lining
/// figures) for figures, `case` for marks.
pub proof fn lemma_feature_tags_spell_their_names(f: FeatureTag)
    ensures
        feature_name(f).len() == 4,
        tag_value(f) == ascii_be(feature_name(f)),
{
    reveal_strlit("kern");
    reveal_strlit("liga");
    reveal_strlit("calt");
    reveal_strlit("tnum");
    reveal_strlit("lnum");
    reveal_strlit("case");
}

/// The features of each kind of run, by name.
pub proof fn lemma_features_by_name()
    ensures
        features_spec(ShapeKind::Run).map_values(|f: FeatureTag| feature_name(f)) == seq![
            "kern"@,
            "liga"@,
            "calt"@,
        ],
        features_spec(ShapeKind::Figure).map_values(|f: FeatureTag| feature_name(f)) == seq![
            "kern"@,
            "liga"@,
            "calt"@,
            "tnum"@,
            "lnum"@,
        ],
        features_spec(ShapeKind::Mark).map_values(|f: FeatureTag| feature_name(f)) == seq![
            "kern"@,
            "liga"@,
            "calt"@,
            "case"@,
        ],
{
    assert(features_spec(ShapeKind::Run).map_values(|f: FeatureTag| feature_name(f)) =~= seq![
        "kern"@,
        "liga"@,
        "calt"@,
    ]);
    assert(features_spec(ShapeKind::Figure).map_values(|f: FeatureTag| feature_name(f)) =~= seq![
        "kern"@,
        "liga"@,
        "calt"@,
        "tnum"@,
        "lnum"@,
    ]);
    assert(features_spec(ShapeKind::Mark).map_values(|f: FeatureTag| feature_name(f)) =~= seq![
        "kern"@,
        "liga"@,
        "calt"@,
        "case"@,
    ]);
}

} // verus!
