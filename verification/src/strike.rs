//! Unhinted coverage mask to packed 1-bit strike. A printer dot is ink at
//! coverage 96.

use vstd::prelude::*;

use crate::geometry::{empty_ink, Advance, InkBounds, FRAC};
use crate::printer::graphics::{row_bytes, width_bytes};

verus! {

/// Coverage at or above this level puts a dot on the paper.
pub const INK: u8 = 96;

/// Packed glyph at one ppem. Bearings are dots; advance is 26.6.
///
/// Immutable after construction; runs share one owner through `Arc`.
#[derive(Debug)]
pub struct Strike {
    left: i32,
    top: i32,
    width: u16,
    height: u16,
    bits: Vec<u8>,
    advance: i32,
}

/// What a strike holds.
pub struct StrikeView {
    pub left: i32,
    pub top: i32,
    pub width: u16,
    pub height: u16,
    pub bits: Seq<u8>,
    pub advance: i32,
}

impl View for Strike {
    type V = StrikeView;

    closed spec fn view(&self) -> StrikeView {
        StrikeView {
            left: self.left,
            top: self.top,
            width: self.width,
            height: self.height,
            bits: self.bits@,
            advance: self.advance,
        }
    }
}

/// Whether dot `(x, y)` is black in rows of `stride` bytes, most significant bit first.
pub open spec fn bit_at(bits: Seq<u8>, stride: int, x: int, y: int) -> bool {
    bits[y * stride + x / 8] & (0x80u8 >> ((x % 8) as u8)) != 0
}

/// `bits` packs a `w` x `h` picture whose black dots are those where `f` holds;
/// the padding at the end of each row is white.
pub open spec fn packs(bits: Seq<u8>, w: int, h: int, f: spec_fn(int, int) -> bool) -> bool {
    let stride = row_bytes(w);
    &&& bits.len() == stride * h
    &&& forall|x: int, y: int|
        0 <= x < stride * 8 && 0 <= y < h ==> #[trigger] bit_at(bits, stride, x, y) == (x < w
            && f(x, y))
}

/// A strike without pixels that still advances the pen.
pub open spec fn empty_strike(advance: i32) -> StrikeView {
    StrikeView { left: 0, top: 0, width: 0, height: 0, bits: Seq::empty(), advance }
}

/// Local ink of a strike in 26.6, origin at the pen, y down.
pub open spec fn strike_ink(s: StrikeView) -> InkBounds {
    if s.width == 0 || s.height == 0 {
        empty_ink()
    } else {
        InkBounds {
            x0: Advance((s.left * FRAC) as i64),
            y0: Advance((-s.top * FRAC) as i64),
            x1: Advance(((s.left + s.width) * FRAC) as i64),
            y1: Advance(((-s.top + s.height) * FRAC) as i64),
        }
    }
}

/// Coverage at dot `(x, y)` of a `w`-wide mask reaches the ink cut.
pub open spec fn covered(coverage: Seq<u8>, w: int) -> spec_fn(int, int) -> bool {
    |x: int, y: int| coverage[y * w + x] >= INK
}

/// The outline of a `w` x `h` box drawn with strokes `s` dots thick.
pub open spec fn hollow_box(w: int, h: int, s: int) -> spec_fn(int, int) -> bool {
    |x: int, y: int| y < s || y >= h - s || x < s || x >= w - s
}

pub open spec fn max_int(a: int, b: int) -> int {
    if a >= b { a } else { b }
}

pub open spec fn min_int(a: int, b: int) -> int {
    if a <= b { a } else { b }
}

/// Side lengths, stroke and bearing of the placeholder box at `ppem`.
pub open spec fn box_em(ppem: u16) -> int {
    max_int(ppem as int, 1)
}

pub open spec fn box_width(ppem: u16) -> int {
    max_int(box_em(ppem) * 11 / 20, 3)
}

pub open spec fn box_height(ppem: u16) -> int {
    max_int(box_em(ppem) * 13 / 20, 3)
}

pub open spec fn box_stroke(ppem: u16) -> int {
    let hi = max_int(min_int(box_width(ppem), box_height(ppem)) / 2, 1);
    let s = box_em(ppem) / 16;
    if s < 1 {
        1
    } else if s > hi {
        hi
    } else {
        s
    }
}

pub open spec fn box_bearing(ppem: u16) -> int {
    box_em(ppem) / 10
}

/// The placeholder strike drawn for a character no face has.
pub open spec fn placeholder_spec(ppem: u16, s: StrikeView) -> bool {
    let w = box_width(ppem);
    let h = box_height(ppem);
    &&& s.width == w
    &&& s.height == h
    &&& s.left == box_bearing(ppem)
    &&& s.top == h
    &&& s.advance == (w + 2 * box_bearing(ppem)) * FRAC
    &&& packs(s.bits, w, h, hollow_box(w, h, box_stroke(ppem)))
}

proof fn lemma_bit_or(b: u8, j: u8, k: u8)
    by (bit_vector)
    requires
        j < 8,
        k < 8,
    ensures
        ((b | (0x80u8 >> k)) & (0x80u8 >> j) != 0) == (j == k || (b & (0x80u8 >> j)) != 0),
{
}

proof fn lemma_zero_byte(j: u8)
    by (bit_vector)
    requires
        j < 8,
    ensures
        (0u8 & (0x80u8 >> j)) == 0,
{
}

proof fn lemma_cell(y: int, q: int, y2: int, q2: int, stride: int)
    by (nonlinear_arith)
    requires
        0 <= q < stride,
        0 <= q2 < stride,
        0 <= y,
        0 <= y2,
        y * stride + q == y2 * stride + q2,
    ensures
        y == y2,
        q == q2,
{
}

proof fn lemma_index_in(y: int, x: int, stride: int, h: int)
    by (nonlinear_arith)
    requires
        0 <= y < h,
        0 <= x < stride,
    ensures
        0 <= y * stride + x < stride * h,
        y * stride + stride <= stride * h,
{
}

/// A zeroed buffer packs the blank picture.
proof fn lemma_blank(bits: Seq<u8>, w: int, h: int)
    requires
        w >= 0,
        h >= 0,
        bits.len() == row_bytes(w) * h,
        forall|i: int| 0 <= i < bits.len() ==> bits[i] == 0u8,
    ensures
        forall|x: int, y: int|
            0 <= x < row_bytes(w) * 8 && 0 <= y < h ==> !#[trigger] bit_at(bits, row_bytes(w), x, y),
{
    let stride = row_bytes(w);
    assert forall|x: int, y: int| 0 <= x < stride * 8 && 0 <= y < h implies !#[trigger] bit_at(
        bits,
        stride,
        x,
        y,
    ) by {
        lemma_index_in(y, x / 8, stride, h);
        lemma_zero_byte((x % 8) as u8);
    }
}

/// Blackens dot `(x, y)` of rows `stride` bytes wide.
fn set_black(bits: &mut Vec<u8>, stride: usize, x: usize, y: usize)
    requires
        x < stride * 8,
        y * stride + stride <= old(bits).len(),
    ensures
        final(bits).len() == old(bits).len(),
        forall|x2: int, y2: int|
            0 <= x2 < stride * 8 && 0 <= y2 && y2 * stride + stride <= old(bits).len() ==> #[trigger] bit_at(
                final(bits)@,
                stride as int,
                x2,
                y2,
            ) == ((x2 == x && y2 == y) || bit_at(old(bits)@, stride as int, x2, y2)),
{
    let i = y * stride + x / 8;
    let k = (x % 8) as u8;
    let b = bits[i] | (0x80u8 >> k);
    let ghost before = bits@;
    bits.set(i, b);
    proof {
        assert forall|x2: int, y2: int|
            0 <= x2 < stride * 8 && 0 <= y2 && y2 * stride + stride <= before.len() implies #[trigger] bit_at(
            bits@,
            stride as int,
            x2,
            y2,
        ) == ((x2 == x && y2 == y) || bit_at(before, stride as int, x2, y2)) by {
            let i2 = y2 * stride + x2 / 8;
            let j = (x2 % 8) as u8;
            if i2 == i {
                lemma_cell(y2, x2 / 8, y as int, (x / 8) as int, stride as int);
                lemma_bit_or(before[i as int], j, k);
            } else {
                if x2 == x && y2 == y {
                    assert(false);
                }
            }
        }
    }
}


/// The dots of a `w` x `h` picture packed in `bits` that are black: those
/// where `f` holds, up to dot `(x, y)` in row-major order.
pub open spec fn painted_upto(
    bits: Seq<u8>,
    w: int,
    h: int,
    f: spec_fn(int, int) -> bool,
    x: int,
    y: int,
) -> bool {
    let stride = row_bytes(w);
    &&& bits.len() == stride * h
    &&& forall|x2: int, y2: int|
        0 <= x2 < stride * 8 && 0 <= y2 < h ==> #[trigger] bit_at(bits, stride, x2, y2) == (x2 < w
            && f(x2, y2) && (y2 < y || (y2 == y && x2 < x)))
}

/// Paints dot `(x, y)` black when `on`, extending the painted prefix by one dot.
fn paint_next(
    bits: &mut Vec<u8>,
    stride: usize,
    w: usize,
    h: usize,
    x: usize,
    y: usize,
    on: bool,
    Ghost(f): Ghost<spec_fn(int, int) -> bool>,
)
    requires
        1 <= w <= 65535,
        1 <= h <= 65535,
        stride == row_bytes(w as int),
        x < w,
        y < h,
        on == f(x as int, y as int),
        painted_upto(old(bits)@, w as int, h as int, f, x as int, y as int),
    ensures
        painted_upto(final(bits)@, w as int, h as int, f, x + 1, y as int),
{
    proof {
        lemma_index_in(y as int, 0, stride as int, h as int);
    }
    if on {
        set_black(bits, stride, x, y);
    }
    proof {
        assert forall|x2: int, y2: int| 0 <= x2 < stride * 8 && 0 <= y2 < h implies #[trigger] bit_at(
            bits@,
            stride as int,
            x2,
            y2,
        ) == (x2 < w && f(x2, y2) && (y2 < y || (y2 == y && x2 < x + 1))) by {
            lemma_index_in(y2, 0, stride as int, h as int);
        }
    }
}

impl Strike {
    /// A strike with no pixels that advances the pen by `advance` 26.6 units.
    pub fn empty(advance: i32) -> (r: Strike)
        ensures
            r@ == empty_strike(advance),
    {
        Strike { left: 0, top: 0, width: 0, height: 0, bits: Vec::new(), advance }
    }

    pub fn left(&self) -> (r: i32)
        ensures
            r == self@.left,
    {
        self.left
    }

    pub fn top(&self) -> (r: i32)
        ensures
            r == self@.top,
    {
        self.top
    }

    pub fn width(&self) -> (r: u16)
        ensures
            r == self@.width,
    {
        self.width
    }

    pub fn height(&self) -> (r: u16)
        ensures
            r == self@.height,
    {
        self.height
    }

    pub fn bits(&self) -> (r: &[u8])
        ensures
            r@ == self@.bits,
    {
        self.bits.as_slice()
    }

    pub fn advance_units(&self) -> (r: i32)
        ensures
            r == self@.advance,
    {
        self.advance
    }

    /// Local ink in 26.6, origin at the pen, y down. Left bearing may be
    /// negative; descenders have `y1 > 0`. Empty coverage is empty ink.
    pub fn ink(&self) -> (r: InkBounds)
        ensures
            r == strike_ink(self@),
    {
        if self.width == 0 || self.height == 0 {
            return InkBounds::empty();
        }
        let x0 = match Advance::from_dots(self.left as i64) {
            Some(a) => a,
            None => return InkBounds::empty(),
        };
        let y0 = match Advance::from_dots(-(self.top as i64)) {
            Some(a) => a,
            None => return InkBounds::empty(),
        };
        let w = match Advance::from_dots(self.width as i64) {
            Some(a) => a,
            None => return InkBounds::empty(),
        };
        let h = match Advance::from_dots(self.height as i64) {
            Some(a) => a,
            None => return InkBounds::empty(),
        };
        let x1 = match x0.checked_add(w) {
            Some(a) => a,
            None => return InkBounds::empty(),
        };
        let y1 = match y0.checked_add(h) {
            Some(a) => a,
            None => return InkBounds::empty(),
        };
        match InkBounds::new(x0, y0, x1, y1) {
            Some(b) => b,
            None => InkBounds::empty(),
        }
    }

    /// The mark for a character no face can draw: a hollow box about the size
    /// of a capital, standing on the baseline. Never empty, so the reader sees
    /// that something was there.
    pub fn placeholder(ppem: u16) -> (r: Strike)
        ensures
            placeholder_spec(ppem, r@),
    {
        placeholder(ppem)
    }
}

/// Packs a `width` x `height` coverage mask (row-major, one byte per dot):
/// a dot is black where its coverage reaches [`INK`]. A mask too wide or too
/// tall for `u16`, with no area, or shorter than `width * height` gives an
/// empty strike. `advance` is the pen advance in 26.6 units.
pub fn from_mask(
    left: i32,
    top: i32,
    width: u32,
    height: u32,
    coverage: &[u8],
    advance: i32,
) -> (r: Strike)
    ensures
        (width > u16::MAX || height > u16::MAX || width == 0 || height == 0 || coverage@.len()
            < width * height) ==> r@ == empty_strike(advance),
        !(width > u16::MAX || height > u16::MAX || width == 0 || height == 0 || coverage@.len()
            < width * height) ==> {
            &&& r@.left == left
            &&& r@.top == top
            &&& r@.width == width
            &&& r@.height == height
            &&& r@.advance == advance
            &&& packs(r@.bits, width as int, height as int, covered(coverage@, width as int))
        },
{
    if width > 65535 || height > 65535 {
        return Strike::empty(advance);
    }
    if width == 0 || height == 0 {
        return Strike::empty(advance);
    }
    let w = width as usize;
    let h = height as usize;
    assert(w * h <= 65535 * 65535) by (nonlinear_arith)
        requires
            w <= 65535,
            h <= 65535,
    ;
    let n = coverage.len();
    if n < w * h {
        return Strike::empty(advance);
    }
    let stride = width_bytes(width as u16);
    assert(stride * h <= 8192 * 65535) by (nonlinear_arith)
        requires
            stride <= 8192,
            h <= 65535,
    ;
    let mut bits = vec![0u8; stride * h];
    let ghost f = covered(coverage@, w as int);
    proof {
        lemma_blank(bits@, w as int, h as int);
    }
    let mut y: usize = 0;
    while y < h
        invariant
            w == width,
            h == height,
            1 <= w <= 65535,
            1 <= h <= 65535,
            w * h <= n,
            n == coverage@.len(),
            stride == row_bytes(w as int),
            f == covered(coverage@, w as int),
            y <= h,
            painted_upto(bits@, w as int, h as int, f, 0, y as int),
        decreases h - y,
    {
        let mut x: usize = 0;
        while x < w
            invariant
                w == width,
                h == height,
                1 <= w <= 65535,
                1 <= h <= 65535,
                w * h <= n,
                n == coverage@.len(),
                stride == row_bytes(w as int),
                f == covered(coverage@, w as int),
                y < h,
                x <= w,
                painted_upto(bits@, w as int, h as int, f, x as int, y as int),
            decreases w - x,
        {
            proof {
                lemma_index_in(y as int, x as int, w as int, h as int);
                assert(y * w + x < n);
            }
            let on = coverage[y * w + x] >= INK;
            paint_next(&mut bits, stride, w, h, x, y, on, Ghost(f));
            x = x + 1;
        }
        assert(painted_upto(bits@, w as int, h as int, f, 0, y + 1));
        y = y + 1;
    }
    Strike { left, top, width: width as u16, height: height as u16, bits, advance }
}

/// The hollow placeholder box for `ppem` (see [`Strike::placeholder`]).
pub fn placeholder(ppem: u16) -> (r: Strike)
    ensures
        placeholder_spec(ppem, r@),
{
    let em: u32 = if ppem < 1 { 1 } else { ppem as u32 };
    let w0 = em * 11 / 20;
    let width: u32 = if w0 < 3 { 3 } else { w0 };
    let h0 = em * 13 / 20;
    let height: u32 = if h0 < 3 { 3 } else { h0 };
    let side = if width <= height { width } else { height };
    let hi0 = side / 2;
    let hi: u32 = if hi0 < 1 { 1 } else { hi0 };
    let s0 = em / 16;
    let stroke: u32 = if s0 < 1 { 1 } else if s0 > hi { hi } else { s0 };
    let bearing = em / 10;
    let w = width as usize;
    let h = height as usize;
    let s = stroke as usize;
    let stride = width_bytes(width as u16);
    assert(stride * h <= 8192 * 65535) by (nonlinear_arith)
        requires
            stride <= 8192,
            h <= 65535,
    ;
    let mut bits = vec![0u8; stride * h];
    let ghost f = hollow_box(w as int, h as int, s as int);
    proof {
        lemma_blank(bits@, w as int, h as int);
    }
    let mut y: usize = 0;
    while y < h
        invariant
            w == box_width(ppem),
            h == box_height(ppem),
            s == box_stroke(ppem),
            3 <= w <= 65535,
            3 <= h <= 65535,
            1 <= s <= h / 2,
            s <= w / 2,
            stride == row_bytes(w as int),
            f == hollow_box(w as int, h as int, s as int),
            y <= h,
            painted_upto(bits@, w as int, h as int, f, 0, y as int),
        decreases h - y,
    {
        let mut x: usize = 0;
        while x < w
            invariant
                w == box_width(ppem),
                h == box_height(ppem),
                s == box_stroke(ppem),
                3 <= w <= 65535,
                3 <= h <= 65535,
                1 <= s <= h / 2,
                s <= w / 2,
                stride == row_bytes(w as int),
                f == hollow_box(w as int, h as int, s as int),
                y < h,
                x <= w,
                painted_upto(bits@, w as int, h as int, f, x as int, y as int),
            decreases w - x,
        {
            let on = y < s || y >= h - s || x < s || x >= w - s;
            paint_next(&mut bits, stride, w, h, x, y, on, Ghost(f));
            x = x + 1;
        }
        assert(painted_upto(bits@, w as int, h as int, f, 0, y + 1));
        y = y + 1;
    }
    let advance = ((width + 2 * bearing) * 64) as i32;
    Strike {
        left: bearing as i32,
        top: height as i32,
        width: width as u16,
        height: height as u16,
        bits,
        advance,
    }
}

/// The placeholder is never empty, stands on the baseline, and advances
/// the pen at least its own width (past it once the bearing is a dot).
pub proof fn lemma_placeholder_shape(ppem: u16, s: StrikeView)
    requires
        placeholder_spec(ppem, s),
    ensures
        !crate::geometry::ink_is_empty(strike_ink(s)),
        strike_ink(s).y1.0 == 0,
        s.width >= 3 && s.height >= 3,
        s.advance >= s.width * FRAC,
        ppem >= 10 ==> s.advance > s.width * FRAC,
{
}

} // verus!
