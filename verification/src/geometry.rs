//! 26.6 fixed-point pen positions and ink rectangles.

use vstd::prelude::*;

verus! {

/// Sub-dot units per printer dot (26.6 fixed point).
pub const FRAC: i32 = 64;

/// A signed 26.6 distance or position, in sixty-fourths of a dot.
#[derive(Debug, Clone, Copy, PartialEq, Eq, PartialOrd, Ord, Structural)]
pub struct Advance(pub i64);

impl Advance {
    /// The zero distance.
    pub fn zero() -> (r: Advance)
        ensures
            r.0 == 0,
    {
        Advance(0)
    }

    /// Wraps raw 26.6 units.
    pub fn from_units(units: i64) -> (r: Advance)
        ensures
            r.0 == units,
    {
        Advance(units)
    }

    /// Whole dots as 26.6, or `None` when the product leaves `i64`.
    pub fn from_dots(dots: i64) -> (r: Option<Advance>)
        ensures
            r matches Some(a) ==> a.0 == dots * FRAC,
            r is None <==> !(i64::MIN <= dots * FRAC <= i64::MAX),
    {
        if dots > i64::MAX / 64 || dots < i64::MIN / 64 {
            None
        } else {
            Some(Advance(dots * 64))
        }
    }

    /// Raw 26.6 units.
    pub fn units(&self) -> (r: i64)
        ensures
            r == self.0,
    {
        self.0
    }

    /// Checked sum.
    pub fn checked_add(&self, other: Advance) -> (r: Option<Advance>)
        ensures
            r matches Some(a) ==> a.0 == self.0 + other.0,
            r is None <==> !(i64::MIN <= self.0 + other.0 <= i64::MAX),
    {
        match self.0.checked_add(other.0) {
            Some(u) => Some(Advance(u)),
            None => None,
        }
    }
}

/// Checked negation of raw units.
pub fn checked_neg(v: i64) -> (r: Option<i64>)
    ensures
        r matches Some(n) ==> n == -v,
        r is None <==> v == i64::MIN,
{
    if v == i64::MIN {
        None
    } else {
        Some(-v)
    }
}

/// Ink rectangle, y down, origin at the pen. Empty when it has no area.
#[derive(Debug, Clone, Copy, PartialEq, Eq, Structural)]
pub struct InkBounds {
    pub x0: Advance,
    pub y0: Advance,
    pub x1: Advance,
    pub y1: Advance,
}

/// No ink: every coordinate zero.
pub open spec fn empty_ink() -> InkBounds {
    InkBounds { x0: Advance(0), y0: Advance(0), x1: Advance(0), y1: Advance(0) }
}

/// A rectangle holds ink when it has width and height.
pub open spec fn ink_is_empty(b: InkBounds) -> bool {
    b.x0.0 >= b.x1.0 || b.y0.0 >= b.y1.0
}

pub open spec fn min_i64(a: i64, b: i64) -> i64 {
    if a <= b { a } else { b }
}

pub open spec fn max_i64(a: i64, b: i64) -> i64 {
    if a >= b { a } else { b }
}

/// The smallest rectangle holding the ink of both; empty sides are ignored.
pub open spec fn ink_union(a: InkBounds, b: InkBounds) -> InkBounds {
    if ink_is_empty(a) {
        b
    } else if ink_is_empty(b) {
        a
    } else {
        InkBounds {
            x0: Advance(min_i64(a.x0.0, b.x0.0)),
            y0: Advance(min_i64(a.y0.0, b.y0.0)),
            x1: Advance(max_i64(a.x1.0, b.x1.0)),
            y1: Advance(max_i64(a.y1.0, b.y1.0)),
        }
    }
}

/// Whether every coordinate of `b` shifted by `(dx, dy)` stays in `i64`.
pub open spec fn shift_fits(b: InkBounds, dx: int, dy: int) -> bool {
    &&& i64::MIN <= b.x0.0 + dx <= i64::MAX
    &&& i64::MIN <= b.x1.0 + dx <= i64::MAX
    &&& i64::MIN <= b.y0.0 + dy <= i64::MAX
    &&& i64::MIN <= b.y1.0 + dy <= i64::MAX
}

/// `b` moved by `(dx, dy)`, assuming it fits.
pub open spec fn ink_shifted(b: InkBounds, dx: int, dy: int) -> InkBounds {
    InkBounds {
        x0: Advance((b.x0.0 + dx) as i64),
        y0: Advance((b.y0.0 + dy) as i64),
        x1: Advance((b.x1.0 + dx) as i64),
        y1: Advance((b.y1.0 + dy) as i64),
    }
}

/// What a checked translation gives: empty ink stays empty, overflow is `None`.
pub open spec fn ink_translated(b: InkBounds, dx: int, dy: int) -> Option<InkBounds> {
    if ink_is_empty(b) {
        Some(empty_ink())
    } else if shift_fits(b, dx, dy) {
        Some(ink_shifted(b, dx, dy))
    } else {
        None
    }
}

impl InkBounds {
    /// The empty rectangle.
    pub fn empty() -> (r: InkBounds)
        ensures
            r == empty_ink(),
    {
        InkBounds { x0: Advance(0), y0: Advance(0), x1: Advance(0), y1: Advance(0) }
    }

    /// A rectangle from its corners; `None` when a corner pair is reversed.
    pub fn new(x0: Advance, y0: Advance, x1: Advance, y1: Advance) -> (r: Option<InkBounds>)
        ensures
            r is None <==> (x0.0 > x1.0 || y0.0 > y1.0),
            r matches Some(b) ==> b == (InkBounds { x0, y0, x1, y1 }),
    {
        if x0.0 > x1.0 || y0.0 > y1.0 {
            None
        } else {
            Some(InkBounds { x0, y0, x1, y1 })
        }
    }

    pub fn x0(&self) -> (r: Advance)
        ensures
            r == self.x0,
    {
        self.x0
    }

    pub fn y0(&self) -> (r: Advance)
        ensures
            r == self.y0,
    {
        self.y0
    }

    pub fn x1(&self) -> (r: Advance)
        ensures
            r == self.x1,
    {
        self.x1
    }

    pub fn y1(&self) -> (r: Advance)
        ensures
            r == self.y1,
    {
        self.y1
    }

    /// No area.
    pub fn is_empty(&self) -> (r: bool)
        ensures
            r == ink_is_empty(*self),
    {
        self.x0.0 >= self.x1.0 || self.y0.0 >= self.y1.0
    }

    /// Smallest rectangle holding both.
    pub fn union(&self, other: InkBounds) -> (r: InkBounds)
        ensures
            r == ink_union(*self, other),
    {
        if self.is_empty() {
            other
        } else if other.is_empty() {
            *self
        } else {
            InkBounds {
                x0: Advance(if self.x0.0 <= other.x0.0 { self.x0.0 } else { other.x0.0 }),
                y0: Advance(if self.y0.0 <= other.y0.0 { self.y0.0 } else { other.y0.0 }),
                x1: Advance(if self.x1.0 >= other.x1.0 { self.x1.0 } else { other.x1.0 }),
                y1: Advance(if self.y1.0 >= other.y1.0 { self.y1.0 } else { other.y1.0 }),
            }
        }
    }

    /// Checked move by `(dx, dy)`. Empty ink stays empty.
    pub fn translate(&self, dx: Advance, dy: Advance) -> (r: Option<InkBounds>)
        ensures
            r == ink_translated(*self, dx.0 as int, dy.0 as int),
    {
        if self.is_empty() {
            return Some(InkBounds::empty());
        }
        let x0 = match self.x0.checked_add(dx) {
            Some(v) => v,
            None => return None,
        };
        let x1 = match self.x1.checked_add(dx) {
            Some(v) => v,
            None => return None,
        };
        let y0 = match self.y0.checked_add(dy) {
            Some(v) => v,
            None => return None,
        };
        let y1 = match self.y1.checked_add(dy) {
            Some(v) => v,
            None => return None,
        };
        Some(InkBounds { x0, y0, x1, y1 })
    }
}

/// The union holds both non-empty operands.
pub proof fn lemma_union_contains(a: InkBounds, b: InkBounds)
    ensures
        !ink_is_empty(a) ==> {
            let u = ink_union(a, b);
            &&& u.x0.0 <= a.x0.0
            &&& u.y0.0 <= a.y0.0
            &&& a.x1.0 <= u.x1.0
            &&& a.y1.0 <= u.y1.0
        },
        !ink_is_empty(b) ==> {
            let u = ink_union(a, b);
            &&& u.x0.0 <= b.x0.0
            &&& u.y0.0 <= b.y0.0
            &&& b.x1.0 <= u.x1.0
            &&& b.y1.0 <= u.y1.0
        },
        ink_is_empty(ink_union(a, b)) <==> (ink_is_empty(a) && ink_is_empty(b)),
{
}

} // verus!
