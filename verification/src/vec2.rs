//! Sub-tile positions for smooth movement, in fixed-point units of 2^-16 of
//! a tile, and axis-aligned boxes of them.

use vstd::prelude::*;
use crate::pos::{Area, Pos, in_range};

verus! {

/// One tile in sub-tile units.
pub const SUBTILE: i64 = 0x10000;

/// Sub-tile coordinates the world works with: rounding in any direction
/// yields an in-range tile, and sums with small deltas stay representable.
pub open spec fn v2_in_range(v: Vec2) -> bool {
    -0x03FF_FFFF_0000 <= v.x <= 0x03FF_FFFF_0000 && -0x03FF_FFFF_0000 <= v.y <= 0x03FF_FFFF_0000
}

/// Tile positions whose sub-tile image is in range.
pub open spec fn pos_mid_range(p: Pos) -> bool {
    -0x03FF_FFFF <= p.x <= 0x03FF_FFFF && -0x03FF_FFFF <= p.y <= 0x03FF_FFFF
}

/// A sub-tile 2D position or direction, in units of 2^-16 of a tile.
#[derive(Debug, Clone, Copy, PartialEq, Eq, Hash, Default, Structural)]
pub struct Vec2 {
    pub x: i64,
    pub y: i64,
}

impl Vec2 {
    pub fn new(x: i64, y: i64) -> (v: Vec2)
        ensures
            v.x == x && v.y == y,
    {
        Vec2 { x, y }
    }

    pub fn zero() -> (v: Vec2)
        ensures
            v.x == 0 && v.y == 0,
    {
        Vec2 { x: 0, y: 0 }
    }

    pub open spec fn from_pos_spec(pos: Pos) -> Vec2 {
        Vec2 {
            x: (pos.x as int * SUBTILE as int) as i64,
            y: (pos.y as int * SUBTILE as int) as i64,
        }
    }

    /// The tile position as a sub-tile position.
    pub fn from_pos(pos: &Pos) -> (v: Vec2)
        ensures
            v == Vec2::from_pos_spec(*pos),
            pos_mid_range(*pos) ==> v2_in_range(v),
    {
        Vec2 { x: pos.x as i64 * SUBTILE, y: pos.y as i64 * SUBTILE }
    }

    /// The nearest tile; exact halves round towards positive infinity.
    pub open spec fn round_spec(self) -> Pos {
        Pos {
            x: ((self.x + 0x8000) as int / SUBTILE as int) as i32,
            y: ((self.y + 0x8000) as int / SUBTILE as int) as i32,
        }
    }

    pub fn round(&self) -> (p: Pos)
        requires
            v2_in_range(*self),
        ensures
            p == self.round_spec(),
            in_range(p),
    {
        proof {
            lemma_subtile_div_range((self.x + 0x8000) as int);
            lemma_subtile_div_range((self.y + 0x8000) as int);
        }
        let px: i64 = (self.x + 0x8000).checked_div_euclid(SUBTILE).unwrap();
        let py: i64 = (self.y + 0x8000).checked_div_euclid(SUBTILE).unwrap();
        Pos { x: px as i32, y: py as i32 }
    }

    /// The tile this position falls in, rounding down.
    pub open spec fn floor_spec(self) -> Pos {
        Pos {
            x: (self.x as int / SUBTILE as int) as i32,
            y: (self.y as int / SUBTILE as int) as i32,
        }
    }

    pub fn floor(&self) -> (p: Pos)
        requires
            v2_in_range(*self),
        ensures
            p == self.floor_spec(),
            in_range(p),
    {
        proof {
            lemma_subtile_div_range(self.x as int);
            lemma_subtile_div_range(self.y as int);
        }
        let px: i64 = self.x.checked_div_euclid(SUBTILE).unwrap();
        let py: i64 = self.y.checked_div_euclid(SUBTILE).unwrap();
        Pos { x: px as i32, y: py as i32 }
    }

    /// The next tile boundary at or above this position.
    pub open spec fn ceil_spec(self) -> Pos {
        Pos {
            x: ((self.x + 0xFFFF) as int / SUBTILE as int) as i32,
            y: ((self.y + 0xFFFF) as int / SUBTILE as int) as i32,
        }
    }

    pub fn ceil(&self) -> (p: Pos)
        requires
            v2_in_range(*self),
        ensures
            p == self.ceil_spec(),
            in_range(p),
    {
        proof {
            lemma_subtile_div_range((self.x + 0xFFFF) as int);
            lemma_subtile_div_range((self.y + 0xFFFF) as int);
        }
        let px: i64 = (self.x + 0xFFFF).checked_div_euclid(SUBTILE).unwrap();
        let py: i64 = (self.y + 0xFFFF).checked_div_euclid(SUBTILE).unwrap();
        Pos { x: px as i32, y: py as i32 }
    }

    /// Component-wise sum.
    pub fn plus(self, other: Vec2) -> (v: Vec2)
        requires
            i64::MIN <= self.x + other.x <= i64::MAX,
            i64::MIN <= self.y + other.y <= i64::MAX,
        ensures
            v.x == self.x + other.x,
            v.y == self.y + other.y,
    {
        Vec2 { x: self.x + other.x, y: self.y + other.y }
    }

    /// Scaled by a fixed-point fraction: `frac` of `SUBTILE` per whole unit.
    pub open spec fn scaled_frac_spec(self, frac: i64) -> Vec2 {
        Vec2 {
            x: (self.x * frac as int / SUBTILE as int) as i64,
            y: (self.y * frac as int / SUBTILE as int) as i64,
        }
    }

    pub fn scaled_frac(self, frac: i64) -> (v: Vec2)
        requires
            -0x10_0000 <= self.x <= 0x10_0000,
            -0x10_0000 <= self.y <= 0x10_0000,
            0 <= frac <= SUBTILE,
        ensures
            v == self.scaled_frac_spec(frac),
            -0x10_0000 <= v.x <= 0x10_0000,
            -0x10_0000 <= v.y <= 0x10_0000,
    {
        proof {
            assert(-0x10_0000_0000 <= self.x * frac <= 0x10_0000_0000 && -0x10_0000_0000 <= self.y
                * frac <= 0x10_0000_0000) by (nonlinear_arith)
                requires
                    -0x10_0000 <= self.x <= 0x10_0000,
                    -0x10_0000 <= self.y <= 0x10_0000,
                    0 <= frac <= SUBTILE,
            ;
            vstd::arithmetic::div_mod::lemma_div_is_ordered(
                -0x10_0000_0000,
                (self.x * frac) as int,
                SUBTILE as int,
            );
            vstd::arithmetic::div_mod::lemma_div_is_ordered(
                (self.x * frac) as int,
                0x10_0000_0000,
                SUBTILE as int,
            );
            vstd::arithmetic::div_mod::lemma_div_is_ordered(
                -0x10_0000_0000,
                (self.y * frac) as int,
                SUBTILE as int,
            );
            vstd::arithmetic::div_mod::lemma_div_is_ordered(
                (self.y * frac) as int,
                0x10_0000_0000,
                SUBTILE as int,
            );
            assert((-0x10_0000_0000int) / SUBTILE as int == -0x10_0000);
            assert((0x10_0000_0000int) / SUBTILE as int == 0x10_0000);
        }
        let x: i64 = (self.x * frac).checked_div_euclid(SUBTILE).unwrap();
        let y: i64 = (self.y * frac).checked_div_euclid(SUBTILE).unwrap();
        Vec2 { x, y }
    }
}

/// Dividing an in-range sub-tile coordinate (give or take one tile) by the
/// unit lands well inside tile range.
proof fn lemma_subtile_div_range(x: int)
    requires
        -0x0400_0000_0000 <= x <= 0x0400_0000_0000,
    ensures
        -0x0400_0000 <= x / (SUBTILE as int) <= 0x0400_0000,
        i64::MIN <= x / (SUBTILE as int) <= i64::MAX,
{
    vstd::arithmetic::div_mod::lemma_div_is_ordered(-0x0400_0000_0000, x, SUBTILE as int);
    vstd::arithmetic::div_mod::lemma_div_is_ordered(x, 0x0400_0000_0000, SUBTILE as int);
    assert((-0x0400_0000_0000int) / (SUBTILE as int) == -0x0400_0000);
    assert((0x0400_0000_0000int) / (SUBTILE as int) == 0x0400_0000);
}

/// An axis-aligned box of sub-tile positions.
#[derive(Debug, Clone, Copy, PartialEq, Eq, Default, Structural)]
pub struct Rect {
    pub origin: Vec2,
    pub size: Vec2,
}

impl Rect {
    pub fn new(origin: Vec2, size: Vec2) -> (r: Rect)
        ensures
            r.origin == origin && r.size == size,
    {
        Rect { origin, size }
    }

    pub fn min(&self) -> (v: Vec2)
        ensures
            v == self.origin,
    {
        self.origin
    }

    pub fn max(&self) -> (v: Vec2)
        requires
            i64::MIN <= self.origin.x + self.size.x <= i64::MAX,
            i64::MIN <= self.origin.y + self.size.y <= i64::MAX,
        ensures
            v.x == self.origin.x + self.size.x,
            v.y == self.origin.y + self.size.y,
    {
        self.origin.plus(self.size)
    }

    /// The box translated by `delta`.
    pub fn moved(&self, delta: Vec2) -> (r: Rect)
        requires
            i64::MIN <= self.origin.x + delta.x <= i64::MAX,
            i64::MIN <= self.origin.y + delta.y <= i64::MAX,
        ensures
            r.origin.x == self.origin.x + delta.x,
            r.origin.y == self.origin.y + delta.y,
            r.size == self.size,
    {
        Rect { origin: self.origin.plus(delta), size: self.size }
    }

    /// The far corner of the box.
    pub open spec fn max_spec(&self) -> Vec2 {
        Vec2 { x: (self.origin.x + self.size.x) as i64, y: (self.origin.y + self.size.y) as i64 }
    }

    /// The smallest tile area covering the box.
    pub fn outer_area(&self) -> (a: Area)
        requires
            v2_in_range(self.origin),
            0 <= self.size.x <= 0x10_0000,
            0 <= self.size.y <= 0x10_0000,
            v2_in_range(self.max_spec()),
        ensures
            a.min_spec() == self.origin.floor_spec(),
            a.size_spec().x == self.max_spec().ceil_spec().x - self.origin.floor_spec().x,
            a.size_spec().y == self.max_spec().ceil_spec().y - self.origin.floor_spec().y,
    {
        let top = self.origin.floor();
        let bottom = self.max().ceil();
        Area::between(top, bottom)
    }
}

} // verus!
