//! Integer tile positions, cardinal directions and half-open rectangles.

use vstd::prelude::*;

verus! {

/// A cardinal direction on the tile grid. North is negative y.
#[derive(Debug, Clone, Copy, PartialEq, Eq, Structural)]
pub enum Direction {
    North,
    South,
    East,
    West,
}

impl Direction {
    /// The unit step this direction stands for.
    pub fn to_position(self) -> (p: Pos)
        ensures
            p == self.to_position_spec(),
    {
        match self {
            Direction::North => Pos { x: 0, y: -1 },
            Direction::South => Pos { x: 0, y: 1 },
            Direction::East => Pos { x: 1, y: 0 },
            Direction::West => Pos { x: -1, y: 0 },
        }
    }

    pub open spec fn to_position_spec(self) -> Pos {
        match self {
            Direction::North => Pos { x: 0i32, y: -1i32 },
            Direction::South => Pos { x: 0i32, y: 1i32 },
            Direction::East => Pos { x: 1i32, y: 0i32 },
            Direction::West => Pos { x: -1i32, y: 0i32 },
        }
    }

    /// All four directions, in a fixed order.
    pub fn all() -> (ds: Vec<Direction>)
        ensures
            ds@ =~= seq![Direction::North, Direction::South, Direction::East, Direction::West],
    {
        vec![Direction::North, Direction::South, Direction::East, Direction::West]
    }
}

/// An integer 2D tile coordinate.
#[derive(Debug, Clone, Copy, PartialEq, Eq, Hash, Default, Structural)]
pub struct Pos {
    pub x: i32,
    pub y: i32,
}

impl Pos {
    pub fn new(x: i32, y: i32) -> (p: Pos)
        ensures
            p.x == x && p.y == y,
    {
        Pos { x, y }
    }

    pub fn zero() -> (p: Pos)
        ensures
            p.x == 0 && p.y == 0,
    {
        Pos { x: 0, y: 0 }
    }

    pub fn from_tuple(t: (i32, i32)) -> (p: Pos)
        ensures
            p.x == t.0 && p.y == t.1,
    {
        Pos { x: t.0, y: t.1 }
    }

    /// Component-wise absolute value.
    pub fn abs(&self) -> (p: Pos)
        requires
            self.x != i32::MIN,
            self.y != i32::MIN,
        ensures
            p.x == abs_i32(self.x),
            p.y == abs_i32(self.y),
    {
        Pos {
            x: if self.x < 0 { -self.x } else { self.x },
            y: if self.y < 0 { -self.y } else { self.y },
        }
    }

    /// The larger component.
    pub fn max(&self) -> (m: i32)
        ensures
            m == if self.x > self.y { self.x } else { self.y },
    {
        if self.x > self.y {
            self.x
        } else {
            self.y
        }
    }

    /// The smaller component.
    pub fn min(&self) -> (m: i32)
        ensures
            m == if self.x < self.y { self.x } else { self.y },
    {
        if self.x < self.y {
            self.x
        } else {
            self.y
        }
    }

    /// Manhattan norm: `|x| + |y|`.
    pub fn size(&self) -> (s: i32)
        requires
            self.x != i32::MIN,
            self.y != i32::MIN,
            abs_i32(self.x) + abs_i32(self.y) <= i32::MAX,
        ensures
            s == self.size_spec(),
    {
        let a = self.abs();
        a.x + a.y
    }

    pub open spec fn size_spec(&self) -> int {
        abs_i32(self.x) + abs_i32(self.y)
    }

    pub fn is_zero(&self) -> (b: bool)
        ensures
            b == (self.x == 0 && self.y == 0),
    {
        self.x == 0 && self.y == 0
    }

    /// Manhattan distance to another position.
    pub fn distance_to(&self, other: Pos) -> (d: i32)
        requires
            in_range(*self),
            in_range(other),
        ensures
            d == manhattan(*self, other),
    {
        let p = other.minus(*self);
        p.size()
    }

    /// The directions that lead from `self` towards `other`, x axis first.
    pub fn directions_to(&self, other: Pos) -> (ds: Vec<Direction>)
        requires
            in_range(*self),
            in_range(other),
        ensures
            ds@ == directions_to_spec(*self, other),
    {
        let mut directions: Vec<Direction> = Vec::new();
        let d = other.minus(*self);
        if d.x > 0 {
            directions.push(Direction::East);
        }
        if d.x < 0 {
            directions.push(Direction::West);
        }
        if d.y > 0 {
            directions.push(Direction::South);
        }
        if d.y < 0 {
            directions.push(Direction::North);
        }
        assert(directions@ =~= directions_to_spec(*self, other));
        directions
    }

    /// Component-wise sum.
    pub fn plus(self, other: Pos) -> (p: Pos)
        requires
            i32::MIN <= self.x + other.x <= i32::MAX,
            i32::MIN <= self.y + other.y <= i32::MAX,
        ensures
            p.x == self.x + other.x,
            p.y == self.y + other.y,
    {
        Pos { x: self.x + other.x, y: self.y + other.y }
    }

    /// Component-wise difference.
    pub fn minus(self, other: Pos) -> (p: Pos)
        requires
            i32::MIN <= self.x - other.x <= i32::MAX,
            i32::MIN <= self.y - other.y <= i32::MAX,
        ensures
            p.x == self.x - other.x,
            p.y == self.y - other.y,
    {
        Pos { x: self.x - other.x, y: self.y - other.y }
    }

    /// One step in the given direction.
    pub fn step(self, dir: Direction) -> (p: Pos)
        requires
            i32::MIN < self.x < i32::MAX,
            i32::MIN < self.y < i32::MAX,
        ensures
            p.x == self.x + dir.to_position_spec().x,
            p.y == self.y + dir.to_position_spec().y,
    {
        self.plus(dir.to_position())
    }

    /// Component-wise scaling.
    pub fn scaled(self, n: i32) -> (p: Pos)
        requires
            i32::MIN <= self.x * n <= i32::MAX,
            i32::MIN <= self.y * n <= i32::MAX,
        ensures
            p.x == self.x * n,
            p.y == self.y * n,
    {
        Pos { x: self.x.checked_mul(n).unwrap(), y: self.y.checked_mul(n).unwrap() }
    }

    /// Component-wise Euclidean (floor) division, so that contiguous blocks of
    /// `n` coordinates map to one quotient even below zero.
    pub fn div_floor(self, n: i32) -> (p: Pos)
        requires
            n > 0,
        ensures
            p.x == self.x as int / n as int,
            p.y == self.y as int / n as int,
    {
        Pos { x: div_floor_i32(self.x, n), y: div_floor_i32(self.y, n) }
    }

    /// Component-wise Euclidean remainder; always in `[0, n)`.
    pub fn rem_floor(self, n: i32) -> (p: Pos)
        requires
            n > 0,
        ensures
            p.x == self.x as int % n as int,
            p.y == self.y as int % n as int,
    {
        Pos { x: rem_floor_i32(self.x, n), y: rem_floor_i32(self.y, n) }
    }
}

pub open spec fn abs_i32(x: i32) -> int {
    if x < 0 {
        -(x as int)
    } else {
        x as int
    }
}

/// Manhattan distance between two positions.
pub open spec fn manhattan(a: Pos, b: Pos) -> int {
    abs_i32((b.x - a.x) as i32) + abs_i32((b.y - a.y) as i32)
}

pub open spec fn directions_to_spec(from: Pos, to: Pos) -> Seq<Direction> {
    let d_x = to.x - from.x;
    let d_y = to.y - from.y;
    (if d_x > 0 {
        seq![Direction::East]
    } else if d_x < 0 {
        seq![Direction::West]
    } else {
        Seq::empty()
    }) + (if d_y > 0 {
        seq![Direction::South]
    } else if d_y < 0 {
        seq![Direction::North]
    } else {
        Seq::empty()
    })
}

/// Coordinates the world logic works with stay well inside `i32`, so sums and
/// small products of them cannot overflow.
pub open spec fn in_range(p: Pos) -> bool {
    -0x2000_0000 < p.x < 0x2000_0000 && -0x2000_0000 < p.y < 0x2000_0000
}

/// A half-open axis-aligned rectangle of tile positions: `[min, min + size)`.
#[derive(Debug, Clone, Copy, PartialEq, Eq, Hash, Default, Structural)]
pub struct Area {
    pub min: Pos,
    pub size: Pos,
}

impl Area {
    pub fn new(min: Pos, size: Pos) -> (a: Area)
        ensures
            a.min_spec() == min,
            a.size_spec() == size,
    {
        Area { min, size }
    }

    /// The area of the given size whose center is `center` (rounded down).
    pub fn centered(center: Pos, size: Pos) -> (a: Area)
        requires
            in_range(center),
            size.x >= 0,
            size.y >= 0,
            size.x < 0x2000_0000,
            size.y < 0x2000_0000,
        ensures
            a.min_spec().x == center.x - size.x as int / 2,
            a.min_spec().y == center.y - size.y as int / 2,
            a.size_spec() == size,
    {
        Area { min: center.minus(size.div_floor(2)), size }
    }

    pub fn min(&self) -> (p: Pos)
        ensures
            p == self.min_spec(),
    {
        self.min
    }

    pub fn size(&self) -> (p: Pos)
        ensures
            p == self.size_spec(),
    {
        self.size
    }

    pub fn max(&self) -> (p: Pos)
        requires
            i32::MIN <= self.min_spec().x + self.size_spec().x <= i32::MAX,
            i32::MIN <= self.min_spec().y + self.size_spec().y <= i32::MAX,
        ensures
            p.x == self.min_spec().x + self.size_spec().x,
            p.y == self.min_spec().y + self.size_spec().y,
    {
        self.min.plus(self.size)
    }

    pub open spec fn min_spec(&self) -> Pos {
        self.min
    }

    pub open spec fn size_spec(&self) -> Pos {
        self.size
    }

    /// Width clamped at zero, as a mathematical integer.
    pub open spec fn width(&self) -> int {
        if self.size.x > 0 {
            self.size.x as int
        } else {
            0
        }
    }

    /// Height clamped at zero, as a mathematical integer.
    pub open spec fn height(&self) -> int {
        if self.size.y > 0 {
            self.size.y as int
        } else {
            0
        }
    }

    pub open spec fn contains_spec(&self, pos: Pos) -> bool {
        &&& self.min.x <= pos.x < self.min.x + self.size.x
        &&& self.min.y <= pos.y < self.min.y + self.size.y
    }

    /// The position at index `k` of the row-major iteration order.
    pub open spec fn point_at(&self, k: int) -> Pos {
        Pos {
            x: (self.min.x + k % self.width()) as i32,
            y: (self.min.y + k / self.width()) as i32,
        }
    }

    pub fn contains(&self, pos: Pos) -> (b: bool)
        requires
            in_range(self.min_spec()),
            self.size_spec().x < 0x2000_0000,
            self.size_spec().y < 0x2000_0000,
        ensures
            b == self.contains_spec(pos),
    {
        pos.x >= self.min.x && (pos.x as i64) < self.min.x as i64 + self.size.x as i64
            && pos.y >= self.min.y && (pos.y as i64) < self.min.y as i64 + self.size.y as i64
    }

    /// Whether two areas share at least one position.
    pub open spec fn overlaps_spec(&self, other: &Area) -> bool {
        &&& self.min.x < other.min.x + other.size.x
        &&& other.min.x < self.min.x + self.size.x
        &&& self.min.y < other.min.y + other.size.y
        &&& other.min.y < self.min.y + self.size.y
    }

    pub fn overlaps(&self, other: &Area) -> (b: bool)
        requires
            in_range(self.min_spec()),
            in_range(other.min_spec()),
            0 <= self.size_spec().x < 0x2000_0000,
            0 <= self.size_spec().y < 0x2000_0000,
            0 <= other.size_spec().x < 0x2000_0000,
            0 <= other.size_spec().y < 0x2000_0000,
        ensures
            b == self.overlaps_spec(other),
    {
        self.min.x < other.min.x + other.size.x && other.min.x < self.min.x + self.size.x
            && self.min.y < other.min.y + other.size.y && other.min.y < self.min.y + self.size.y
    }

    /// The rectangle spanned by two corners (half-open at `max`).
    pub fn between(min: Pos, max: Pos) -> (a: Area)
        requires
            in_range(min),
            in_range(max),
        ensures
            a.min_spec() == min,
            a.size_spec().x == max.x - min.x,
            a.size_spec().y == max.y - min.y,
    {
        Area { min, size: max.minus(min) }
    }

    /// All positions of the area in row-major order (x varies fastest).
    pub fn iter(&self) -> (ps: Vec<Pos>)
        requires
            in_range(self.min_spec()),
            self.size_spec().x < 0x2000_0000,
            self.size_spec().y < 0x2000_0000,
            self.min_spec().x + self.size_spec().x <= 0x2000_0000,
            self.min_spec().y + self.size_spec().y <= 0x2000_0000,
        ensures
            ps@.len() == self.width() * self.height(),
            forall|k: int| 0 <= k < ps@.len() ==> ps@[k] == self.point_at(k),
            forall|k: int|
                0 <= k < ps@.len() ==> self.contains_spec(#[trigger] ps@[k]) && in_range(
                    ps@[k],
                ),
    {
        let mut ps: Vec<Pos> = Vec::new();
        if self.size.x <= 0 || self.size.y <= 0 {
            proof {
                vstd::arithmetic::mul::lemma_mul_basics(self.width());
                vstd::arithmetic::mul::lemma_mul_basics(self.height());
            }
            return ps;
        }
        let w = self.size.x;
        let h = self.size.y;
        let mut j: i32 = 0;
        while j < h
            invariant
                0 <= j <= h,
                0 < w < 0x2000_0000,
                0 < h < 0x2000_0000,
                w == self.size_spec().x,
                h == self.size_spec().y,
                in_range(self.min_spec()),
                self.min_spec().x + w <= 0x2000_0000,
                self.min_spec().y + h <= 0x2000_0000,
                ps@.len() == j * w,
                forall|k: int| 0 <= k < ps@.len() ==> ps@[k] == self.point_at(k),
            decreases h - j,
        {
            let mut i: i32 = 0;
            while i < w
                invariant
                    0 <= i <= w,
                    0 <= j < h,
                    0 < w < 0x2000_0000,
                    0 < h < 0x2000_0000,
                    w == self.size_spec().x,
                    h == self.size_spec().y,
                    in_range(self.min_spec()),
                    self.min_spec().x + w <= 0x2000_0000,
                    self.min_spec().y + h <= 0x2000_0000,
                    ps@.len() == j * w + i,
                    forall|k: int| 0 <= k < ps@.len() ==> ps@[k] == self.point_at(k),
                decreases w - i,
            {
                let p = Pos { x: self.min.x + i, y: self.min.y + j };
                proof {
                    let k = j * w + i;
                    vstd::arithmetic::div_mod::lemma_fundamental_div_mod_converse(
                        k,
                        w as int,
                        j as int,
                        i as int,
                    );
                    assert(self.point_at(k) == p);
                    assert(j * w + (i + 1) == (j * w + i) + 1) by (nonlinear_arith);
                }
                ps.push(p);
                i = i + 1;
            }
            proof {
                assert((j + 1) * w == j * w + w) by (nonlinear_arith);
            }
            j = j + 1;
        }
        proof {
            vstd::arithmetic::mul::lemma_mul_is_commutative(h as int, w as int);
        }
        proof {
            assert(forall|k: int|
                0 <= k < ps@.len() ==> self.contains_spec(#[trigger] ps@[k]) && in_range(ps@[k]))
                by {
                assert forall|k: int| 0 <= k < ps@.len() implies self.contains_spec(
                    #[trigger] ps@[k],
                ) && in_range(ps@[k]) by {
                    assert(ps@[k] == self.point_at(k));
                    vstd::arithmetic::div_mod::lemma_fundamental_div_mod(k, self.width());
                    vstd::arithmetic::div_mod::lemma_mod_bound(k, self.width());
                    vstd::arithmetic::div_mod::lemma_div_pos_is_pos(k, self.width());
                    assert(k < self.height() * self.width());
                    assert(k / self.width() < self.height()) by (nonlinear_arith)
                        requires
                            k < self.height() * self.width(),
                            self.width() > 0,
                            0 <= k,
                    ;
                }
            }
        }
        ps
    }

    /// A position inside the area drawn from `rind`: the remainder picks the
    /// column, the quotient's remainder the row, so every draw lands in the
    /// area and the draws spread roughly uniformly over it.
    pub fn random_pos(&self, rind: u32) -> (p: Pos)
        requires
            in_range(self.min_spec()),
            0 < self.size_spec().x < 0x2000_0000,
            0 < self.size_spec().y < 0x2000_0000,
        ensures
            p == self.random_pos_spec(rind),
            self.contains_spec(p),
    {
        let x = (rind % (self.size.x as u32)) as i32;
        let y = ((rind / (self.size.x as u32)) % (self.size.y as u32)) as i32;
        proof {
            vstd::arithmetic::div_mod::lemma_mod_bound(rind as int, self.size.x as int);
            vstd::arithmetic::div_mod::lemma_mod_bound(
                rind as int / self.size.x as int,
                self.size.y as int,
            );
            vstd::arithmetic::div_mod::lemma_div_pos_is_pos(rind as int, self.size.x as int);
        }
        Pos { x: x + self.min.x, y: y + self.min.y }
    }

    pub open spec fn random_pos_spec(&self, rind: u32) -> Pos {
        let x = rind as int % self.size.x as int;
        let y = (rind as int / self.size.x as int) % self.size.y as int;
        Pos { x: (x + self.min.x) as i32, y: (y + self.min.y) as i32 }
    }

    /// The area shrunk by `n` tiles on every side.
    pub fn shrink_by(&self, n: i32) -> (a: Area)
        requires
            in_range(self.min_spec()),
            -0x2000_0000 < self.size_spec().x < 0x2000_0000,
            -0x2000_0000 < self.size_spec().y < 0x2000_0000,
            -0x1000_0000 < n < 0x1000_0000,
        ensures
            a.min_spec().x == self.min_spec().x + n,
            a.min_spec().y == self.min_spec().y + n,
            a.size_spec().x == self.size_spec().x - 2 * n,
            a.size_spec().y == self.size_spec().y - 2 * n,
    {
        let nn = Pos { x: n, y: n };
        Area { min: self.min.plus(nn), size: self.size.minus(nn.scaled(2)) }
    }
}

/// Rust's truncating (round toward zero) integer division, as used by the
/// machine's `/` on possibly negative operands.
pub open spec fn trunc_div(a: int, b: int) -> int {
    if a >= 0 {
        a / b
    } else {
        -((-a) / b)
    }
}

/// Every position an area contains stands at some index of its row-major
/// iteration order.
pub proof fn lemma_area_point_index(area: Area, p: Pos)
    requires
        area.contains_spec(p),
    ensures
        ({
            let k = (p.y - area.min_spec().y) * area.width() + (p.x - area.min_spec().x);
            &&& 0 <= k < area.width() * area.height()
            &&& area.point_at(k) == p
        }),
{
    let w = area.width();
    let h = area.height();
    let dx = p.x - area.min_spec().x;
    let dy = p.y - area.min_spec().y;
    let k = dy * w + dx;
    assert(0 <= dx < w && 0 <= dy < h);
    assert(k < h * w) by (nonlinear_arith)
        requires
            0 <= dx < w,
            0 <= dy < h,
            k == dy * w + dx,
    ;
    assert(0 <= k) by (nonlinear_arith)
        requires
            0 <= dx,
            0 <= dy,
            w > 0,
            k == dy * w + dx,
    ;
    vstd::arithmetic::div_mod::lemma_fundamental_div_mod_converse(k, w, dy, dx);
    vstd::arithmetic::mul::lemma_mul_is_commutative(h, w);
}

/// Euclidean (floor) division for `i32`.
pub fn div_floor_i32(a: i32, b: i32) -> (q: i32)
    requires
        b > 0,
    ensures
        q == a as int / b as int,
{
    proof {
        vstd::arithmetic::div_mod::lemma_div_is_ordered(a as int, i32::MAX as int, b as int);
        vstd::arithmetic::div_mod::lemma_div_is_ordered(i32::MIN as int, a as int, b as int);
        vstd::arithmetic::div_mod::lemma_div_by_multiple(i32::MAX as int, 1);
        vstd::arithmetic::div_mod::lemma_div_is_ordered_by_denominator(i32::MAX as int, 1, b as int);
        assert(i32::MIN as int / b as int >= i32::MIN) by (nonlinear_arith)
            requires
                b > 0,
        ;
    }
    a.checked_div_euclid(b).unwrap()
}

/// Euclidean remainder for `i32`; always in `[0, b)`.
pub fn rem_floor_i32(a: i32, b: i32) -> (r: i32)
    requires
        b > 0,
    ensures
        r == a as int % b as int,
{
    a.checked_rem_euclid(b).unwrap()
}

} // verus!
