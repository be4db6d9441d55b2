//! Deterministic noise: an LCG-style mixing hash, position hashing, weighted
//! picks and bilinearly interpolated value noise.
//!
//! Everything here is a pure function of its arguments, so the same world seed
//! reproduces the same map on every machine. Noise samples are fixed-point
//! fractions scaled by 2^16 rather than floats, so results are exact and
//! platform-independent.

use vstd::prelude::*;
use crate::pos::Pos;

verus! {

pub const MULTIPLIER: u64 = 0x5DEECE66D;
pub const ADDEND: u64 = 0xB;
/// 2^48 - 1; the LCG state is 48 bits wide.
pub const MASK: u64 = 0xFFFF_FFFF_FFFF;
/// Noise samples are fractions scaled by this unit (2^16).
pub const UNIT: u32 = 0x10000;

/// The mixing hash: one LCG step on the 48-bit state seeded by `seed`,
/// keeping the high 32 bits.
#[verifier::opaque]
pub open spec fn hash_u32(seed: u32) -> u32 {
    let num = (seed as u64 ^ MULTIPLIER) & MASK;
    (((num * MULTIPLIER + ADDEND) % 0x1_0000_0000_0000) / 0x10000) as u32
}

/// Position hash: XOR of the coordinate hashes, mixed once more.
pub open spec fn hash_pos(pos: Pos) -> u32 {
    hash_u32(pos.x as u32 ^ hash_u32(pos.y as u32))
}

/// A noise sample in `[0, UNIT)`: the low 16 bits of the hash.
pub open spec fn unit_noise(seed: u32) -> u32 {
    (hash_u32(seed) % 0x10000) as u32
}

pub fn randomize_u32(seed: u32) -> (r: u32)
    ensures
        r == hash_u32(seed),
{
    let num: u64 = (seed as u64 ^ MULTIPLIER) & MASK;
    proof {
        reveal(hash_u32);
        assert((seed as u64 ^ 0x5DEECE66Du64) & 0xFFFF_FFFF_FFFFu64 <= 0xFFFF_FFFF_FFFFu64)
            by (bit_vector);
        assert(num * MULTIPLIER <= 0xFFFF_FFFF_FFFFu64 * MULTIPLIER) by (nonlinear_arith)
            requires
                num <= 0xFFFF_FFFF_FFFFu64,
        ;
    }
    let mixed: u128 = num as u128 * MULTIPLIER as u128 + ADDEND as u128;
    let masked: u64 = (mixed % 0x1_0000_0000_0000) as u64;
    (masked / 0x10000) as u32
}

pub fn randomize_pos(pos: Pos) -> (r: u32)
    ensures
        r == hash_pos(pos),
{
    randomize_u32(pos.x as u32 ^ randomize_u32(pos.y as u32))
}

/// A noise sample in `[0, UNIT)` drawn from `seed`.
pub fn random_unit(seed: u32) -> (r: u32)
    ensures
        r == unit_noise(seed),
        r < UNIT,
{
    randomize_u32(seed) % 0x10000
}

/// Picks one element by the remainder of `seed`.
pub fn pick<T>(seed: u32, choices: &[T]) -> (r: &T)
    requires
        choices@.len() > 0,
    ensures
        r == &choices@[seed as int % choices@.len() as int],
{
    &choices[seed as usize % choices.len()]
}

/// The sum of the weights of a weighted table.
pub open spec fn sum_weights<T>(choices: Seq<(T, u32)>) -> int
    decreases choices.len(),
{
    if choices.len() == 0 {
        0
    } else {
        choices[0].1 + sum_weights(choices.drop_first())
    }
}

/// The index a remainder `rind` falls on: weights are subtracted in order and
/// the first entry that sends the remainder below zero wins.
pub open spec fn weighted_index<T>(rind: int, choices: Seq<(T, u32)>) -> int
    decreases choices.len(),
{
    if choices.len() == 0 {
        0
    } else if rind < choices[0].1 {
        0
    } else {
        1 + weighted_index(rind - choices[0].1, choices.drop_first())
    }
}

/// A remainder below the total weight falls on an entry of the table.
pub proof fn lemma_weighted_index_in_bounds<T>(rind: int, choices: Seq<(T, u32)>)
    requires
        0 <= rind < sum_weights(choices),
    ensures
        0 <= weighted_index(rind, choices) < choices.len(),
    decreases choices.len(),
{
    if choices.len() > 0 && rind >= choices[0].1 {
        lemma_weighted_index_in_bounds(rind - choices[0].1, choices.drop_first());
    }
}

/// Picks an element with probability proportional to its weight: the entry
/// that `seed mod total` falls on when the weights are laid end to end.
pub fn pick_weighted<T>(seed: u32, choices: &[(T, u32)]) -> (r: &T)
    requires
        0 < sum_weights(choices@) <= i32::MAX,
    ensures
        *r == choices@[weighted_index(seed as int % sum_weights(choices@), choices@)].0,
{
    let total: u32 = sum_of(choices);
    let mut rind: i32 = (seed % total) as i32;
    proof {
        lemma_weighted_index_in_bounds(rind as int, choices@);
        assert(choices@.skip(0) =~= choices@);
    }
    let ghost orig_rind: int = rind as int;
    let mut i: usize = 0;
    loop
        invariant
            0 <= i <= choices@.len(),
            rind < sum_weights(choices@.skip(i as int)),
            rind >= 0,
            rind <= orig_rind,
            0 < sum_weights(choices@) <= i32::MAX,
            orig_rind == seed as int % sum_weights(choices@),
            weighted_index(orig_rind, choices@) == i + weighted_index(
                rind as int,
                choices@.skip(i as int),
            ),
            0 <= weighted_index(orig_rind, choices@) < choices@.len(),
        decreases choices@.len() - i,
    {
        proof {
            assert(choices@.skip(i as int).len() > 0) by {
                if choices@.skip(i as int).len() == 0 {
                    assert(sum_weights(choices@.skip(i as int)) == 0);
                }
            }
            assert(choices@.skip(i as int)[0] == choices@[i as int]);
            lemma_sum_weights_nonneg(choices@.skip(i as int).drop_first());
            assert(choices@.skip(i as int).drop_first() =~= choices@.skip(i as int + 1));
        }
        let chance: u32 = choices[i].1;
        if (rind as i64) < chance as i64 {
            assert(weighted_index(rind as int, choices@.skip(i as int)) == 0);
            assert(weighted_index(seed as int % sum_weights(choices@), choices@) == i as int);
            return &choices[i].0;
        }
        rind = rind - chance as i32;
        i = i + 1;
    }
}

/// Weights are unsigned, so every partial sum is nonnegative.
pub proof fn lemma_sum_weights_nonneg<T>(choices: Seq<(T, u32)>)
    ensures
        sum_weights(choices) >= 0,
    decreases choices.len(),
{
    if choices.len() > 0 {
        lemma_sum_weights_nonneg(choices.drop_first());
    }
}

/// For any table of two or more entries with positive weights there is a seed
/// on which `pick_weighted` answers the last entry: the remainder `total - 1`
/// outlasts every earlier weight.
pub proof fn lemma_pick_weighted_can_pick_last<T>(choices: Seq<(T, u32)>)
    requires
        choices.len() >= 2,
        forall|i: int| 0 <= i < choices.len() ==> (#[trigger] choices[i]).1 > 0,
        sum_weights(choices) <= i32::MAX,
    ensures
        exists|seed: u32|
            seed < sum_weights(choices) && #[trigger] weighted_index(seed as int, choices)
                == choices.len() - 1,
{
    lemma_sum_weights_nonneg(choices.drop_first());
    let total = sum_weights(choices);
    assert(choices[0].1 > 0);
    assert(total > 0);
    let seed = (total - 1) as u32;
    lemma_weighted_index_last(total - 1, choices);
    assert(seed < sum_weights(choices) && weighted_index(seed as int, choices) == choices.len()
        - 1);
}

/// The remainder `total - 1` always lands on the last entry.
pub proof fn lemma_weighted_index_last<T>(rind: int, choices: Seq<(T, u32)>)
    requires
        choices.len() >= 1,
        forall|i: int| 0 <= i < choices.len() ==> (#[trigger] choices[i]).1 > 0,
        rind == sum_weights(choices) - 1,
    ensures
        weighted_index(rind, choices) == choices.len() - 1,
    decreases choices.len(),
{
    if choices.len() == 1 {
        assert(sum_weights(choices.drop_first()) == 0);
    } else {
        let rest = choices.drop_first();
        lemma_sum_weights_nonneg(rest);
        assert(rest.len() >= 1);
        assert(rest[0] == choices[1]);
        assert(sum_weights(rest) >= rest[0].1 + sum_weights(rest.drop_first()));
        lemma_sum_weights_nonneg(rest.drop_first());
        assert(rind >= choices[0].1);
        lemma_weighted_index_last(rind - choices[0].1, rest);
    }
}

/// The total weight of the table, as an executable sum.
fn sum_of<T>(choices: &[(T, u32)]) -> (total: u32)
    requires
        sum_weights(choices@) <= u32::MAX,
    ensures
        total == sum_weights(choices@),
{
    let mut total: u32 = 0;
    let mut i: usize = 0;
    proof {
        assert(choices@.skip(0) =~= choices@);
    }
    while i < choices.len()
        invariant
            0 <= i <= choices@.len(),
            sum_weights(choices@) <= u32::MAX,
            total + sum_weights(choices@.skip(i as int)) == sum_weights(choices@),
        decreases choices@.len() - i,
    {
        proof {
            assert(choices@.skip(i as int)[0] == choices@[i as int]);
            lemma_sum_weights_nonneg(choices@.skip(i as int).drop_first());
            assert(choices@.skip(i as int).drop_first() =~= choices@.skip(i as int + 1));
        }
        total = total + choices[i].1;
        i = i + 1;
    }
    proof {
        assert(choices@.skip(choices@.len() as int).len() == 0);
    }
    total
}

/// White noise: an independent-looking hash sample for every position.
#[derive(Debug, Clone, Copy)]
pub struct WhiteNoise {
    pub seed: u32,
}

impl WhiteNoise {
    pub open spec fn seed_spec(&self) -> u32 {
        self.seed
    }

    pub fn new(seed: u32) -> (w: WhiteNoise)
        ensures
            w.seed_spec() == hash_u32(seed),
    {
        WhiteNoise { seed: randomize_u32(seed) }
    }

    pub open spec fn gen_spec(&self, pos: Pos) -> u32 {
        hash_u32(self.seed ^ hash_pos(pos))
    }

    pub fn gen(&self, pos: Pos) -> (r: u32)
        ensures
            r == self.gen_spec(pos),
    {
        randomize_u32(self.seed ^ randomize_pos(pos))
    }

    /// A sample in `[0, UNIT)`.
    pub fn gen_unit(&self, pos: Pos) -> (r: u32)
        ensures
            r == self.gen_spec(pos) % 0x10000,
            r < UNIT,
    {
        self.gen(pos) % 0x10000
    }
}

/// Seed of the `n`-th noise layer: the base seed hashed `n + 1` times, so a
/// change to one layer does not disturb the others.
pub open spec fn layer_seed(seed: u32, n: nat) -> u32
    decreases n,
{
    if n == 0 {
        hash_u32(seed)
    } else {
        hash_u32(layer_seed(seed, (n - 1) as nat))
    }
}

/// Bilinear interpolation of four corner samples on a grid cell of side `f`,
/// at offsets `(u, v)` from the low corner, in fixed-point arithmetic.
pub open spec fn bilinear(s00: int, s01: int, s10: int, s11: int, u: int, v: int, f: int) -> int {
    (s00 * (f - u) * (f - v) + s01 * (f - u) * v + s10 * u * (f - v) + s11 * u * v) / (f * f)
}

/// One value-noise layer: white noise on a lattice of spacing `factor`,
/// bilinearly interpolated between the four surrounding lattice points.
pub open spec fn depth_noise(seed: u32, pos: Pos, factor: int) -> int {
    let w = WhiteNoise { seed: hash_u32(seed) };
    if factor == 1 {
        (w.gen_spec(pos) % 0x10000) as int
    } else {
        let bx = (pos.x as int / factor) * factor;
        let by = (pos.y as int / factor) * factor;
        let u = pos.x - bx;
        let v = pos.y - by;
        let s00 = w.gen_spec(Pos { x: bx as i32, y: by as i32 }) % 0x10000;
        let s01 = w.gen_spec(Pos { x: bx as i32, y: (by + factor) as i32 }) % 0x10000;
        let s10 = w.gen_spec(Pos { x: (bx + factor) as i32, y: by as i32 }) % 0x10000;
        let s11 = w.gen_spec(Pos { x: (bx + factor) as i32, y: (by + factor) as i32 }) % 0x10000;
        bilinear(s00 as int, s01 as int, s10 as int, s11 as int, u, v, factor)
    }
}

/// The weighted sum of the layers, scaled back by the unit.
pub open spec fn fractal_noise(seed: u32, layers: Seq<(i32, u32)>, pos: Pos, n: nat) -> int
    decreases n,
{
    if n == 0 {
        0
    } else {
        fractal_noise(seed, layers, pos, (n - 1) as nat) + depth_noise(
            layer_seed(seed, (n - 1) as nat),
            pos,
            layers[n - 1].0 as int,
        ) * layers[n - 1].1
    }
}

/// A layer table the fractal accepts: small positive grid spacings and
/// weights no greater than one unit.
pub open spec fn layers_wf(layers: Seq<(i32, u32)>) -> bool {
    &&& layers.len() <= 8
    &&& forall|i: int|
        0 <= i < layers.len() ==> 1 <= (#[trigger] layers[i]).0 <= 1024 && layers[i].1 <= 0x10000
}

/// Fractal value noise: a weighted sum of bilinearly interpolated white-noise
/// layers. Samples are fixed-point fractions scaled by 2^16.
#[derive(Debug, Clone)]
pub struct Fractal {
    pub seed: u32,
    pub layers: Vec<(i32, u32)>,
}

impl Fractal {
    pub open spec fn wf(&self) -> bool {
        layers_wf(self.layers@)
    }

    pub fn new(seed: u32, layers: Vec<(i32, u32)>) -> (f: Fractal)
        requires
            layers_wf(layers@),
        ensures
            f.wf(),
            f.seed == seed,
            f.layers@ == layers@,
    {
        Fractal { seed, layers }
    }

    /// The noise value at `pos`, in `[0, 2^16 * total_weight / 2^16]`.
    pub fn gen_f(&self, pos: Pos) -> (r: u32)
        requires
            self.wf(),
            crate::pos::in_range(pos),
        ensures
            r == fractal_noise(self.seed, self.layers@, pos, self.layers@.len()) / 0x10000,
            r <= 0x8_0000,
    {
        let mut seed: u32 = self.seed;
        let mut acc: u64 = 0;
        let mut i: usize = 0;
        while i < self.layers.len()
            invariant
                0 <= i <= self.layers@.len(),
                self.wf(),
                crate::pos::in_range(pos),
                seed == if i == 0 {
                    self.seed
                } else {
                    layer_seed(self.seed, (i - 1) as nat)
                },
                acc == fractal_noise(self.seed, self.layers@, pos, i as nat),
                acc <= i * 0x1_0000_0000,
            decreases self.layers@.len() - i,
        {
            seed = randomize_u32(seed);
            proof {
                assert(seed == layer_seed(self.seed, i as nat));
            }
            let (factor, weight) = self.layers[i];
            let sample: u32 = depth_sample(seed, pos, factor);
            proof {
                assert(sample * weight <= 0x10000 * 0x10000) by (nonlinear_arith)
                    requires
                        sample <= 0x10000,
                        weight <= 0x10000,
                ;
            }
            acc = acc + (sample as u64) * (weight as u64);
            i = i + 1;
        }
        (acc / 0x10000) as u32
    }
}

/// One bilinear layer sample, in `[0, UNIT)`.
#[verifier::rlimit(60)]
fn depth_sample(seed: u32, pos: Pos, factor: i32) -> (r: u32)
    requires
        1 <= factor <= 1024,
        crate::pos::in_range(pos),
    ensures
        r == depth_noise(seed, pos, factor as int),
        r < 0x10000,
{
    let w = WhiteNoise::new(seed);
    if factor == 1 {
        return w.gen_unit(pos);
    }
    let qx: i32 = crate::pos::div_floor_i32(pos.x, factor);
    let qy: i32 = crate::pos::div_floor_i32(pos.y, factor);
    proof {
        vstd::arithmetic::div_mod::lemma_fundamental_div_mod(pos.x as int, factor as int);
        vstd::arithmetic::div_mod::lemma_fundamental_div_mod(pos.y as int, factor as int);
        vstd::arithmetic::div_mod::lemma_mod_bound(pos.x as int, factor as int);
        vstd::arithmetic::div_mod::lemma_mod_bound(pos.y as int, factor as int);
        vstd::arithmetic::mul::lemma_mul_is_commutative(
            pos.x as int / factor as int,
            factor as int,
        );
        vstd::arithmetic::mul::lemma_mul_is_commutative(
            pos.y as int / factor as int,
            factor as int,
        );
    }
    let bx: i32 = qx * factor;
    let by: i32 = qy * factor;
    let u: i32 = pos.x - bx;
    let v: i32 = pos.y - by;
    let s00: u32 = w.gen_unit(Pos { x: bx, y: by });
    let s01: u32 = w.gen_unit(Pos { x: bx, y: by + factor });
    let s10: u32 = w.gen_unit(Pos { x: bx + factor, y: by });
    let s11: u32 = w.gen_unit(Pos { x: bx + factor, y: by + factor });
    let r = bilinear_sample(s00, s01, s10, s11, u, v, factor);
    proof {
        assert(r == depth_noise(seed, pos, factor as int));
    }
    r
}

/// Executable bilinear interpolation of four fixed-point corner samples.
#[verifier::rlimit(100)]
fn bilinear_sample(s00: u32, s01: u32, s10: u32, s11: u32, u: i32, v: i32, f: i32) -> (r: u32)
    requires
        s00 < 0x10000,
        s01 < 0x10000,
        s10 < 0x10000,
        s11 < 0x10000,
        0 <= u < f,
        0 <= v < f,
        1 <= f <= 1024,
    ensures
        r == bilinear(s00 as int, s01 as int, s10 as int, s11 as int, u as int, v as int, f as int),
        r < 0x10000,
{
    let fu: u64 = (f - u) as u64;
    let fv: u64 = (f - v) as u64;
    let uu: u64 = u as u64;
    let vv: u64 = v as u64;
    let ff: u64 = f as u64;
    proof {
        lemma_bilinear_bound(
            s00 as int,
            s01 as int,
            s10 as int,
            s11 as int,
            fu as int,
            uu as int,
            fv as int,
            vv as int,
            ff as int,
        );
        assert(s00 as int * fu <= 0xFFFF * 1024 && s00 as int * fu * fv <= 0xFFFF * 1024 * 1024
            && s01 as int * fu <= 0xFFFF * 1024 && s01 as int * fu * vv <= 0xFFFF * 1024 * 1024
            && s10 as int * uu <= 0xFFFF * 1024 && s10 as int * uu * fv <= 0xFFFF * 1024 * 1024
            && s11 as int * uu <= 0xFFFF * 1024 && s11 as int * uu * vv <= 0xFFFF * 1024 * 1024)
            by (nonlinear_arith)
            requires
                s00 < 0x10000,
                s01 < 0x10000,
                s10 < 0x10000,
                s11 < 0x10000,
                0 <= fu <= 1024,
                0 <= uu <= 1024,
                0 <= fv <= 1024,
                0 <= vv <= 1024,
        ;
    }
    let total: u64 = s00 as u64 * fu * fv + s01 as u64 * fu * vv + s10 as u64 * uu * fv + s11
        as u64 * uu * vv;
    proof {
        assert(1 <= ff * ff <= 1024 * 1024) by (nonlinear_arith)
            requires
                1 <= ff <= 1024,
        ;
    }
    let r: u64 = total / (ff * ff);
    proof {
        assert(r < 0x10000) by (nonlinear_arith)
            requires
                total <= 0xFFFF * (ff * ff),
                r == total as int / (ff as int * ff as int),
                1 <= ff <= 1024,
        ;
        assert(ff * ff == ff as int * ff as int);
    }
    r as u32
}

/// The four bilinear coefficients sum to the square of the grid spacing, so
/// the weighted sum of samples below the unit stays below the unit times the
/// square.
proof fn lemma_bilinear_bound(
    s00: int,
    s01: int,
    s10: int,
    s11: int,
    fu: int,
    uu: int,
    fv: int,
    vv: int,
    ff: int,
)
    requires
        0 <= s00 < 0x10000,
        0 <= s01 < 0x10000,
        0 <= s10 < 0x10000,
        0 <= s11 < 0x10000,
        fu >= 0,
        uu >= 0,
        fv >= 0,
        vv >= 0,
        fu + uu == ff,
        fv + vv == ff,
        1 <= ff <= 1024,
    ensures
        s00 * fu * fv + s01 * fu * vv + s10 * uu * fv + s11 * uu * vv <= 0xFFFF * (ff * ff),
{
    assert(s00 * fu * fv <= 0xFFFF * (fu * fv)) by (nonlinear_arith)
        requires
            0 <= s00 <= 0xFFFF,
            fu >= 0,
            fv >= 0,
    ;
    assert(s01 * fu * vv <= 0xFFFF * (fu * vv)) by (nonlinear_arith)
        requires
            0 <= s01 <= 0xFFFF,
            fu >= 0,
            vv >= 0,
    ;
    assert(s10 * uu * fv <= 0xFFFF * (uu * fv)) by (nonlinear_arith)
        requires
            0 <= s10 <= 0xFFFF,
            uu >= 0,
            fv >= 0,
    ;
    assert(s11 * uu * vv <= 0xFFFF * (uu * vv)) by (nonlinear_arith)
        requires
            0 <= s11 <= 0xFFFF,
            uu >= 0,
            vv >= 0,
    ;
    assert(fu * fv + fu * vv + uu * fv + uu * vv == ff * ff) by (nonlinear_arith)
        requires
            fu + uu == ff,
            fv + vv == ff,
    ;
}

/// Smooth-step easing: cubic acceleration up to the midpoint, cubic
/// deceleration after it. Domain and range are `[0, UNIT]`.
pub open spec fn ease_in_out_cubic_spec(x: int) -> int {
    if x < 0x8000 {
        4 * x * x * x / 0x1_0000_0000
    } else {
        0x10000 - (2 * (0x10000 - x)) * (2 * (0x10000 - x)) * (2 * (0x10000 - x)) / 0x2_0000_0000
    }
}

pub fn ease_in_out_cubic(x: u32) -> (r: u32)
    requires
        x <= 0x10000,
    ensures
        r == ease_in_out_cubic_spec(x as int),
        r <= 0x10000,
{
    if x < 0x8000 {
        let c: u64 = x as u64;
        proof {
            assert((4 * c) * c <= 0x1_0000_0000 && ((4 * c) * c) * c <= 0x8000_0000_0000 && ((4
                * c) * c) * c / 0x1_0000_0000 < 0x8000) by (nonlinear_arith)
                requires
                    c < 0x8000,
            ;
        }
        let r: u64 = 4 * c * c * c / 0x1_0000_0000;
        r as u32
    } else {
        let t: u64 = 2 * (0x10000 - x as u64);
        proof {
            assert(t * t <= 0x1_0000_0000 && (t * t) * t <= 0x1_0000_0000_0000 && (t * t) * t
                / 0x2_0000_0000 <= 0x10000) by (nonlinear_arith)
                requires
                    t <= 0x10000,
            ;
        }
        let r: u64 = 0x10000 - t * t * t / 0x2_0000_0000;
        r as u32
    }
}

} // verus!
