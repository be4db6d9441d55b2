//! The random-tick schedule: a bijective permutation of the cells of a chunk
//! over time, as an arithmetic progression with step coprime to the chunk
//! area.

use vstd::prelude::*;
use crate::pos::{Pos, div_floor_i32, rem_floor_i32};
use crate::tickstamp::Tickstamp;

verus! {

/// The world is partitioned into square chunks of this side length.
pub const CHUNK_SIZE: i32 = 64;

/// Cells per chunk; one cell per chunk is ticked each world tick.
pub const CHUNK_AREA: i64 = 64 * 64;

/// The schedule's step; coprime to `CHUNK_AREA`.
pub const STEP: i64 = 541;

/// The modular inverse of `STEP`: `STEP * STEP_INVERSE == 1 (mod CHUNK_AREA)`.
pub const STEP_INVERSE: i64 = 53;

/// The phase is XORed with this constant so that cell (0, 0) is not the one
/// visited at phase 0.
pub const PHASE_XOR: i64 = 0b11_0111_0110;

/// Ticks this far apart visit cells this far apart in the schedule.
pub open spec fn schedule(t: int) -> int {
    (xor_i64(t as i64, PHASE_XOR) * STEP) % (CHUNK_AREA as int)
}

/// The phase at which the cell with intra-chunk index `ind` is visited.
pub open spec fn schedule_inverse(ind: int) -> int {
    xor_i64(((ind * STEP_INVERSE) % (CHUNK_AREA as int)) as i64, PHASE_XOR) as int
}

pub open spec fn xor_i64(a: i64, b: i64) -> i64 {
    a ^ b
}

/// The cell offset inside each chunk that is ticked at `time`.
pub open spec fn tick_position_spec(time: int) -> Pos {
    let ind = schedule(time);
    Pos { x: (ind % 64) as i32, y: (ind / 64) as i32 }
}

/// The offset inside its chunk of the cell ticked at `time`.
/// Tick counters the schedule arithmetic accepts without overflow.
pub open spec fn time_in_range(t: int) -> bool {
    -0x20_0000_0000_0000 <= t <= 0x20_0000_0000_0000
}

pub fn tick_position(time: Tickstamp) -> (p: Pos)
    requires
        time_in_range(time.0 as int),
    ensures
        p == tick_position_spec(time.0 as int),
        0 <= p.x < 64,
        0 <= p.y < 64,
{
    proof {
        let t = time.0;
        assert(t ^ PHASE_XOR <= t + 0x400 && t ^ PHASE_XOR >= t - 0x400) by (bit_vector);
    }
    let mixed: i64 = time.0 ^ PHASE_XOR;
    let ind_i64: i64 = (mixed * STEP).checked_rem_euclid(CHUNK_AREA).unwrap();
    proof {
        vstd::arithmetic::div_mod::lemma_mod_bound(
            (mixed * STEP) as int,
            CHUNK_AREA as int,
        );
    }
    let ind: i32 = ind_i64 as i32;
    proof {
        vstd::arithmetic::div_mod::lemma_mod_bound(ind as int, 64);
        vstd::arithmetic::div_mod::lemma_div_pos_is_pos(ind as int, 64);
        assert(ind / 64 < 64) by (nonlinear_arith)
            requires
                0 <= ind < 4096,
        ;
    }
    Pos { x: rem_floor_i32(ind, 64), y: div_floor_i32(ind, 64) }
}

/// One whole chunk cycle later, the same cell offset is visited.
pub proof fn lemma_tick_position_step(t: int)
    requires
        time_in_range(t),
        time_in_range(t + CHUNK_AREA),
    ensures
        tick_position_spec(t + CHUNK_AREA) == tick_position_spec(t),
{
    let a = t as i64;
    let b = (t + CHUNK_AREA) as i64;
    assert((b ^ 0b11_0111_0110i64) == (a ^ 0b11_0111_0110i64) + 4096i64) by (bit_vector)
        requires
            b == a + 4096i64,
            -0x20_0000_0000_0000i64 <= a <= 0x20_0000_0000_0000i64 - 4096i64,
    ;
    let m = xor_i64(a, PHASE_XOR) as int;
    assert((m + 4096) * (STEP as int) == (CHUNK_AREA as int) * (STEP as int) + m * (STEP as int))
        by (nonlinear_arith);
    vstd::arithmetic::div_mod::lemma_mod_multiples_vanish(
        STEP as int,
        m * (STEP as int),
        CHUNK_AREA as int,
    );
    assert(schedule(t + CHUNK_AREA) == schedule(t));
}

/// The schedule is periodic: ticks any whole number of chunk cycles apart
/// visit the same cell offset.
pub proof fn lemma_tick_position_periodic(t: int, k: nat)
    requires
        time_in_range(t),
        time_in_range(t + k * CHUNK_AREA),
    ensures
        tick_position_spec(t + k * CHUNK_AREA) == tick_position_spec(t),
    decreases k,
{
    if k > 0 {
        assert(t + (k - 1) * CHUNK_AREA == t + k * CHUNK_AREA - CHUNK_AREA) by (nonlinear_arith);
        lemma_tick_position_step(t + (k - 1) * CHUNK_AREA);
        lemma_tick_position_periodic(t, (k - 1) as nat);
    }
}

/// The phase within the chunk cycle at which `pos` is ticked.
pub open spec fn tick_time_spec(pos: Pos) -> int {
    let ind = pos.x as int % 64 + (pos.y as int % 64) * 64;
    schedule_inverse(ind)
}

pub fn tick_time(pos: Pos) -> (t: i64)
    ensures
        t == tick_time_spec(pos),
        0 <= t < CHUNK_AREA,
{
    let cx: i32 = rem_floor_i32(pos.x, CHUNK_SIZE);
    let cy: i32 = rem_floor_i32(pos.y, CHUNK_SIZE);
    proof {
        vstd::arithmetic::div_mod::lemma_mod_bound(pos.x as int, 64);
        vstd::arithmetic::div_mod::lemma_mod_bound(pos.y as int, 64);
    }
    let ind: i64 = (cx + cy * 64) as i64;
    let phase: i64 = (ind * STEP_INVERSE).checked_rem_euclid(CHUNK_AREA).unwrap();
    proof {
        vstd::arithmetic::div_mod::lemma_mod_bound((ind * STEP_INVERSE) as int, CHUNK_AREA as int);
        let p = phase;
        assert(0 <= p < 4096 ==> 0 <= (p ^ 0b11_0111_0110i64) < 4096) by (bit_vector);
    }
    phase ^ PHASE_XOR
}

/// How many times `pos` has been random-ticked up to and including `time`:
/// full cycles completed, plus one when this cell's phase in the current
/// cycle has already been visited.
pub open spec fn tick_num_spec(pos: Pos, time: int) -> int {
    time / (CHUNK_AREA as int) + if tick_time_spec(pos) <= time % (CHUNK_AREA as int) {
        1int
    } else {
        0int
    }
}

pub fn tick_num(pos: Pos, time: Tickstamp) -> (n: i64)
    requires
        time_in_range(time.0 as int),
    ensures
        n == tick_num_spec(pos, time.0 as int),
{
    let cycles: i64 = time.0.checked_div_euclid(CHUNK_AREA).unwrap();
    let phase: i64 = time.0.checked_rem_euclid(CHUNK_AREA).unwrap();
    proof {
        vstd::arithmetic::div_mod::lemma_mod_bound(time.0 as int, CHUNK_AREA as int);
        assert(time.0 as int / CHUNK_AREA as int >= -0x2000_0000_0000_0000
            && time.0 as int / CHUNK_AREA as int <= 0x2000_0000_0000_0000) by (nonlinear_arith)
            requires
                -0x2000_0000_0000_0000 <= time.0 as int <= 0x2000_0000_0000_0000,
        ;
    }
    if tick_time(pos) <= phase {
        cycles + 1
    } else {
        cycles
    }
}

/// The schedule step and its stored inverse really are inverse to one another
/// modulo the chunk area.
pub proof fn lemma_step_inverse()
    ensures
        (STEP * STEP_INVERSE) % (CHUNK_AREA as int) == 1,
{
    assert((541 * 53) % 4096 == 1);
}

/// The schedule visits one cell of the chunk at every phase, and the stored
/// inverse recovers the phase from the cell: the schedule is a bijection on
/// `[0, CHUNK_AREA)`.
pub proof fn lemma_schedule_round_trip(t: int)
    requires
        0 <= t < CHUNK_AREA,
    ensures
        0 <= schedule(t) < CHUNK_AREA,
        schedule_inverse(schedule(t)) == t,
{
    let m = CHUNK_AREA as int;
    let u = xor_i64(t as i64, PHASE_XOR) as int;
    let ti: i64 = t as i64;
    assert(0 <= ti < 4096 ==> 0 <= (ti ^ 0b11_0111_0110i64) < 4096 && ((ti ^ 0b11_0111_0110i64)
        ^ 0b11_0111_0110i64) == ti) by (bit_vector);
    vstd::arithmetic::div_mod::lemma_mod_bound(u * STEP, m);
    let ind = (u * STEP) % m;
    // (ind * STEP_INVERSE) % m == (u * STEP * STEP_INVERSE) % m == u % m == u.
    vstd::arithmetic::div_mod::lemma_mul_mod_noop_left(u * STEP, STEP_INVERSE as int, m);
    assert((u * STEP) * STEP_INVERSE == u * (STEP * STEP_INVERSE)) by (nonlinear_arith);
    assert(u * (541 * 53) == u * 28672 + u) by (nonlinear_arith);
    assert(u * 28672 == (u * 7) * m) by (nonlinear_arith)
        requires
            m == 4096,
    ;
    vstd::arithmetic::div_mod::lemma_mod_multiples_vanish(u * 7, u, m);
    vstd::arithmetic::div_mod::lemma_small_mod(u as nat, m as nat);
    assert((ind * STEP_INVERSE) % m == u);
    assert(schedule_inverse(ind) == xor_i64(u as i64, PHASE_XOR) as int);
    assert(schedule_inverse(schedule(t)) == t);
}

/// A cell's tick count advances by exactly one when time advances by one full
/// chunk cycle.
pub proof fn lemma_tick_num_step(pos: Pos, time: int)
    ensures
        tick_num_spec(pos, time + CHUNK_AREA) == tick_num_spec(pos, time) + 1,
{
    let m = CHUNK_AREA as int;
    vstd::arithmetic::div_mod::lemma_mod_add_multiples_vanish(time, m);
    vstd::arithmetic::div_mod::lemma_div_plus_one(time, m);
    assert((time + m) % m == time % m);
    assert((time + m) / m == time / m + 1);
}

/// The phase of a cell depends only on its offset inside its chunk: positions
/// a whole number of chunks apart share a phase.
pub proof fn lemma_tick_time_periodic(pos: Pos, chunks: Pos)
    requires
        crate::pos::in_range(pos),
        -0x100_0000 <= chunks.x <= 0x100_0000,
        -0x100_0000 <= chunks.y <= 0x100_0000,
    ensures
        tick_time_spec(pos) == tick_time_spec(
            Pos { x: (pos.x + chunks.x * 64) as i32, y: (pos.y + chunks.y * 64) as i32 },
        ),
{
    vstd::arithmetic::div_mod::lemma_mod_multiples_vanish(chunks.x as int, pos.x as int, 64);
    vstd::arithmetic::div_mod::lemma_mod_multiples_vanish(chunks.y as int, pos.y as int, 64);
    assert(chunks.x * 64 + pos.x == pos.x + chunks.x * 64);
    assert(chunks.y * 64 + pos.y == pos.y + chunks.y * 64);
}

} // verus!
