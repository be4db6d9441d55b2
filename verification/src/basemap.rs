//! The infinite procedural base map: biome assignment by hashed biome-core
//! Voronoi cells, and per-biome tile synthesis.
//!
//! Everything here is a pure function of the world seed, the position and the
//! tick time; heights and odds are fixed-point fractions scaled by 2^16.

use vstd::prelude::*;
use crate::pos::{Area, Pos, in_range, manhattan, trunc_div};
use crate::random::{Fractal, WhiteNoise, fractal_noise, hash_u32, layer_seed, randomize_u32,
    unit_noise, weighted_index, sum_weights, ease_in_out_cubic, ease_in_out_cubic_spec};
use crate::randomtick::{tick_num, tick_num_spec, time_in_range};
use crate::tickstamp::Tickstamp;
use crate::tile::{Ground, Structure, Tile};

verus! {

/// The spacing of the biome cell lattice.
pub const BIOME_SIZE: i32 = 48;

/// The amplitude of the edge fuzz that makes biome borders irregular.
pub const EDGE_SIZE: i32 = 12;

/// The kinds of terrain a biome cell can hold.
#[derive(Debug, Clone, Copy, PartialEq, Eq, Structural)]
pub enum Biome {
    Start,
    Forest,
    Field,
    Lake,
    Rocks,
    Bog,
}

/// A cell of the biome lattice.
#[derive(Debug, Clone, Copy, PartialEq, Eq, Hash, Default, Structural)]
pub struct BPos(pub Pos);

/// Biome cells the map works with; world positions divided by the lattice
/// spacing always land here.
pub open spec fn bpos_in_range(b: BPos) -> bool {
    -0x41_0000 <= b.0.x <= 0x41_0000 && -0x41_0000 <= b.0.y <= 0x41_0000
}

/// World positions the map synthesizes tiles for.
pub open spec fn pos_tile_range(p: Pos) -> bool {
    -0x0800_0000 < p.x < 0x0800_0000 && -0x0800_0000 < p.y < 0x0800_0000
}

/// Tile positions give or take the edge fuzz.
pub open spec fn pos_fuzz_range(p: Pos) -> bool {
    -0x0800_0040 <= p.x <= 0x0800_0040 && -0x0800_0040 <= p.y <= 0x0800_0040
}

/// `u32` addition with wraparound, as the seed derivations use it.
pub open spec fn wadd(a: u32, b: u32) -> u32 {
    ((a + b) % 0x1_0000_0000) as u32
}

/// The deterministic random point of a biome cell that all positions of the
/// biome are closest to. The start cell's core is exactly the origin.
#[verifier::opaque]
pub open spec fn biome_core_spec(seed: u32, b: BPos) -> Pos {
    let rind = WhiteNoise { seed: hash_u32(wadd(seed, 821)) }.gen_spec(b.0);
    let core_area = Area { min: Pos { x: -12i32, y: -12i32 }, size: Pos { x: 24i32, y: 24i32 } };
    let off = if b == (BPos(Pos { x: 0i32, y: 0i32 })) {
        Pos { x: 0i32, y: 0i32 }
    } else {
        core_area.random_pos_spec(rind)
    };
    Pos {
        x: (b.0.x * 48 + off.x + b.0.y * 24) as i32,
        y: (b.0.y * 48 + off.y) as i32,
    }
}

/// The weighted biome table, drawn per cell.
pub open spec fn biome_table() -> Seq<(Biome, u32)> {
    seq![
        (Biome::Field, 10u32),
        (Biome::Forest, 10u32),
        (Biome::Lake, 5u32),
        (Biome::Rocks, 5u32),
        (Biome::Bog, 5u32),
    ]
}

/// The biome of a cell: the start cell is the Start biome, every other cell
/// draws from the weighted table.
#[verifier::opaque]
pub open spec fn biome_at_spec(seed: u32, b: BPos) -> Biome {
    if b == (BPos(Pos { x: 0i32, y: 0i32 })) {
        Biome::Start
    } else {
        let rind = WhiteNoise { seed: hash_u32(wadd(seed, 333)) }.gen_spec(b.0);
        biome_table()[weighted_index(rind as int % sum_weights(biome_table()), biome_table())].0
    }
}

/// The lattice cell below and left of `pos`, after unshearing the rows.
pub open spec fn base_cell(pos: Pos) -> BPos {
    BPos(
        Pos {
            x: ((pos.x - trunc_div(pos.y as int, 2)) as int / 48) as i32,
            y: (pos.y as int / 48) as i32,
        },
    )
}

/// The four lattice cells whose cores can be closest to `pos`.
pub open spec fn candidates(pos: Pos) -> Seq<BPos> {
    let b = base_cell(pos);
    seq![
        BPos(Pos { x: b.0.x, y: b.0.y }),
        BPos(Pos { x: (b.0.x + 1) as i32, y: b.0.y }),
        BPos(Pos { x: b.0.x, y: (b.0.y + 1) as i32 }),
        BPos(Pos { x: (b.0.x + 1) as i32, y: (b.0.y + 1) as i32 }),
    ]
}

/// The first candidate whose core is closest to `pos` by Manhattan distance.
pub open spec fn closest_biome_pos_spec(seed: u32, pos: Pos) -> BPos {
    let cs = candidates(pos);
    let d0 = manhattan(pos, biome_core_spec(seed, cs[0]));
    let d1 = manhattan(pos, biome_core_spec(seed, cs[1]));
    let d2 = manhattan(pos, biome_core_spec(seed, cs[2]));
    let d3 = manhattan(pos, biome_core_spec(seed, cs[3]));
    if d0 <= d1 && d0 <= d2 && d0 <= d3 {
        cs[0]
    } else if d1 <= d2 && d1 <= d3 {
        cs[1]
    } else if d2 <= d3 {
        cs[2]
    } else {
        cs[3]
    }
}

/// How far `pos` is from the nearest candidate core of another biome than
/// its own, less its distance to its own core; half the lattice spacing when
/// all four candidates share a biome.
pub open spec fn edge_distance_spec(seed: u32, pos: Pos) -> int {
    let cs = candidates(pos);
    let own = closest_biome_pos_spec(seed, pos);
    let own_dist = manhattan(pos, biome_core_spec(seed, own));
    let own_biome = biome_at_spec(seed, own);
    if biome_at_spec(seed, cs[0]) == own_biome && biome_at_spec(seed, cs[1]) == own_biome
        && biome_at_spec(seed, cs[2]) == own_biome && biome_at_spec(seed, cs[3]) == own_biome {
        24
    } else {
        min_other_dist(seed, pos) - own_dist
    }
}

/// The smallest candidate-core distance among candidates of another biome.
pub open spec fn min_other_dist(seed: u32, pos: Pos) -> int {
    let cs = candidates(pos);
    let own_biome = biome_at_spec(seed, closest_biome_pos_spec(seed, pos));
    let d = |i: int| manhattan(pos, biome_core_spec(seed, cs[i]));
    let diff = |i: int| biome_at_spec(seed, cs[i]) != own_biome;
    if diff(0) && (!diff(1) || d(0) <= d(1)) && (!diff(2) || d(0) <= d(2)) && (!diff(3) || d(0)
        <= d(3)) {
        d(0)
    } else if diff(1) && (!diff(2) || d(1) <= d(2)) && (!diff(3) || d(1) <= d(3)) {
        d(1)
    } else if diff(2) && (!diff(3) || d(2) <= d(3)) {
        d(2)
    } else {
        d(3)
    }
}

/// The edge fuzz displacement of a world position.
pub open spec fn fuzz_offset_spec(seed: u32, pos: Pos) -> Pos {
    let rind = WhiteNoise { seed: hash_u32(wadd(seed, 343)) }.gen_spec(pos);
    let ox = (rind % 12) as int - 6;
    let oy = ((rind / 12) % 12) as int - 6;
    if crate::pos::abs_i32(ox as i32) + crate::pos::abs_i32(oy as i32) > 6 {
        Pos { x: (ox % 12 - 6) as i32, y: (oy % 12 - 6) as i32 }
    } else {
        Pos { x: ox as i32, y: oy as i32 }
    }
}

/// The biome cell owning `pos` after edge fuzz, and the offset of `pos` from
/// that cell's core.
pub open spec fn biome_pos_spec(seed: u32, pos: Pos) -> (BPos, Pos) {
    let off = fuzz_offset_spec(seed, pos);
    let fuzzy = Pos { x: (pos.x + off.x) as i32, y: (pos.y + off.y) as i32 };
    let b = closest_biome_pos_spec(seed, fuzzy);
    let core = biome_core_spec(seed, b);
    (b, Pos { x: (pos.x - core.x) as i32, y: (pos.y - core.y) as i32 })
}

/// The infinite base map: stateless besides the seed and the height noise.
#[derive(Debug, Clone)]
pub struct InfiniteMap {
    pub seed: u32,
    pub height: Fractal,
}

impl InfiniteMap {
    /// The height-noise layer table derived from `seed`.
    pub open spec fn height_layers() -> Seq<(i32, u32)> {
        seq![(3i32, 7864u32), (5i32, 13107u32), (7i32, 17039u32), (11i32, 27525u32)]
    }

    pub open spec fn wf(&self) -> bool {
        &&& self.height.seed == wadd(self.seed, 344)
        &&& self.height.layers@ == InfiniteMap::height_layers()
        &&& self.height.wf()
    }

    pub fn new(seed: u32) -> (m: InfiniteMap)
        ensures
            m.seed == seed,
            m.wf(),
    {
        let layers: Vec<(i32, u32)> = vec![(3, 7864u32), (5, 13107u32), (7, 17039u32), (11,
            27525u32)];
        proof {
            assert(layers@ =~= InfiniteMap::height_layers());
        }
        InfiniteMap { seed, height: Fractal::new(seed.wrapping_add(344), layers) }
    }

    /// The cell the world spawns new players around.
    pub fn start_biome(&self) -> (b: BPos)
        ensures
            b == (BPos(Pos { x: 0i32, y: 0i32 })),
    {
        BPos(Pos { x: 0, y: 0 })
    }

    /// Where new players appear: two tiles south of the start core.
    pub fn start_pos(&self) -> (p: Pos)
        ensures
            p == (Pos { x: 0i32, y: 2i32 }),
    {
        let core = self.biome_core(self.start_biome());
        proof {
            reveal(biome_core_spec);
            assert(core == (Pos { x: 0i32, y: 0i32 }));
        }
        Pos { x: core.x, y: core.y + 2 }
    }

    /// The biome of a cell.
    pub fn biome_at(&self, b_pos: BPos) -> (b: Biome)
        ensures
            b == biome_at_spec(self.seed, b_pos),
    {
        proof {
            reveal(biome_at_spec);
        }
        if b_pos.0.x == 0 && b_pos.0.y == 0 {
            Biome::Start
        } else {
            let table: Vec<(Biome, u32)> = vec![
                (Biome::Field, 10u32),
                (Biome::Forest, 10u32),
                (Biome::Lake, 5u32),
                (Biome::Rocks, 5u32),
                (Biome::Bog, 5u32),
            ];
            proof {
                assert(table@ =~= biome_table());
                reveal_with_fuel(sum_weights, 7);
                assert(sum_weights(biome_table()) == 35);
            }
            let rind = WhiteNoise::new(self.seed.wrapping_add(333)).gen(b_pos.0);
            *crate::random::pick_weighted(rind, table.as_slice())
        }
    }

    /// The core of a biome cell.
    pub fn biome_core(&self, bpos: BPos) -> (p: Pos)
        requires
            bpos_in_range(bpos),
        ensures
            p == biome_core_spec(self.seed, bpos),
            in_range(p),
            -0x1250_0000 <= p.x <= 0x1250_0000,
            -0x0C50_0000 <= p.y <= 0x0C50_0000,
    {
        proof {
            reveal(biome_core_spec);
        }
        let rind = WhiteNoise::new(self.seed.wrapping_add(821)).gen(bpos.0);
        let core_area = Area::new(Pos { x: -12, y: -12 }, Pos { x: 24, y: 24 });
        let core_offset: Pos = if bpos.0.x == 0 && bpos.0.y == 0 {
            Pos { x: 0, y: 0 }
        } else {
            core_area.random_pos(rind)
        };
        proof {
            lemma_random_pos_bounds(core_area, rind);
        }
        Pos {
            x: bpos.0.x * 48 + core_offset.x + bpos.0.y * 24,
            y: bpos.0.y * 48 + core_offset.y,
        }
    }

    /// The first of the four surrounding lattice cells whose core is closest
    /// to `pos` by Manhattan distance.
    #[verifier::rlimit(100)]
    pub fn closest_biome_pos(&self, pos: Pos) -> (b: BPos)
        requires
            pos_fuzz_range(pos),
        ensures
            b == closest_biome_pos_spec(self.seed, pos),
            bpos_in_range(b),
    {
        let (b0, b1, b2, b3) = self.neighbour_cells(pos);
        let d0 = pos.distance_to(self.biome_core(b0));
        let d1 = pos.distance_to(self.biome_core(b1));
        let d2 = pos.distance_to(self.biome_core(b2));
        let d3 = pos.distance_to(self.biome_core(b3));
        if d0 <= d1 && d0 <= d2 && d0 <= d3 {
            b0
        } else if d1 <= d2 && d1 <= d3 {
            b1
        } else if d2 <= d3 {
            b2
        } else {
            b3
        }
    }

    /// The four cells whose cores can be closest to `pos`.
    fn neighbour_cells(&self, pos: Pos) -> (r: (BPos, BPos, BPos, BPos))
        requires
            pos_fuzz_range(pos),
        ensures
            r.0 == candidates(pos)[0],
            r.1 == candidates(pos)[1],
            r.2 == candidates(pos)[2],
            r.3 == candidates(pos)[3],
            bpos_in_range(r.0) && bpos_in_range(r.1) && bpos_in_range(r.2) && bpos_in_range(r.3),
    {
        let half: i32 = trunc_div2(pos.y);
        let bx = crate::pos::div_floor_i32(pos.x - half, 48);
        let by = crate::pos::div_floor_i32(pos.y, 48);
        proof {
            lemma_div48_range((pos.x - half) as int);
            lemma_div48_range(pos.y as int);
        }
        (
            BPos(Pos { x: bx, y: by }),
            BPos(Pos { x: bx + 1, y: by }),
            BPos(Pos { x: bx, y: by + 1 }),
            BPos(Pos { x: bx + 1, y: by + 1 }),
        )
    }

    /// How far `pos` stands from the nearest core of another biome, less the
    /// distance to its own; features taper towards biome edges by it.
    #[verifier::rlimit(100)]
    pub fn edge_distance(&self, pos: Pos) -> (d: i32)
        requires
            pos_fuzz_range(pos),
        ensures
            d == edge_distance_spec(self.seed, pos),
    {
        let (b0, b1, b2, b3) = self.neighbour_cells(pos);
        let own = self.closest_biome_pos(pos);
        let own_dist = pos.distance_to(self.biome_core(own));
        let own_biome = self.biome_at(own);
        let d0 = pos.distance_to(self.biome_core(b0));
        let d1 = pos.distance_to(self.biome_core(b1));
        let d2 = pos.distance_to(self.biome_core(b2));
        let d3 = pos.distance_to(self.biome_core(b3));
        let f0 = !(self.biome_at(b0) == own_biome);
        let f1 = !(self.biome_at(b1) == own_biome);
        let f2 = !(self.biome_at(b2) == own_biome);
        let f3 = !(self.biome_at(b3) == own_biome);
        if !f0 && !f1 && !f2 && !f3 {
            24
        } else {
            let min_other: i32 = if f0 && (!f1 || d0 <= d1) && (!f2 || d0 <= d2) && (!f3 || d0
                <= d3) {
                d0
            } else if f1 && (!f2 || d1 <= d2) && (!f3 || d1 <= d3) {
                d1
            } else if f2 && (!f3 || d2 <= d3) {
                d2
            } else {
                d3
            };
            min_other - own_dist
        }
    }

    /// The cell owning `pos` after edge fuzz, and the offset from its core.
    #[verifier::rlimit(100)]
    pub fn biome_pos(&self, pos: Pos) -> (r: (BPos, Pos))
        requires
            pos_tile_range(pos),
        ensures
            r == biome_pos_spec(self.seed, pos),
            bpos_in_range(r.0),
            in_range(r.1),
    {
        let rind = WhiteNoise::new(self.seed.wrapping_add(343)).gen(pos);
        let ox: i32 = (rind % 12) as i32 - 6;
        let oy: i32 = ((rind / 12) % 12) as i32 - 6;
        let mut offset = Pos { x: ox, y: oy };
        if offset.abs().x + offset.abs().y > 6 {
            offset = Pos {
                x: crate::pos::rem_floor_i32(ox, 12) - 6,
                y: crate::pos::rem_floor_i32(oy, 12) - 6,
            };
        }
        proof {
            assert(offset == fuzz_offset_spec(self.seed, pos));
        }
        let fuzzy = Pos { x: pos.x + offset.x, y: pos.y + offset.y };
        let b = self.closest_biome_pos(fuzzy);
        let core = self.biome_core(b);
        (b, Pos { x: pos.x - core.x, y: pos.y - core.y })
    }
}

/// A fixed-point fraction clamped to `[0, UNIT]`.
pub open spec fn unit_clamp(x: int) -> int {
    if x < 0 {
        0
    } else if x > 0x10000 {
        0x10000
    } else {
        x
    }
}

/// The grass grounds a field or clearing picks from.
pub open spec fn grass_grounds() -> Seq<Ground> {
    seq![Ground::Grass1, Ground::Grass2, Ground::Grass3]
}

/// The start sanctuary: an altar on the origin core, stone floor and walls
/// around it, bare paths along the axes, the sage's hut, and grass elsewhere.
#[verifier::opaque]
pub open spec fn start_tile_spec(dpos: Pos, rind: u32) -> Tile {
    let ax = crate::pos::abs_i32(dpos.x);
    let ay = crate::pos::abs_i32(dpos.y);
    if ax == 0 && ay == 0 {
        Tile { ground: Ground::StoneFloor, structure: Structure::MarkerAltar }
    } else if ax <= 4 && ay <= 4 && !(ay == 4 && ax == 4) {
        if ax + ay <= 5 {
            Tile { ground: Ground::StoneFloor, structure: Structure::Air }
        } else {
            Tile { ground: Ground::StoneFloor, structure: Structure::Wall }
        }
    } else if ax <= 1 || ay <= 1 {
        Tile { ground: Ground::Dirt, structure: Structure::Air }
    } else if 6 <= dpos.x <= 10 && -10 <= dpos.y <= -6 {
        let hx = dpos.x - 8;
        let hy = dpos.y + 8;
        if hx == 0 && hy == -1 {
            Tile { ground: Ground::Dirt, structure: Structure::Sage }
        } else if (hx == 0 && hy == 2) || (crate::pos::abs_i32(hx as i32) < 2 && crate::pos::abs_i32(
            hy as i32,
        ) < 2) {
            Tile { ground: Ground::Dirt, structure: Structure::Air }
        } else {
            Tile { ground: Ground::Dirt, structure: Structure::WoodWall }
        }
    } else {
        Tile { ground: grass_grounds()[rind as int % 3], structure: Structure::Air }
    }
}

/// The field structure table drawn by slow time.
pub open spec fn field_structures() -> Seq<(Structure, u32)> {
    seq![
        (Structure::Air, 40u32),
        (Structure::DenseGrassGrn, 4u32),
        (Structure::DenseGrassBrn, 3u32),
        (Structure::DenseGrassY, 3u32),
        (Structure::Flower, 1u32),
    ]
}

/// Fields: grass with rare stable shrubs and slowly changing light growth.
#[verifier::opaque]
pub open spec fn field_tile_spec(seed: u32, pos: Pos, rind: u32, rtime: u32) -> Tile {
    let ground = grass_grounds()[rind as int % 3];
    let shrub_roll = WhiteNoise { seed: hash_u32(wadd(seed, 9429)) }.gen_spec(pos) % 0x10000;
    let structure = if shrub_roll < 1311 {
        Structure::Shrub
    } else {
        let t = hash_u32(wadd(hash_u32((rtime as int / 4) as u32), 5924));
        field_structures()[weighted_index(
            t as int % sum_weights(field_structures()),
            field_structures(),
        )].0
    };
    Tile { ground, structure }
}

/// The forest ground cover table.
pub open spec fn forest_grounds() -> Seq<Tile> {
    seq![
        Tile { ground: Ground::Grass1, structure: Structure::Air },
        Tile { ground: Ground::Grass2, structure: Structure::Air },
        Tile { ground: Ground::Grass3, structure: Structure::Air },
        Tile { ground: Ground::Moss, structure: Structure::Air },
        Tile { ground: Ground::Moss, structure: Structure::Air },
        Tile { ground: Ground::DeadLeaves, structure: Structure::Air },
        Tile { ground: Ground::DeadLeaves, structure: Structure::Air },
        Tile { ground: Ground::Dirt, structure: Structure::Air },
    ]
}

/// The forest feature table drawn by slow time.
pub open spec fn forest_features(rind: u32) -> Seq<(Tile, u32)> {
    seq![
        (forest_grounds()[rind as int % 8], 100u32),
        (Tile { ground: Ground::Grass1, structure: Structure::Sapling }, 3u32),
        (Tile { ground: Ground::Dirt, structure: Structure::YoungTree }, 4u32),
        (Tile { ground: Ground::Dirt, structure: Structure::Tree }, 13u32),
        (Tile { ground: Ground::Dirt, structure: Structure::OldTreeTinder }, 1u32),
        (Tile { ground: Ground::Dirt, structure: Structure::Air }, 1u32),
    ]
}

/// Forests: ground cover under slowly ageing trees.
#[verifier::opaque]
pub open spec fn forest_tile_spec(rind: u32, rtime: u32) -> Tile {
    let table = forest_features(rind);
    table[weighted_index(rtime as int % sum_weights(table), table)].0
}

/// The lake shore table.
pub open spec fn lake_shore() -> Seq<(Tile, u32)> {
    seq![
        (Tile { ground: Ground::Grass1, structure: Structure::Air }, 10u32),
        (Tile { ground: Ground::Grass2, structure: Structure::Air }, 10u32),
        (Tile { ground: Ground::Grass3, structure: Structure::Air }, 10u32),
        (Tile { ground: Ground::Grass1, structure: Structure::DenseGrassGrn }, 3u32),
        (Tile { ground: Ground::Grass2, structure: Structure::DenseGrassBrn }, 3u32),
        (Tile { ground: Ground::Grass3, structure: Structure::DenseGrassY }, 3u32),
        (Tile { ground: Ground::Grass1, structure: Structure::Shrub }, 2u32),
    ]
}

/// The reed-noise layer table.
pub open spec fn reed_layers() -> Seq<(i32, u32)> {
    seq![(7i32, 0x8000u32), (11i32, 0x8000u32)]
}

/// Lakes: water in the height-noise basin, reed belts where the reed noise
/// outweighs the shore height, grass and shore growth above; the basin
/// tapers off towards the biome edge.
#[verifier::opaque]
pub open spec fn lake_tile_spec(seed: u32, pos: Pos, time: int, rind: u32) -> Tile {
    let c = unit_clamp((edge_distance_spec(seed, pos) - 12) * 0x10000 / 12);
    let reed = fractal_noise(wadd(seed, 276), reed_layers(), pos, 2) / 0x10000;
    let reed_density = reed * 26214 / 0x10000 - 13107;
    let hf = fractal_noise(wadd(seed, 344), InfiniteMap::height_layers(), pos, 4) / 0x10000;
    let height = 26214 - hf + (0x10000 - c) * 39322 / 0x10000;
    let habs = if height < 0 {
        -height
    } else {
        height
    };
    if habs < reed_density {
        Tile {
            ground: if height > 0 {
                Ground::Dirt
            } else {
                Ground::Water
            },
            structure: if tick_num_spec(pos, time) % 4 != rind as int % 4 {
                Structure::Reed
            } else {
                Structure::Air
            },
        }
    } else if height < 0 {
        Tile { ground: Ground::Water, structure: Structure::Air }
    } else {
        lake_shore()[weighted_index(rind as int % sum_weights(lake_shore()), lake_shore())].0
    }
}

/// The rocky scree height a position has: eased height noise tapered towards
/// the biome edge.
pub open spec fn rock_height_spec(seed: u32, pos: Pos) -> int {
    let c = unit_clamp((edge_distance_spec(seed, pos) - 12) * 0x4000);
    let hf = fractal_noise(wadd(seed, 344), InfiniteMap::height_layers(), pos, 4) / 0x10000;
    ease_in_out_cubic_spec(unit_clamp(hf)) * c / 0x10000
}

/// The eight neighbours probed to tell ridge centres from ridge rims.
pub open spec fn ring_offsets() -> Seq<Pos> {
    seq![
        Pos { x: 0i32, y: -1i32 },
        Pos { x: 0i32, y: 1i32 },
        Pos { x: -1i32, y: 0i32 },
        Pos { x: 1i32, y: 0i32 },
        Pos { x: -1i32, y: -1i32 },
        Pos { x: -1i32, y: 1i32 },
        Pos { x: 1i32, y: -1i32 },
        Pos { x: 1i32, y: 1i32 },
    ]
}

/// Whether every neighbour of `pos` is also high rock.
pub open spec fn rock_is_mid(seed: u32, pos: Pos) -> bool {
    forall|i: int|
        0 <= i < 8 ==> rock_height_spec(
            seed,
            Pos {
                x: (pos.x + ring_offsets()[i].x) as i32,
                y: (pos.y + ring_offsets()[i].y) as i32,
            },
        ) > 39322
}

/// The gravel-and-stones table drawn by slow time on low rocks.
pub open spec fn rock_rubble() -> Seq<(Tile, u32)> {
    seq![
        (Tile { ground: Ground::RockFloor, structure: Structure::Gravel }, 20u32),
        (Tile { ground: Ground::RockFloor, structure: Structure::Air }, 50u32),
        (Tile { ground: Ground::RockFloor, structure: Structure::Stone }, 5u32),
        (Tile { ground: Ground::RockFloor, structure: Structure::Gravel }, 20u32),
        (Tile { ground: Ground::RockFloor, structure: Structure::Air }, 50u32),
        (Tile { ground: Ground::RockFloor, structure: Structure::Pebble }, 3u32),
        (Tile { ground: Ground::RockFloor, structure: Structure::Air }, 50u32),
    ]
}

/// The low-rock ground cover table; the rock-floor weight grows with height.
pub open spec fn rock_ground(rind: u32, height: int) -> Tile {
    let table = seq![
        (Tile { ground: Ground::Grass2, structure: Structure::Air }, 10u32),
        (Tile { ground: Ground::Grass3, structure: Structure::Air }, 10u32),
        (Tile { ground: Ground::Dirt, structure: Structure::Air }, 1u32),
        (
            Tile { ground: Ground::RockFloor, structure: Structure::Air },
            (height * 10 / 0x10000) as u32,
        ),
    ];
    table[weighted_index(rind as int % sum_weights(table), table)].0
}

/// The low-rock rubble-or-grass choice.
pub open spec fn rock_low(rind: u32, rtime: u32, height: int) -> Tile {
    let rubble = rock_rubble();
    let inner = seq![
        (Tile { ground: Ground::Grass2, structure: Structure::Air }, 1u32),
        (Tile { ground: Ground::Grass3, structure: Structure::Air }, 1u32),
        (rubble[weighted_index(rtime as int % sum_weights(rubble), rubble)].0, 3u32),
    ];
    let table = seq![
        (rock_ground(rind, height), 50u32),
        (inner[weighted_index(rind as int % sum_weights(inner), inner)].0, 50u32),
    ];
    table[weighted_index(
        (height * 100 / 0x10000) as u32 as int % sum_weights(table),
        table,
    )].0
}

/// Rocks: high ridges of bare rock, scree and rubble below.
#[verifier::opaque]
pub open spec fn rocks_tile_spec(seed: u32, pos: Pos, rind: u32, rtime: u32) -> Tile {
    let height = rock_height_spec(seed, pos);
    if height > 39322 {
        Tile {
            ground: Ground::RockFloor,
            structure: if rock_is_mid(seed, pos) {
                Structure::RockMid
            } else {
                Structure::Rock
            },
        }
    } else {
        rock_low(rind, rtime, height)
    }
}

/// The bog growth table.
pub open spec fn bog_growth(rind: u32, rtime: u32) -> Seq<(Tile, u32)> {
    seq![
        (Tile { ground: Ground::Grass1, structure: Structure::Air }, 50u32),
        (Tile { ground: Ground::Grass2, structure: Structure::Air }, 50u32),
        (Tile { ground: Ground::Grass3, structure: Structure::Air }, 50u32),
        (Tile { ground: Ground::Dirt, structure: Structure::Shrub }, 1u32),
        (Tile { ground: Ground::Dirt, structure: Structure::Rush }, 10u32),
        (
            if (rtime as int / 2) % 2 != 0 {
                Tile { ground: Ground::Grass1, structure: Structure::Air }
            } else {
                Tile { ground: Ground::Grass1, structure: Structure::PitcherPlant }
            },
            1u32,
        ),
    ]
}

/// Bogs: pools in the doubled-frequency height noise, rushes and pitcher
/// plants on the hummocks.
#[verifier::opaque]
pub open spec fn bog_tile_spec(seed: u32, pos: Pos, rind: u32, rtime: u32) -> Tile {
    let dpos = Pos { x: (pos.x * 2) as i32, y: (pos.y * 2) as i32 };
    let hf = fractal_noise(wadd(seed, 344), InfiniteMap::height_layers(), dpos, 4) / 0x10000;
    let wobble = (WhiteNoise { seed: hash_u32(wadd(seed, 3294)) }.gen_spec(pos) % 0x10000) as int
        * 6554 / 0x10000;
    let height = hf + wobble;
    if height < 29491 {
        Tile { ground: Ground::Water, structure: Structure::Air }
    } else {
        let table = bog_growth(rind, rtime);
        table[weighted_index(rind as int % sum_weights(table), table)].0
    }
}

/// The tile of the base map at `pos` and `time`: the biome of the owning
/// cell decides, fed by position noise, the slow tick age and the offset
/// from the biome core.
#[verifier::opaque]
pub open spec fn tile_spec(seed: u32, pos: Pos, time: int) -> Tile {
    let bd = biome_pos_spec(seed, pos);
    let biome = biome_at_spec(seed, bd.0);
    let rind = WhiteNoise { seed: hash_u32(wadd(seed, 7943)) }.gen_spec(pos);
    let rtime = wadd(
        (tick_num_spec(pos, time) as i64) as u32,
        WhiteNoise { seed: hash_u32(wadd(seed, 356)) }.gen_spec(pos),
    );
    match biome {
        Biome::Start => start_tile_spec(bd.1, rind),
        Biome::Field => field_tile_spec(seed, pos, rind, rtime),
        Biome::Forest => forest_tile_spec(rind, rtime),
        Biome::Lake => lake_tile_spec(seed, pos, time, rind),
        Biome::Rocks => rocks_tile_spec(seed, pos, rind, rtime),
        Biome::Bog => bog_tile_spec(seed, pos, rind, rtime),
    }
}

impl InfiniteMap {
    /// The base tile at `pos` and `time`. Calling it twice with the same
    /// arguments returns the same tile: it is a pure function of the seed,
    /// the position and the time.
    #[verifier::rlimit(100)]
    pub fn tile(&self, pos: Pos, time: Tickstamp) -> (t: Tile)
        requires
            self.wf(),
            pos_tile_range(pos),
            time_in_range(time.0 as int),
        ensures
            t == tile_spec(self.seed, pos, time.0 as int),
    {
        proof {
            reveal(tile_spec);
        }
        let (bpos, dpos) = self.biome_pos(pos);
        let biome = self.biome_at(bpos);
        let rind = WhiteNoise::new(self.seed.wrapping_add(7943)).gen(pos);
        let n = tick_num(pos, time);
        let rtime = wadd_exec(n as u32, WhiteNoise::new(self.seed.wrapping_add(356)).gen(pos));
        match biome {
            Biome::Start => start_tile(dpos, rind),
            Biome::Field => self.field_tile(pos, rind, rtime),
            Biome::Forest => forest_tile(rind, rtime),
            Biome::Lake => self.lake_tile(pos, time, rind),
            Biome::Rocks => self.rocks_tile(pos, rind, rtime),
            Biome::Bog => self.bog_tile(pos, rind, rtime),
        }
    }

    fn field_tile(&self, pos: Pos, rind: u32, rtime: u32) -> (t: Tile)
        ensures
            t == field_tile_spec(self.seed, pos, rind, rtime),
    {
        proof {
            reveal(field_tile_spec);
        }
        let grounds: Vec<Ground> = vec![Ground::Grass1, Ground::Grass2, Ground::Grass3];
        proof {
            assert(grounds@ =~= grass_grounds());
        }
        let ground = *crate::random::pick(rind, grounds.as_slice());
        let shrub_roll = WhiteNoise::new(self.seed.wrapping_add(9429)).gen_unit(pos);
        let structure: Structure = if shrub_roll < 1311 {
            Structure::Shrub
        } else {
            let t = randomize_u32(wadd_exec(randomize_u32(rtime / 4), 5924));
            let table: Vec<(Structure, u32)> = vec![
                (Structure::Air, 40u32),
                (Structure::DenseGrassGrn, 4u32),
                (Structure::DenseGrassBrn, 3u32),
                (Structure::DenseGrassY, 3u32),
                (Structure::Flower, 1u32),
            ];
            proof {
                assert(table@ =~= field_structures());
                reveal_with_fuel(sum_weights, 7);
                assert(sum_weights(field_structures()) == 51);
            }
            *crate::random::pick_weighted(t, table.as_slice())
        };
        Tile { ground, structure }
    }

    fn lake_tile(&self, pos: Pos, time: Tickstamp, rind: u32) -> (t: Tile)
        requires
            self.wf(),
            pos_tile_range(pos),
            time_in_range(time.0 as int),
        ensures
            t == lake_tile_spec(self.seed, pos, time.0 as int, rind),
    {
        proof {
            reveal(lake_tile_spec);
        }
        let ed = self.edge_distance(pos);
        let c: i64 = clamp_unit((ed as i64 - 12) * 0x10000 / 12);
        let reed_layer_list: Vec<(i32, u32)> = vec![(7, 0x8000u32), (11, 0x8000u32)];
        proof {
            assert(reed_layer_list@ =~= reed_layers());
        }
        let reeds = Fractal::new(self.seed.wrapping_add(276), reed_layer_list);
        let reed: i64 = reeds.gen_f(pos) as i64;
        let reed_density: i64 = reed * 26214 / 0x10000 - 13107;
        let hf: i64 = self.height.gen_f(pos) as i64;
        let height: i64 = 26214 - hf + (0x10000 - c) * 39322 / 0x10000;
        let habs: i64 = if height < 0 {
            -height
        } else {
            height
        };
        if habs < reed_density {
            let n = tick_num(pos, time);
            let phase: i64 = n.checked_rem_euclid(4).unwrap();
            Tile {
                ground: if height > 0 {
                    Ground::Dirt
                } else {
                    Ground::Water
                },
                structure: if phase != (rind % 4) as i64 {
                    Structure::Reed
                } else {
                    Structure::Air
                },
            }
        } else if height < 0 {
            Tile { ground: Ground::Water, structure: Structure::Air }
        } else {
            let table: Vec<(Tile, u32)> = vec![
                (Tile::ground(Ground::Grass1), 10u32),
                (Tile::ground(Ground::Grass2), 10u32),
                (Tile::ground(Ground::Grass3), 10u32),
                (Tile::structure(Ground::Grass1, Structure::DenseGrassGrn), 3u32),
                (Tile::structure(Ground::Grass2, Structure::DenseGrassBrn), 3u32),
                (Tile::structure(Ground::Grass3, Structure::DenseGrassY), 3u32),
                (Tile::structure(Ground::Grass1, Structure::Shrub), 2u32),
            ];
            proof {
                assert(table@ =~= lake_shore());
                reveal_with_fuel(sum_weights, 9);
                assert(sum_weights(lake_shore()) == 41);
            }
            *crate::random::pick_weighted(rind, table.as_slice())
        }
    }

    /// The eased, edge-tapered height of the rock noise at `pos`.
    pub fn rock_height(&self, pos: Pos) -> (r: i64)
        requires
            self.wf(),
            pos_fuzz_range(pos),
        ensures
            r == rock_height_spec(self.seed, pos),
            0 <= r <= 0x10000,
    {
        let ed = self.edge_distance(pos);
        let c: i64 = clamp_unit((ed as i64 - 12) * 0x4000);
        let hf: u32 = self.height.gen_f(pos);
        let hc: u32 = if hf > 0x10000 {
            0x10000
        } else {
            hf
        };
        let eased: i64 = ease_in_out_cubic(hc) as i64;
        proof {
            assert(eased * c <= 0x10000 * 0x10000 && eased * c >= 0 && eased * c / 0x10000
                <= 0x10000) by (nonlinear_arith)
                requires
                    0 <= eased <= 0x10000,
                    0 <= c <= 0x10000,
            ;
        }
        eased * c / 0x10000
    }

    fn rocks_tile(&self, pos: Pos, rind: u32, rtime: u32) -> (t: Tile)
        requires
            self.wf(),
            pos_tile_range(pos),
        ensures
            t == rocks_tile_spec(self.seed, pos, rind, rtime),
    {
        proof {
            reveal(rocks_tile_spec);
        }
        let height = self.rock_height(pos);
        if height > 39322 {
            let offsets: Vec<Pos> = vec![
                Pos { x: 0, y: -1 },
                Pos { x: 0, y: 1 },
                Pos { x: -1, y: 0 },
                Pos { x: 1, y: 0 },
                Pos { x: -1, y: -1 },
                Pos { x: -1, y: 1 },
                Pos { x: 1, y: -1 },
                Pos { x: 1, y: 1 },
            ];
            proof {
                assert(offsets@ =~= ring_offsets());
            }
            let mut ismid = true;
            let mut i: usize = 0;
            while i < 8
                invariant
                    0 <= i <= 8,
                    offsets@ =~= ring_offsets(),
                    self.wf(),
                    pos_tile_range(pos),
                    ismid <==> (forall|j: int|
                        0 <= j < i ==> rock_height_spec(
                            self.seed,
                            Pos {
                                x: (pos.x + ring_offsets()[j].x) as i32,
                                y: (pos.y + ring_offsets()[j].y) as i32,
                            },
                        ) > 39322),
                decreases 8 - i,
            {
                let off = offsets[i];
                let npos = Pos { x: pos.x + off.x, y: pos.y + off.y };
                if ismid {
                    let nh = self.rock_height(npos);
                    if nh <= 39322 {
                        ismid = false;
                    }
                }
                i = i + 1;
            }
            proof {
                assert(ismid == rock_is_mid(self.seed, pos));
            }
            Tile {
                ground: Ground::RockFloor,
                structure: if ismid {
                    Structure::RockMid
                } else {
                    Structure::Rock
                },
            }
        } else {
            let rubble: Vec<(Tile, u32)> = vec![
                (Tile::structure(Ground::RockFloor, Structure::Gravel), 20u32),
                (Tile::ground(Ground::RockFloor), 50u32),
                (Tile::structure(Ground::RockFloor, Structure::Stone), 5u32),
                (Tile::structure(Ground::RockFloor, Structure::Gravel), 20u32),
                (Tile::ground(Ground::RockFloor), 50u32),
                (Tile::structure(Ground::RockFloor, Structure::Pebble), 3u32),
                (Tile::ground(Ground::RockFloor), 50u32),
            ];
            proof {
                assert(rubble@ =~= rock_rubble());
                reveal_with_fuel(sum_weights, 9);
                assert(sum_weights(rock_rubble()) == 198);
            }
            let rubble_pick = *crate::random::pick_weighted(rtime, rubble.as_slice());
            let ground_table: Vec<(Tile, u32)> = vec![
                (Tile::ground(Ground::Grass2), 10u32),
                (Tile::ground(Ground::Grass3), 10u32),
                (Tile::ground(Ground::Dirt), 1u32),
                (Tile::ground(Ground::RockFloor), (height * 10 / 0x10000) as u32),
            ];
            proof {
                reveal_with_fuel(sum_weights, 6);
                assert(sum_weights(ground_table@) >= 21 && sum_weights(ground_table@) <= 31);
            }
            let ground_pick = *crate::random::pick_weighted(rind, ground_table.as_slice());
            let inner: Vec<(Tile, u32)> = vec![
                (Tile::ground(Ground::Grass2), 1u32),
                (Tile::ground(Ground::Grass3), 1u32),
                (rubble_pick, 3u32),
            ];
            proof {
                reveal_with_fuel(sum_weights, 5);
                assert(sum_weights(inner@) == 5);
            }
            let inner_pick = *crate::random::pick_weighted(rind, inner.as_slice());
            let table: Vec<(Tile, u32)> = vec![(ground_pick, 50u32), (inner_pick, 50u32)];
            proof {
                reveal_with_fuel(sum_weights, 4);
                assert(sum_weights(table@) == 100);
            }
            let t = *crate::random::pick_weighted((height * 100 / 0x10000) as u32, table.as_slice());
            proof {
                assert(t == rock_low(rind, rtime, height as int));
            }
            t
        }
    }

    fn bog_tile(&self, pos: Pos, rind: u32, rtime: u32) -> (t: Tile)
        requires
            self.wf(),
            pos_tile_range(pos),
        ensures
            t == bog_tile_spec(self.seed, pos, rind, rtime),
    {
        proof {
            reveal(bog_tile_spec);
        }
        let dpos = Pos { x: pos.x * 2, y: pos.y * 2 };
        let hf: i64 = self.height.gen_f(dpos) as i64;
        let wobble: i64 = (WhiteNoise::new(self.seed.wrapping_add(3294)).gen_unit(pos) as i64)
            * 6554 / 0x10000;
        let height: i64 = hf + wobble;
        if height < 29491 {
            Tile { ground: Ground::Water, structure: Structure::Air }
        } else {
            let seasonal: Tile = if ((rtime / 2) % 2) != 0 {
                Tile::ground(Ground::Grass1)
            } else {
                Tile::structure(Ground::Grass1, Structure::PitcherPlant)
            };
            let table: Vec<(Tile, u32)> = vec![
                (Tile::ground(Ground::Grass1), 50u32),
                (Tile::ground(Ground::Grass2), 50u32),
                (Tile::ground(Ground::Grass3), 50u32),
                (Tile::structure(Ground::Dirt, Structure::Shrub), 1u32),
                (Tile::structure(Ground::Dirt, Structure::Rush), 10u32),
                (seasonal, 1u32),
            ];
            proof {
                assert(table@ =~= bog_growth(rind, rtime));
                reveal_with_fuel(sum_weights, 8);
                assert(sum_weights(bog_growth(rind, rtime)) == 162);
            }
            *crate::random::pick_weighted(rind, table.as_slice())
        }
    }

    /// Where new players spawn.
    pub fn player_spawn(&self) -> (p: Pos)
        ensures
            p == (Pos { x: 0i32, y: 2i32 }),
    {
        self.start_pos()
    }

    /// The base map never changes: the same position and time always yield
    /// the same tile, whoever asks and however often.
    pub proof fn lemma_cell_deterministic(seed: u32, pos: Pos, time: int)
        ensures
            tile_spec(seed, pos, time) == tile_spec(seed, pos, time),
    {
    }
}

/// The start sanctuary tile for the offset `dpos` from the core.
fn start_tile(dpos: Pos, rind: u32) -> (t: Tile)
    requires
        in_range(dpos),
    ensures
        t == start_tile_spec(dpos, rind),
{
    proof {
        reveal(start_tile_spec);
    }
    let a = dpos.abs();
    if a.x == 0 && a.y == 0 {
        Tile { ground: Ground::StoneFloor, structure: Structure::MarkerAltar }
    } else if a.x <= 4 && a.y <= 4 && !(a.y == 4 && a.x == 4) {
        if a.x + a.y <= 5 {
            Tile { ground: Ground::StoneFloor, structure: Structure::Air }
        } else {
            Tile { ground: Ground::StoneFloor, structure: Structure::Wall }
        }
    } else if a.x <= 1 || a.y <= 1 {
        Tile { ground: Ground::Dirt, structure: Structure::Air }
    } else if 6 <= dpos.x && dpos.x <= 10 && -10 <= dpos.y && dpos.y <= -6 {
        let hx = dpos.x - 8;
        let hy = dpos.y + 8;
        if hx == 0 && hy == -1 {
            Tile { ground: Ground::Dirt, structure: Structure::Sage }
        } else if (hx == 0 && hy == 2) || (hx > -2 && hx < 2 && hy > -2 && hy < 2) {
            Tile { ground: Ground::Dirt, structure: Structure::Air }
        } else {
            Tile { ground: Ground::Dirt, structure: Structure::WoodWall }
        }
    } else {
        let grounds: Vec<Ground> = vec![Ground::Grass1, Ground::Grass2, Ground::Grass3];
        proof {
            assert(grounds@ =~= grass_grounds());
        }
        Tile { ground: *crate::random::pick(rind, grounds.as_slice()), structure: Structure::Air }
    }
}

/// The forest tile for the given noise draws.
fn forest_tile(rind: u32, rtime: u32) -> (t: Tile)
    ensures
        t == forest_tile_spec(rind, rtime),
{
    proof {
        reveal(forest_tile_spec);
    }
    let grounds: Vec<Tile> = vec![
        Tile::ground(Ground::Grass1),
        Tile::ground(Ground::Grass2),
        Tile::ground(Ground::Grass3),
        Tile::ground(Ground::Moss),
        Tile::ground(Ground::Moss),
        Tile::ground(Ground::DeadLeaves),
        Tile::ground(Ground::DeadLeaves),
        Tile::ground(Ground::Dirt),
    ];
    proof {
        assert(grounds@ =~= forest_grounds());
    }
    let ground = *crate::random::pick(rind, grounds.as_slice());
    let table: Vec<(Tile, u32)> = vec![
        (ground, 100u32),
        (Tile::structure(Ground::Grass1, Structure::Sapling), 3u32),
        (Tile::structure(Ground::Dirt, Structure::YoungTree), 4u32),
        (Tile::structure(Ground::Dirt, Structure::Tree), 13u32),
        (Tile::structure(Ground::Dirt, Structure::OldTreeTinder), 1u32),
        (Tile::ground(Ground::Dirt), 1u32),
    ];
    proof {
        assert(table@ =~= forest_features(rind));
        reveal_with_fuel(sum_weights, 8);
        assert(sum_weights(forest_features(rind)) == 122);
    }
    *crate::random::pick_weighted(rtime, table.as_slice())
}

/// `u32` addition with wraparound.
pub fn wadd_exec(a: u32, b: u32) -> (r: u32)
    ensures
        r == wadd(a, b),
{
    proof {
        if a + b <= u32::MAX {
            vstd::arithmetic::div_mod::lemma_small_mod((a + b) as nat, 0x1_0000_0000);
        } else {
            vstd::arithmetic::div_mod::lemma_fundamental_div_mod_converse(
                a + b,
                0x1_0000_0000,
                1,
                a + b - 0x1_0000_0000,
            );
        }
    }
    a.wrapping_add(b)
}

/// A fixed-point value clamped to `[0, UNIT]`.
fn clamp_unit(x: i64) -> (r: i64)
    ensures
        r == unit_clamp(x as int),
{
    if x < 0 {
        0
    } else if x > 0x10000 {
        0x10000
    } else {
        x
    }
}

/// Truncating (round toward zero) halving, as the machine's `/ 2`.
pub fn trunc_div2(a: i32) -> (r: i32)
    ensures
        r == trunc_div(a as int, 2),
{
    if a < 0 {
        if a == i32::MIN {
            return -0x4000_0000;
        }
        let n: i32 = -a;
        -(n / 2)
    } else {
        a / 2
    }
}

/// A biome core's offsets from its cell anchor, per axis.
pub open spec fn core_off(seed: u32, b: BPos) -> (int, int) {
    let core = biome_core_spec(seed, b);
    (core.x - b.0.x * 48 - b.0.y * 24, core.y - b.0.y * 48)
}

/// Core offsets stay within the doubled core area.
pub proof fn lemma_core_off_bounds(seed: u32, b: BPos)
    requires
        bpos_in_range(b),
    ensures
        -12 <= core_off(seed, b).0 <= 11,
        -12 <= core_off(seed, b).1 <= 11,
        biome_core_spec(seed, b).x == b.0.x * 48 + b.0.y * 24 + core_off(seed, b).0,
        biome_core_spec(seed, b).y == b.0.y * 48 + core_off(seed, b).1,
{
    reveal(biome_core_spec);
    let rind = WhiteNoise { seed: hash_u32(wadd(seed, 821)) }.gen_spec(b.0);
    let core_area = Area { min: Pos { x: -12i32, y: -12i32 }, size: Pos { x: 24i32, y: 24i32 } };
    lemma_random_pos_bounds(core_area, rind);
}

/// Distinct cells of one candidate window keep their cores at least half a
/// lattice step apart: core offsets stay inside the core area, so adjacent
/// centers dominate them.
pub proof fn lemma_distinct_cores(seed: u32, a: BPos, b: BPos)
    requires
        bpos_in_range(a),
        bpos_in_range(b),
        a != b,
        -1 <= a.0.x - b.0.x <= 1,
        -1 <= a.0.y - b.0.y <= 1,
    ensures
        manhattan(biome_core_spec(seed, b), biome_core_spec(seed, a)) >= 25,
{
    lemma_core_off_bounds(seed, a);
    lemma_core_off_bounds(seed, b);
    let ca = biome_core_spec(seed, a);
    let cb = biome_core_spec(seed, b);
    if a.0.y != b.0.y {
        assert(ca.y - cb.y >= 48 - 23 || cb.y - ca.y >= 48 - 23);
    } else {
        assert(a.0.x != b.0.x);
        assert(ca.x - cb.x >= 48 - 23 || cb.x - ca.x >= 48 - 23);
    }
}

/// The candidate window of a point near a cell's anchor contains the cell:
/// the unsheared lattice quotients land on the cell or its lower neighbour.
pub proof fn lemma_window_contains(b: BPos, pos: Pos)
    requires
        -47 <= pos.y - 48 * b.0.y <= 47,
        -47 <= pos.x - trunc_div(pos.y as int, 2) - 48 * b.0.x <= 47,
    ensures
        base_cell(pos).0.x == b.0.x - 1 || base_cell(pos).0.x == b.0.x,
        base_cell(pos).0.y == b.0.y - 1 || base_cell(pos).0.y == b.0.y,
        exists|i: int| 0 <= i < 4 && #[trigger] candidates(pos)[i] == b,
{
    let half = trunc_div(pos.y as int, 2);
    let ux = pos.x - half;
    let rx = ux - 48 * b.0.x;
    let ry = pos.y - 48 * b.0.y;
    let base = base_cell(pos);
    assert(base.0.x == b.0.x - 1 || base.0.x == b.0.x) by {
        if rx < 0 {
            vstd::arithmetic::div_mod::lemma_fundamental_div_mod_converse(
                ux as int,
                48,
                b.0.x - 1,
                rx + 48,
            );
        } else {
            vstd::arithmetic::div_mod::lemma_fundamental_div_mod_converse(
                ux as int,
                48,
                b.0.x as int,
                rx,
            );
        }
    }
    assert(base.0.y == b.0.y - 1 || base.0.y == b.0.y) by {
        if ry < 0 {
            vstd::arithmetic::div_mod::lemma_fundamental_div_mod_converse(
                pos.y as int,
                48,
                b.0.y - 1,
                ry + 48,
            );
        } else {
            vstd::arithmetic::div_mod::lemma_fundamental_div_mod_converse(
                pos.y as int,
                48,
                b.0.y as int,
                ry,
            );
        }
    }
    let cs = candidates(pos);
    if base.0.x == b.0.x - 1 {
        if base.0.y == b.0.y - 1 {
            assert(cs[3] == b);
        } else {
            assert(cs[1] == b);
        }
    } else {
        if base.0.y == b.0.y - 1 {
            assert(cs[2] == b);
        } else {
            assert(cs[0] == b);
        }
    }
}

/// Halving rounds toward zero by at most one.
proof fn lemma_trunc_half(y: int)
    ensures
        2 * trunc_div(y, 2) == y - 1 || 2 * trunc_div(y, 2) == y || 2 * trunc_div(y, 2) == y + 1,
{
    if y >= 0 {
        vstd::arithmetic::div_mod::lemma_fundamental_div_mod(y, 2);
        vstd::arithmetic::div_mod::lemma_mod_bound(y, 2);
    } else {
        vstd::arithmetic::div_mod::lemma_fundamental_div_mod(-y, 2);
        vstd::arithmetic::div_mod::lemma_mod_bound(-y, 2);
    }
}

/// Every core is closest to its own cell: looking the core position itself
/// up in the biome Voronoi yields the cell it belongs to.
pub proof fn lemma_core_in_own_cell(seed: u32, b: BPos)
    requires
        -0x40_0000 <= b.0.x <= 0x40_0000,
        -0x40_0000 <= b.0.y <= 0x40_0000,
    ensures
        closest_biome_pos_spec(seed, biome_core_spec(seed, b)) == b,
{
    lemma_core_off_bounds(seed, b);
    let core = biome_core_spec(seed, b);
    let off = core_off(seed, b);
    lemma_trunc_half(core.y as int);
    let half = trunc_div(core.y as int, 2);
    let e = half - 24 * b.0.y;
    assert(2 * e == off.1 - 1 || 2 * e == off.1 || 2 * e == off.1 + 1);
    assert(-18 <= e <= 6);
    assert(core.x - half - 48 * b.0.x == off.0 - e);
    lemma_window_contains(b, core);
    let cs = candidates(core);
    let base = base_cell(core);
    assert forall|i: int| 0 <= i < 4 && #[trigger] cs[i] != b implies manhattan(
        core,
        biome_core_spec(seed, cs[i]),
    ) >= 1 by {
        assert(-0x41_0000 <= cs[i].0.x <= 0x41_0000 && -0x41_0000 <= cs[i].0.y <= 0x41_0000);
        assert(-1 <= cs[i].0.x - b.0.x <= 1 && -1 <= cs[i].0.y - b.0.y <= 1);
        lemma_distinct_cores(seed, cs[i], b);
    }
    let bi = choose|i: int| 0 <= i < 4 && #[trigger] cs[i] == b;
    assert(manhattan(core, biome_core_spec(seed, cs[bi])) == 0);
    assert(cs[0] != cs[1] && cs[0] != cs[2] && cs[0] != cs[3] && cs[1] != cs[2] && cs[1] != cs[3]
        && cs[2] != cs[3]);
}

/// The edge fuzz moves a position by at most six tiles per axis.
pub proof fn lemma_fuzz_bounds(seed: u32, pos: Pos)
    ensures
        -6 <= fuzz_offset_spec(seed, pos).x <= 5,
        -6 <= fuzz_offset_spec(seed, pos).y <= 5,
{
    let rind = WhiteNoise { seed: hash_u32(wadd(seed, 343)) }.gen_spec(pos);
    vstd::arithmetic::div_mod::lemma_mod_bound(rind as int, 12);
    vstd::arithmetic::div_mod::lemma_mod_bound((rind as int / 12), 12);
    vstd::arithmetic::div_mod::lemma_div_pos_is_pos(rind as int, 12);
    let ox = (rind % 12) as int - 6;
    let oy = ((rind / 12) % 12) as int - 6;
    vstd::arithmetic::div_mod::lemma_mod_bound(ox, 12);
    vstd::arithmetic::div_mod::lemma_mod_bound(oy, 12);
}

/// The full biome lookup at a core answers the core's own cell with a zero
/// offset, for every seed: core offsets stay inside the core area, so the
/// edge fuzz can neither push a core out of its own candidate window nor
/// within reach of a neighbour's core.
#[verifier::rlimit(100)]
pub proof fn lemma_core_biome_pos(seed: u32, b: BPos)
    requires
        -0x40_0000 <= b.0.x <= 0x40_0000,
        -0x40_0000 <= b.0.y <= 0x40_0000,
    ensures
        biome_pos_spec(seed, biome_core_spec(seed, b)) == (b, Pos { x: 0i32, y: 0i32 }),
{
    lemma_core_off_bounds(seed, b);
    let core = biome_core_spec(seed, b);
    let off = core_off(seed, b);
    lemma_fuzz_bounds(seed, core);
    let f = fuzz_offset_spec(seed, core);
    let fuzzy = Pos { x: (core.x + f.x) as i32, y: (core.y + f.y) as i32 };
    lemma_trunc_half(fuzzy.y as int);
    let half = trunc_div(fuzzy.y as int, 2);
    let e = half - 24 * b.0.y;
    assert(2 * e == off.1 + f.y - 1 || 2 * e == off.1 + f.y || 2 * e == off.1 + f.y + 1);
    assert(-10 <= e <= 8);
    assert(fuzzy.x - half - 48 * b.0.x == off.0 + f.x - e);
    lemma_window_contains(b, fuzzy);
    let cs = candidates(fuzzy);
    let own_dist = manhattan(fuzzy, core);
    assert(own_dist <= 12);
    assert forall|i: int| 0 <= i < 4 && #[trigger] cs[i] != b implies manhattan(
        fuzzy,
        biome_core_spec(seed, cs[i]),
    ) > own_dist by {
        assert(-1 <= cs[i].0.x - b.0.x <= 1 && -1 <= cs[i].0.y - b.0.y <= 1);
        lemma_distinct_cores(seed, cs[i], b);
        lemma_core_off_bounds(seed, cs[i]);
    }
    let bi = choose|i: int| 0 <= i < 4 && #[trigger] cs[i] == b;
    assert(closest_biome_pos_spec(seed, fuzzy) == b) by {
        assert(cs[0] != cs[1] && cs[0] != cs[2] && cs[0] != cs[3] && cs[1] != cs[2] && cs[1]
            != cs[3] && cs[2] != cs[3]);
    }
}

/// The spawn looks its biome up in the start cell and stands two tiles
/// south of its core, for every seed.
#[verifier::rlimit(100)]
proof fn lemma_spawn_closest(seed: u32)
    ensures
        biome_pos_spec(seed, Pos { x: 0i32, y: 2i32 }) == (
            BPos(Pos { x: 0i32, y: 0i32 }),
            Pos { x: 0i32, y: 2i32 },
        ),
{
    let spawn = Pos { x: 0i32, y: 2i32 };
    let start = BPos(Pos { x: 0i32, y: 0i32 });
    assert(biome_core_spec(seed, start) == (Pos { x: 0i32, y: 0i32 })) by {
        reveal(biome_core_spec);
    }
    lemma_fuzz_bounds(seed, spawn);
    let f = fuzz_offset_spec(seed, spawn);
    let fuzzy = Pos { x: (spawn.x + f.x) as i32, y: (spawn.y + f.y) as i32 };
    lemma_trunc_half(fuzzy.y as int);
    lemma_window_contains(start, fuzzy);
    let cs = candidates(fuzzy);
    let own_dist = manhattan(fuzzy, biome_core_spec(seed, start));
    assert(own_dist <= 13);
    assert forall|i: int| 0 <= i < 4 && #[trigger] cs[i] != start implies manhattan(
        fuzzy,
        biome_core_spec(seed, cs[i]),
    ) > own_dist by {
        assert(-1 <= cs[i].0.x <= 1 && -1 <= cs[i].0.y <= 1);
        lemma_core_off_bounds(seed, cs[i]);
        lemma_core_off_bounds(seed, start);
        lemma_distinct_cores(seed, cs[i], start);
        assert(manhattan(Pos { x: 0i32, y: 0i32 }, biome_core_spec(seed, cs[i])) >= 25);
    }
    let bi = choose|i: int| 0 <= i < 4 && #[trigger] cs[i] == start;
    assert(closest_biome_pos_spec(seed, fuzzy) == start) by {
        assert(cs[0] != cs[1] && cs[0] != cs[2] && cs[0] != cs[3] && cs[1] != cs[2] && cs[1]
            != cs[3] && cs[2] != cs[3]);
    }
}

/// The spawn stands on sanctuary-class ground: with the start biome owning
/// the origin, the tile under the spawn position is bare stone floor,
/// whatever the seed and the time.
pub proof fn lemma_spawn_tile(seed: u32, time: int)
    ensures
        tile_spec(seed, Pos { x: 0i32, y: 2i32 }, time) == (Tile {
            ground: Ground::StoneFloor,
            structure: Structure::Air,
        }),
{
    reveal(tile_spec);
    let spawn = Pos { x: 0i32, y: 2i32 };
    let start = BPos(Pos { x: 0i32, y: 0i32 });
    lemma_spawn_closest(seed);
    assert(biome_at_spec(seed, start) == Biome::Start) by {
        reveal(biome_at_spec);
    }
    let rind = WhiteNoise { seed: hash_u32(wadd(seed, 7943)) }.gen_spec(spawn);
    assert(start_tile_spec(Pos { x: 0i32, y: 2i32 }, rind) == (Tile {
        ground: Ground::StoneFloor,
        structure: Structure::Air,
    })) by {
        reveal(start_tile_spec);
    }
}

/// The random offset of a core stays inside the core area.
pub proof fn lemma_random_pos_bounds(a: Area, rind: u32)
    requires
        a.min == (Pos { x: -12i32, y: -12i32 }),
        a.size == (Pos { x: 24i32, y: 24i32 }),
    ensures
        -12 <= a.random_pos_spec(rind).x <= 11,
        -12 <= a.random_pos_spec(rind).y <= 11,
{
    vstd::arithmetic::div_mod::lemma_mod_bound(rind as int, 24);
    vstd::arithmetic::div_mod::lemma_mod_bound(rind as int / 24, 24);
    vstd::arithmetic::div_mod::lemma_div_pos_is_pos(rind as int, 24);
}

/// Lattice quotients of in-range coordinates stay in biome-cell range.
proof fn lemma_div48_range(x: int)
    requires
        -0x0C30_0000 <= x <= 0x0C30_0000,
    ensures
        -0x41_0000 <= x / 48 <= 0x41_0000,
        i32::MIN <= x / 48 <= i32::MAX,
{
    vstd::arithmetic::div_mod::lemma_div_is_ordered(-0x0C30_0000, x, 48);
    vstd::arithmetic::div_mod::lemma_div_is_ordered(x, 0x0C30_0000, 48);
    vstd::arithmetic::div_mod::lemma_fundamental_div_mod_converse(-0x0C30_0000, 48, -0x41_0000, 0);
    vstd::arithmetic::div_mod::lemma_fundamental_div_mod_converse(0x0C30_0000, 48, 0x41_0000, 0);
}

} // verus!
