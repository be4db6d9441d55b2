//! The world map: a sparse overlay of player-caused changes over the base
//! map, the random-tick scheduler, growth propagation, and the set of
//! positions whose appearance changed since the last flush.

use vstd::prelude::*;
use crate::basemap::{InfiniteMap, pos_tile_range, tile_spec};
use crate::pos::{Area, Pos};
use crate::randomtick::{CHUNK_AREA, CHUNK_SIZE, tick_position, tick_position_spec, time_in_range};
use crate::tickstamp::Tickstamp;
use crate::tile::{Ground, Structure, Tile};

verus! {

/// A change overlay: positions that diverge from the base map, each with the
/// tile standing there and the tick it was last written.
pub type ChangeSeq = Seq<(Pos, (Tile, Tickstamp))>;

/// Whether the overlay holds an entry at `p`.
pub open spec fn has_change(s: ChangeSeq, p: Pos) -> bool {
    exists|i: int| 0 <= i < s.len() && (#[trigger] s[i]).0 == p
}

/// The index of the entry at `p`.
pub open spec fn change_idx(s: ChangeSeq, p: Pos) -> int
    decreases s.len(),
{
    if s.len() == 0 {
        0
    } else if s[0].0 == p {
        0
    } else {
        1 + change_idx(s.drop_first(), p)
    }
}

/// The entry value at `p`.
pub open spec fn change_at(s: ChangeSeq, p: Pos) -> (Tile, Tickstamp) {
    s[change_idx(s, p)].1
}

/// The overlay with the entry at `p` removed, if any.
pub open spec fn changes_remove(s: ChangeSeq, p: Pos) -> ChangeSeq {
    if has_change(s, p) {
        s.remove(change_idx(s, p))
    } else {
        s
    }
}

/// The overlay with the entry at `p` written or replaced.
pub open spec fn changes_upsert(s: ChangeSeq, p: Pos, v: (Tile, Tickstamp)) -> ChangeSeq {
    if has_change(s, p) {
        s.update(change_idx(s, p), (p, v))
    } else {
        s.push((p, v))
    }
}

/// Overlay positions are unique, in tile range, and carry in-range stamps.
pub open spec fn changes_wf(s: ChangeSeq) -> bool {
    &&& forall|i: int, j: int| 0 <= i < j < s.len() ==> (#[trigger] s[i]).0 != (#[trigger] s[j]).0
    &&& forall|i: int| 0 <= i < s.len() ==> pos_tile_range((#[trigger] s[i]).0)
    &&& forall|i: int| 0 <= i < s.len() ==> time_in_range((#[trigger] s[i]).1.1.0 as int)
}

/// Whether `mods` records `p`.
pub open spec fn mods_contain(mods: Seq<Pos>, p: Pos) -> bool {
    exists|i: int| 0 <= i < mods.len() && mods[i] == p
}

/// The dirty set with `p` recorded once.
pub open spec fn mods_insert(mods: Seq<Pos>, p: Pos) -> Seq<Pos> {
    if mods_contain(mods, p) {
        mods
    } else {
        mods.push(p)
    }
}

/// The overlay after writing `tile` at `pos`: an entry equal to the base
/// tile is removed, any other is written with the given tick.
pub open spec fn set_effect(seed: u32, time: int, changes: ChangeSeq, pos: Pos, tile: Tile) -> ChangeSeq {
    if tile == tile_spec(seed, pos, time) {
        changes_remove(changes, pos)
    } else {
        changes_upsert(changes, pos, (tile, Tickstamp(time as i64)))
    }
}

/// The tile standing at `pos`: the overlay entry if one exists, else the base
/// map's tile for the current time.
pub open spec fn cell_of(seed: u32, time: int, changes: ChangeSeq, pos: Pos) -> Tile {
    if has_change(changes, pos) {
        change_at(changes, pos).0
    } else {
        tile_spec(seed, pos, time)
    }
}

/// The four cardinal neighbours, in the order growth spreads.
pub open spec fn neighbour(pos: Pos, i: int) -> Pos {
    if i == 0 {
        Pos { x: pos.x, y: (pos.y - 1) as i32 }
    } else if i == 1 {
        Pos { x: pos.x, y: (pos.y + 1) as i32 }
    } else if i == 2 {
        Pos { x: (pos.x + 1) as i32, y: pos.y }
    } else {
        Pos { x: (pos.x - 1) as i32, y: pos.y }
    }
}

/// Positions the overlay accepts entries at; it keeps one tile of headroom
/// inside the coordinate space the base map synthesizes for, so growth can
/// always probe an entry's neighbours.
pub open spec fn pos_map_range(p: Pos) -> bool {
    -0x0780_0000 <= p.x <= 0x0780_0000 && -0x0780_0000 <= p.y <= 0x0780_0000
}

/// One spreading shoot arriving at neighbour `i` of `pos`: compatible shoots
/// inosculate, open spots take the shoot, anything else stops it. Growth
/// stops at the rim of the supported coordinate space.
pub open spec fn spread_at(
    seed: u32,
    time: int,
    state: (ChangeSeq, Seq<Pos>),
    pos: Pos,
    shoot: Structure,
    stamp: Tickstamp,
    i: int,
) -> (ChangeSeq, Seq<Pos>) {
    let npos = neighbour(pos, i);
    if !pos_map_range(npos) {
        state
    } else {
        let ntile = cell_of(seed, time, state.0, npos);
        match shoot.joined_spec(ntile.structure) {
            Some(product) => (
                changes_upsert(
                    state.0,
                    npos,
                    (Tile { ground: ntile.ground, structure: product }, stamp),
                ),
                mods_insert(state.1, npos),
            ),
            None => if ntile.structure.is_open_spec() {
                (
                    changes_upsert(
                        state.0,
                        npos,
                        (Tile { ground: ntile.ground, structure: shoot }, stamp),
                    ),
                    mods_insert(state.1, npos),
                )
            } else {
                state
            },
        }
    }
}

/// A shoot spreading to all four neighbours in order.
pub open spec fn spread_all(
    seed: u32,
    time: int,
    state: (ChangeSeq, Seq<Pos>),
    pos: Pos,
    shoot: Option<Structure>,
    stamp: Tickstamp,
    i: int,
) -> (ChangeSeq, Seq<Pos>)
    decreases 4 - i,
{
    match shoot {
        None => state,
        Some(s) => if i >= 4 {
            state
        } else {
            spread_all(
                seed,
                time,
                spread_at(seed, time, state, pos, s, stamp, i),
                pos,
                shoot,
                stamp,
                i + 1,
            )
        },
    }
}

/// Drives the growth of the overlay entry at `pos` while its next stage is
/// due: the structure advances, the entry's stamp moves to the stage's due
/// time, and any shoot spreads to the neighbours.
pub open spec fn grow_entry(
    seed: u32,
    time: int,
    state: (ChangeSeq, Seq<Pos>),
    pos: Pos,
) -> (ChangeSeq, Seq<Pos>)
    decreases
            (if has_change(state.0, pos) && change_at(state.0, pos).1.0 <= time {
                time + CHUNK_AREA - change_at(state.0, pos).1.0
            } else {
                0int
            }),
{
    if !has_change(state.0, pos) {
        state
    } else {
        let (tile, stamp) = change_at(state.0, pos);
        match tile.structure.grow_spec() {
            Some((nticks, stage, shoot)) => {
                let update_time = stamp.0 + nticks * CHUNK_AREA;
                if nticks >= 1 && update_time <= time {
                    let grown = Tile { ground: tile.ground, structure: stage };
                    let state1 = (
                        changes_upsert(state.0, pos, (grown, Tickstamp(update_time as i64))),
                        state.1,
                    );
                    let state2 = spread_all(
                        seed,
                        time,
                        state1,
                        pos,
                        shoot,
                        Tickstamp(update_time as i64),
                        0,
                    );
                    if has_change(state2.0, pos) && change_at(state2.0, pos).1.0 == update_time
                        && update_time > stamp.0 {
                        grow_entry(seed, time, state2, pos)
                    } else {
                        state2
                    }
                } else {
                    state
                }
            },
            None => state,
        }
    }
}

/// One tick of one cell: it is marked dirty; an overlay entry grows while
/// growth is due; and an entry whose structure has come back to open ground
/// in parity with the base map is removed, letting nature reclaim it.
pub open spec fn tick_one_spec(
    seed: u32,
    time: int,
    state: (ChangeSeq, Seq<Pos>),
    pos: Pos,
) -> (ChangeSeq, Seq<Pos>) {
    let marked = (state.0, mods_insert(state.1, pos));
    if !has_change(marked.0, pos) {
        marked
    } else {
        let grown = grow_entry(seed, time, marked, pos);
        let (tile, _) = change_at(grown.0, pos);
        let base = tile_spec(seed, pos, time);
        if tile.structure.is_open_spec() && (tile.ground.restoring_spec() || tile.ground
            == base.ground) && base.structure.is_open_spec() {
            (changes_remove(grown.0, pos), grown.1)
        } else {
            grown
        }
    }
}

/// What a world save holds of the map: the change entries in order.
pub type MapSave = Vec<(Pos, (Tile, Tickstamp))>;

/// The playing field: the base map, the sparse change overlay, the current
/// time and the dirty set.
#[derive(Debug)]
pub struct WorldMap {
    pub basemap: InfiniteMap,
    pub changes: Vec<(Pos, (Tile, Tickstamp))>,
    pub time: Tickstamp,
    pub modifications: Vec<Pos>,
}

impl WorldMap {
    pub open spec fn wf(&self) -> bool {
        &&& self.basemap.wf()
        &&& changes_wf(self.changes@)
        &&& forall|i: int|
            0 <= i < self.changes@.len() ==> pos_map_range((#[trigger] self.changes@[i]).0)
        &&& time_in_range(self.time.0 as int)
        &&& forall|i: int|
            0 <= i < self.modifications@.len() ==> pos_map_range(
                #[trigger] self.modifications@[i],
            )
        &&& forall|i: int, j: int|
            0 <= i < j < self.modifications@.len() ==> self.modifications@[i]
                != self.modifications@[j]
    }

    pub open spec fn seed_spec(&self) -> u32 {
        self.basemap.seed
    }

    pub fn new(seed: u32, time: Tickstamp) -> (m: WorldMap)
        requires
            time_in_range(time.0 as int),
        ensures
            m.wf(),
            m.seed_spec() == seed,
            m.changes@.len() == 0,
            m.time == time,
            m.modifications@.len() == 0,
    {
        WorldMap {
            basemap: InfiniteMap::new(seed),
            changes: Vec::new(),
            time,
            modifications: Vec::new(),
        }
    }

    /// The position of the first overlay entry at `pos`.
    fn find_change(&self, pos: Pos) -> (r: Option<usize>)
        ensures
            match r {
                Some(at) => has_change(self.changes@, pos) && at == change_idx(self.changes@, pos)
                    && at < self.changes@.len() && self.changes@[at as int].0 == pos,
                None => !has_change(self.changes@, pos),
            },
    {
        let mut i: usize = 0;
        while i < self.changes.len()
            invariant
                0 <= i <= self.changes@.len(),
                forall|j: int| 0 <= j < i ==> (#[trigger] self.changes@[j]).0 != pos,
            decreases self.changes@.len() - i,
        {
            if self.changes[i].0 == pos {
                proof {
                    lemma_change_idx(self.changes@, pos, i as int);
                    assert((#[trigger] self.changes@[i as int]).0 == pos);
                }
                return Some(i);
            }
            i = i + 1;
        }
        None
    }

    /// The tile standing at `pos`: the overlay entry if present, the base
    /// tile for the current time otherwise.
    pub fn cell(&self, pos: Pos) -> (t: Tile)
        requires
            self.wf(),
            pos_tile_range(pos),
        ensures
            t == cell_of(self.seed_spec(), self.time.0 as int, self.changes@, pos),
    {
        match self.find_change(pos) {
            Some(at) => self.changes[at].1.0,
            None => self.basemap.tile(pos, self.time),
        }
    }

    /// Marks `pos` dirty.
    fn mark_modified(&mut self, pos: Pos)
        requires
            old(self).wf(),
            pos_map_range(pos),
        ensures
            final(self).wf(),
            final(self).modifications@ == mods_insert(old(self).modifications@, pos),
            final(self).changes == old(self).changes,
            final(self).time == old(self).time,
            final(self).basemap == old(self).basemap,
    {
        let mut i: usize = 0;
        while i < self.modifications.len()
            invariant
                0 <= i <= self.modifications@.len(),
                *self == *old(self),
                old(self).wf(),
                forall|j: int| 0 <= j < i ==> (#[trigger] self.modifications@[j]) != pos,
            decreases self.modifications@.len() - i,
        {
            if self.modifications[i] == pos {
                proof {
                    assert((#[trigger] self.modifications@[i as int]) == pos);
                    assert(mods_contain(self.modifications@, pos));
                }
                return ;
            }
            i = i + 1;
        }
        proof {
            assert(!mods_contain(self.modifications@, pos));
        }
        self.modifications.push(pos);
    }

    /// Writes `tile` at `pos` with the current tick; an entry equal to the
    /// base tile is removed instead, and the position is marked dirty.
    pub fn set(&mut self, pos: Pos, tile: Tile)
        requires
            old(self).wf(),
            pos_map_range(pos),
        ensures
            final(self).wf(),
            final(self).time == old(self).time,
            final(self).basemap == old(self).basemap,
            final(self).modifications@ == mods_insert(old(self).modifications@, pos),
            final(self).changes@ == if tile == tile_spec(
                old(self).seed_spec(),
                pos,
                old(self).time.0 as int,
            ) {
                changes_remove(old(self).changes@, pos)
            } else {
                changes_upsert(old(self).changes@, pos, (tile, old(self).time))
            },
    {
        let base = self.basemap.tile(pos, self.time);
        if tile == base {
            self.remove_change(pos);
        } else {
            self.upsert_change(pos, tile);
        }
        self.mark_modified(pos);
    }

    /// Removes the overlay entry at `pos`, if any.
    fn remove_change(&mut self, pos: Pos)
        requires
            old(self).wf(),
        ensures
            final(self).wf(),
            final(self).changes@ == changes_remove(old(self).changes@, pos),
            final(self).time == old(self).time,
            final(self).basemap == old(self).basemap,
            final(self).modifications == old(self).modifications,
    {
        match self.find_change(pos) {
            Some(at) => {
                self.changes.remove(at);
                proof {
                    let olds = old(self).changes@;
                    let i = change_idx(olds, pos) as int;
                    assert forall|a: int, b: int|
                        0 <= a < b < self.changes@.len() implies (#[trigger] self.changes@[a]).0
                        != (#[trigger] self.changes@[b]).0 by {
                        let oa = if a < i {
                            a
                        } else {
                            a + 1
                        };
                        let ob = if b < i {
                            b
                        } else {
                            b + 1
                        };
                        assert(self.changes@[a] == olds[oa]);
                        assert(self.changes@[b] == olds[ob]);
                    }
                    assert forall|a: int| 0 <= a < self.changes@.len() implies pos_map_range(
                        (#[trigger] self.changes@[a]).0,
                    ) && time_in_range(self.changes@[a].1.1.0 as int) by {
                        let oa = if a < i {
                            a
                        } else {
                            a + 1
                        };
                        assert(self.changes@[a] == olds[oa]);
                    }
                }
            },
            None => (),
        }
    }

    /// Writes or replaces the overlay entry at `pos` with the current tick.
    fn upsert_change(&mut self, pos: Pos, tile: Tile)
        requires
            old(self).wf(),
            pos_map_range(pos),
        ensures
            final(self).wf(),
            final(self).changes@ == changes_upsert(
                old(self).changes@,
                pos,
                (tile, old(self).time),
            ),
            final(self).time == old(self).time,
            final(self).basemap == old(self).basemap,
            final(self).modifications == old(self).modifications,
    {
        let stamp = self.time;
        match self.find_change(pos) {
            Some(at) => {
                self.changes.set(at, (pos, (tile, stamp)));
                proof {
                    assert(final(self).wf()) by {
                        assert(forall|a: int|
                            0 <= a < self.changes@.len() ==> (#[trigger] self.changes@[a]).0
                                == old(self).changes@[a].0);
                    }
                }
            },
            None => {
                self.changes.push((pos, (tile, stamp)));
            },
        }
    }

    /// Replaces only the structure of the tile at `pos`.
    pub fn set_structure(&mut self, pos: Pos, structure: Structure)
        requires
            old(self).wf(),
            pos_map_range(pos),
        ensures
            final(self).wf(),
            final(self).time == old(self).time,
            final(self).basemap == old(self).basemap,
            final(self).modifications@ == mods_insert(old(self).modifications@, pos),
            ({
                let tile = Tile {
                    ground: cell_of(
                        old(self).seed_spec(),
                        old(self).time.0 as int,
                        old(self).changes@,
                        pos,
                    ).ground,
                    structure,
                };
                final(self).changes@ == if tile == tile_spec(
                    old(self).seed_spec(),
                    pos,
                    old(self).time.0 as int,
                ) {
                    changes_remove(old(self).changes@, pos)
                } else {
                    changes_upsert(old(self).changes@, pos, (tile, old(self).time))
                }
            }),
    {
        let current = self.cell(pos);
        self.set(pos, Tile { ground: current.ground, structure });
    }

    /// Replaces only the ground of the tile at `pos`.
    pub fn set_ground(&mut self, pos: Pos, ground: Ground)
        requires
            old(self).wf(),
            pos_map_range(pos),
        ensures
            final(self).wf(),
            final(self).time == old(self).time,
            final(self).basemap == old(self).basemap,
            final(self).modifications@ == mods_insert(old(self).modifications@, pos),
            ({
                let tile = Tile {
                    ground,
                    structure: cell_of(
                        old(self).seed_spec(),
                        old(self).time.0 as int,
                        old(self).changes@,
                        pos,
                    ).structure,
                };
                final(self).changes@ == if tile == tile_spec(
                    old(self).seed_spec(),
                    pos,
                    old(self).time.0 as int,
                ) {
                    changes_remove(old(self).changes@, pos)
                } else {
                    changes_upsert(old(self).changes@, pos, (tile, old(self).time))
                }
            }),
    {
        let current = self.cell(pos);
        self.set(pos, Tile { ground, structure: current.structure });
    }

    /// Spreads a shoot from `pos` to its four neighbours.
    fn spread(&mut self, pos: Pos, shoot: Structure, stamp: Tickstamp)
        requires
            old(self).wf(),
            pos_map_range(pos),
            time_in_range(stamp.0 as int),
        ensures
            final(self).wf(),
            final(self).time == old(self).time,
            final(self).basemap == old(self).basemap,
            (final(self).changes@, final(self).modifications@) == spread_all(
                old(self).seed_spec(),
                old(self).time.0 as int,
                (old(self).changes@, old(self).modifications@),
                pos,
                Some(shoot),
                stamp,
                0,
            ),
    {
        let ghost seed = self.seed_spec();
        let ghost t = self.time.0 as int;
        let ghost orig = (self.changes@, self.modifications@);
        let mut i: usize = 0;
        while i < 4
            invariant
                0 <= i <= 4,
                self.wf(),
                pos_map_range(pos),
                time_in_range(stamp.0 as int),
                self.time == old(self).time,
                self.basemap == old(self).basemap,
                seed == self.seed_spec(),
                t == self.time.0 as int,
                spread_all(seed, t, orig, pos, Some(shoot), stamp, 0) == spread_all(
                    seed,
                    t,
                    (self.changes@, self.modifications@),
                    pos,
                    Some(shoot),
                    stamp,
                    i as int,
                ),
            decreases 4 - i,
        {
            let npos: Pos = if i == 0 {
                Pos { x: pos.x, y: pos.y - 1 }
            } else if i == 1 {
                Pos { x: pos.x, y: pos.y + 1 }
            } else if i == 2 {
                Pos { x: pos.x + 1, y: pos.y }
            } else {
                Pos { x: pos.x - 1, y: pos.y }
            };
            proof {
                assert(npos == neighbour(pos, i as int));
            }
            let in_range_n = npos.x >= -0x0780_0000 && npos.x <= 0x0780_0000 && npos.y
                >= -0x0780_0000 && npos.y <= 0x0780_0000;
            if in_range_n {
                let ntile = self.cell(npos);
                match shoot.joined(ntile.structure) {
                    Some(product) => {
                        self.upsert_change_with(
                            npos,
                            Tile { ground: ntile.ground, structure: product },
                            stamp,
                        );
                        self.mark_modified(npos);
                    },
                    None => {
                        if ntile.structure.is_open() {
                            self.upsert_change_with(
                                npos,
                                Tile { ground: ntile.ground, structure: shoot },
                                stamp,
                            );
                            self.mark_modified(npos);
                        }
                    },
                }
            }
            i = i + 1;
        }
    }

    /// Writes or replaces the overlay entry at `pos` with an explicit stamp.
    fn upsert_change_with(&mut self, pos: Pos, tile: Tile, stamp: Tickstamp)
        requires
            old(self).wf(),
            pos_map_range(pos),
            time_in_range(stamp.0 as int),
        ensures
            final(self).wf(),
            final(self).changes@ == changes_upsert(old(self).changes@, pos, (tile, stamp)),
            final(self).time == old(self).time,
            final(self).basemap == old(self).basemap,
            final(self).modifications == old(self).modifications,
    {
        match self.find_change(pos) {
            Some(at) => {
                self.changes.set(at, (pos, (tile, stamp)));
                proof {
                    assert(final(self).wf()) by {
                        assert(forall|a: int|
                            0 <= a < self.changes@.len() ==> (#[trigger] self.changes@[a]).0
                                == old(self).changes@[a].0);
                    }
                }
            },
            None => {
                self.changes.push((pos, (tile, stamp)));
            },
        }
    }

    /// One tick of one cell: marks it dirty, grows an overlay entry while
    /// growth is due (spreading shoots to the neighbours), and removes an
    /// entry that has come back to parity with the base map.
    pub fn tick_one(&mut self, pos: Pos)
        requires
            old(self).wf(),
            pos_map_range(pos),
        ensures
            final(self).wf(),
            final(self).time == old(self).time,
            final(self).basemap == old(self).basemap,
            (final(self).changes@, final(self).modifications@) == tick_one_spec(
                old(self).seed_spec(),
                old(self).time.0 as int,
                (old(self).changes@, old(self).modifications@),
                pos,
            ),
            tick_one_spec(
                old(self).seed_spec(),
                old(self).time.0 as int,
                (final(self).changes@, final(self).modifications@),
                pos,
            ) == (final(self).changes@, final(self).modifications@),
    {
        let ghost seed = self.seed_spec();
        let ghost t = self.time.0 as int;
        self.mark_modified(pos);
        let ghost marked = (self.changes@, self.modifications@);
        proof {
            assert(mods_contain(self.modifications@, pos)) by {
                if !mods_contain(old(self).modifications@, pos) {
                    assert(self.modifications@[self.modifications@.len() - 1] == pos);
                }
            }
        }
        if self.find_change(pos).is_none() {
            proof {
                assert(mods_insert(self.modifications@, pos) =~= self.modifications@);
            }
            return ;
        }
        loop
            invariant
                self.wf(),
                pos_map_range(pos),
                self.time == old(self).time,
                self.basemap == old(self).basemap,
                seed == self.seed_spec(),
                t == self.time.0 as int,
                has_change(self.changes@, pos),
                mods_contain(self.modifications@, pos),
                grow_entry(seed, t, (self.changes@, self.modifications@), pos) == grow_entry(
                    seed,
                    t,
                    marked,
                    pos,
                ),
            ensures
                self.wf(),
                self.time == old(self).time,
                self.basemap == old(self).basemap,
                has_change(self.changes@, pos),
                mods_contain(self.modifications@, pos),
                (self.changes@, self.modifications@) == grow_entry(seed, t, marked, pos),
            decreases
                    (if change_at(self.changes@, pos).1.0 <= t {
                        t + CHUNK_AREA - change_at(self.changes@, pos).1.0
                    } else {
                        0int
                    }),
        {
            let ghost pre = (self.changes@, self.modifications@);
            let at = match self.find_change(pos) {
                Some(at) => at,
                None => {
                    proof {
                        assert(false);
                    }
                    return ;
                },
            };
            let (tile, stamp) = self.changes[at].1;
            proof {
                assert(change_at(pre.0, pos) == (tile, stamp));
            }
            let grown = tile.structure.grow();
            match grown {
                None => {
                    proof {
                        assert(grow_entry(seed, t, pre, pos) == pre);
                    }
                    break ;
                },
                Some((nticks, stage, shoot)) => {
                    if nticks < 1 {
                        proof {
                            assert(grow_entry(seed, t, pre, pos) == pre);
                        }
                        break ;
                    }
                    let prod: i64 = match nticks.checked_mul(CHUNK_AREA) {
                        Some(p) => p,
                        None => {
                            proof {
                                assert(nticks * CHUNK_AREA > i64::MAX) by (nonlinear_arith)
                                    requires
                                        nticks >= 1,
                                        !(i64::MIN <= nticks * CHUNK_AREA <= i64::MAX),
                                        CHUNK_AREA == 4096,
                                ;
                                assert(stamp.0 + nticks * CHUNK_AREA > t);
                                assert(grow_entry(seed, t, pre, pos) == pre);
                            }
                            break ;
                        },
                    };
                    proof {
                        assert(prod >= 4096) by (nonlinear_arith)
                            requires
                                prod == nticks * CHUNK_AREA,
                                nticks >= 1,
                                CHUNK_AREA == 4096,
                        ;
                    }
                    let update_time: i64 = match stamp.0.checked_add(prod) {
                        Some(u) => u,
                        None => {
                            proof {
                                assert(stamp.0 + prod > i64::MAX);
                                assert(grow_entry(seed, t, pre, pos) == pre);
                            }
                            break ;
                        },
                    };
                    if update_time > self.time.0 {
                        proof {
                            assert(grow_entry(seed, t, pre, pos) == pre);
                        }
                        break ;
                    }
                    let new_tile = Tile { ground: tile.ground, structure: stage };
                    self.upsert_change_with(pos, new_tile, Tickstamp(update_time));
                    let ghost state1 = (self.changes@, self.modifications@);
                    if let Some(shoot_structure) = shoot {
                        self.spread(pos, shoot_structure, Tickstamp(update_time));
                    }
                    proof {
                        let state2 = (self.changes@, self.modifications@);
                        assert(state2 == spread_all(
                            seed,
                            t,
                            state1,
                            pos,
                            shoot,
                            Tickstamp(update_time),
                            0,
                        ));
                        lemma_spread_keeps_mods(
                            seed,
                            t,
                            state1,
                            pos,
                            shoot,
                            Tickstamp(update_time),
                            0,
                            pos,
                        );
                        lemma_spread_preserves_entry(
                            seed,
                            t,
                            state1,
                            pos,
                            shoot,
                            Tickstamp(update_time),
                            0,
                        );
                        lemma_change_idx_valid(pre.0, pos);
                        let pi = change_idx(pre.0, pos);
                        assert(state1.0 == pre.0.update(
                            pi,
                            (pos, (new_tile, Tickstamp(update_time))),
                        ));
                        assert((#[trigger] state1.0[pi]).0 == pos);
                        assert(has_change(state1.0, pos));
                        assert(forall|j: int|
                            0 <= j < pi ==> (#[trigger] state1.0[j]).0 != pos);
                        lemma_change_idx(state1.0, pos, pi);
                        assert(change_at(state1.0, pos) == (new_tile, Tickstamp(update_time)));
                        assert(change_at(state2.0, pos).1.0 == update_time);
                        assert(update_time > stamp.0);
                        assert(grow_entry(seed, t, pre, pos) == grow_entry(seed, t, state2, pos));
                    }
                },
            }
        }
        let at = match self.find_change(pos) {
            Some(at) => at,
            None => {
                proof {
                    assert(false);
                }
                return ;
            },
        };
        let (tile, _) = self.changes[at].1;
        let base = self.basemap.tile(pos, self.time);
        if tile.structure.is_open() && (tile.ground.restoring() || tile.ground == base.ground)
            && base.structure.is_open() {
            self.remove_change(pos);
        }
    }

    /// Loads an area for viewing: every cell in it is ticked once (catching
    /// cells up after a long time unloaded), and the resolved tile of each is
    /// returned in row-major order.
    pub fn load_area(&mut self, area: Area) -> (r: Vec<(Pos, Tile)>)
        requires
            old(self).wf(),
            area_in_map_range(area),
        ensures
            final(self).wf(),
            final(self).time == old(self).time,
            final(self).basemap == old(self).basemap,
            (final(self).changes@, final(self).modifications@) == tick_all(
                old(self).seed_spec(),
                old(self).time.0 as int,
                (old(self).changes@, old(self).modifications@),
                area_points(area),
            ),
            r@.len() == area_points(area).len(),
            forall|k: int|
                0 <= k < r@.len() ==> (#[trigger] r@[k]).0 == area_points(area)[k] && r@[k].1
                    == cell_of(
                    old(self).seed_spec(),
                    old(self).time.0 as int,
                    tick_prefix(
                        old(self).seed_spec(),
                        old(self).time.0 as int,
                        (old(self).changes@, old(self).modifications@),
                        area_points(area),
                        k + 1,
                    ).0,
                    area_points(area)[k],
                ),
    {
        let ghost seed = self.seed_spec();
        let ghost t = self.time.0 as int;
        let ghost orig = (self.changes@, self.modifications@);
        let ps = area.iter();
        proof {
            assert(ps@ =~= area_points(area));
            assert(area_points(area).take(0) =~= Seq::<Pos>::empty());
        }
        let mut out: Vec<(Pos, Tile)> = Vec::new();
        let mut i: usize = 0;
        while i < ps.len()
            invariant
                0 <= i <= ps@.len(),
                ps@ =~= area_points(area),
                self.wf(),
                area_in_map_range(area),
                self.time == old(self).time,
                self.basemap == old(self).basemap,
                seed == self.seed_spec(),
                t == self.time.0 as int,
                forall|k: int|
                    0 <= k < ps@.len() ==> area.contains_spec(#[trigger] ps@[k]),
                (self.changes@, self.modifications@) == tick_prefix(
                    seed,
                    t,
                    orig,
                    area_points(area),
                    i as int,
                ),
                out@.len() == i,
                forall|k: int|
                    0 <= k < i ==> (#[trigger] out@[k]).0 == area_points(area)[k] && out@[k].1
                        == cell_of(
                        seed,
                        t,
                        tick_prefix(seed, t, orig, area_points(area), k + 1).0,
                        area_points(area)[k],
                    ),
            decreases ps@.len() - i,
        {
            let pos = ps[i];
            proof {
                lemma_tick_all_snoc(seed, t, orig, area_points(area).take(i as int), pos);
                assert(area_points(area).take(i as int).push(pos) =~= area_points(area).take(
                    i as int + 1,
                ));
            }
            self.tick_one(pos);
            let tile = self.cell(pos);
            out.push((pos, tile));
            i = i + 1;
        }
        proof {
            assert(area_points(area).take(ps@.len() as int) =~= area_points(area));
        }
        out
    }

    /// Advances time and runs the random tick: in every chunk that meets one
    /// of the loaded areas, the one cell the schedule picks for this tick is
    /// ticked, once, when it lies inside that area. The ticked cells are
    /// exactly the scheduled ones; only their processing order is left open,
    /// as it was.
    pub fn tick(&mut self, time: Tickstamp, areas: &Vec<Area>)
        requires
            old(self).wf(),
            time_in_range(time.0 as int),
            forall|a: int| 0 <= a < areas@.len() ==> area_in_map_range(#[trigger] areas@[a]),
        ensures
            final(self).wf(),
            final(self).time == time,
            final(self).basemap == old(self).basemap,
            exists|ps: Seq<Pos>|
                {
                    &&& (final(self).changes@, final(self).modifications@)
                        == #[trigger] tick_all(
                        old(self).seed_spec(),
                        time.0 as int,
                        (old(self).changes@, old(self).modifications@),
                        ps,
                    )
                    &&& forall|i: int, j: int| 0 <= i < j < ps.len() ==> ps[i] != ps[j]
                    &&& forall|p: Pos|
                        mods_contain(ps, p) <==> #[trigger] scheduled_cell(
                            areas@,
                            time.0 as int,
                            p,
                        )
                },
    {
        self.time = time;
        let ghost t = time.0 as int;
        let tick_pos = tick_position(time);
        let mut positions: Vec<Pos> = Vec::new();
        let mut a: usize = 0;
        proof {
            assert(areas@.take(0) =~= Seq::<Area>::empty());
        }
        while a < areas.len()
            invariant
                0 <= a <= areas@.len(),
                self.wf(),
                self.time == time,
                t == time.0 as int,
                self.basemap == old(self).basemap,
                self.changes@ == old(self).changes@,
                self.modifications@ == old(self).modifications@,
                tick_pos == tick_position_spec(t),
                0 <= tick_pos.x < 64,
                0 <= tick_pos.y < 64,
                forall|x: int| 0 <= x < areas@.len() ==> area_in_map_range(#[trigger] areas@[x]),
                forall|k: int|
                    0 <= k < positions@.len() ==> scheduled_cell(
                        areas@,
                        t,
                        #[trigger] positions@[k],
                    ),
                forall|i: int, j: int|
                    0 <= i < j < positions@.len() ==> positions@[i] != positions@[j],
                forall|p: Pos|
                    #[trigger] scheduled_cell(areas@.take(a as int), t, p) ==> mods_contain(
                        positions@,
                        p,
                    ),
            decreases areas@.len() - a,
        {
            let area = areas[a];
            let chunk_min = area.min().div_floor(CHUNK_SIZE);
            let area_max = area.max();
            let chunk_max = area_max.div_floor(CHUNK_SIZE);
            let mut cy: i32 = chunk_min.y;
            proof {
                assert forall|p: Pos| row_done(area, t, p, chunk_min.y as int) implies
                    mods_contain(positions@, p) by {
                    vstd::arithmetic::div_mod::lemma_div_is_ordered(
                        area.min_spec().y as int,
                        p.y as int,
                        64,
                    );
                }
            }
            while cy <= chunk_max.y
                invariant
                    chunk_min.y <= cy <= chunk_max.y + 1 || cy == chunk_min.y,
                    area_in_map_range(area),
                    area == areas@[a as int],
                    a < areas@.len(),
                    chunk_min.x as int == area.min_spec().x as int / 64,
                    chunk_min.y as int == area.min_spec().y as int / 64,
                    chunk_max.x as int == (area.min_spec().x + area.size_spec().x) as int / 64,
                    chunk_max.y as int == (area.min_spec().y + area.size_spec().y) as int / 64,
                    -0x20_0000 <= chunk_min.x <= 0x20_0000,
                    -0x20_0000 <= chunk_min.y <= 0x20_0000,
                    -0x20_0000 <= chunk_max.x <= 0x20_0000,
                    -0x20_0000 <= chunk_max.y <= 0x20_0000,
                    tick_pos == tick_position_spec(t),
                    0 <= tick_pos.x < 64,
                    0 <= tick_pos.y < 64,
                    forall|x: int|
                        0 <= x < areas@.len() ==> area_in_map_range(#[trigger] areas@[x]),
                    forall|k: int|
                        0 <= k < positions@.len() ==> scheduled_cell(
                            areas@,
                            t,
                            #[trigger] positions@[k],
                        ),
                    forall|i: int, j: int|
                        0 <= i < j < positions@.len() ==> positions@[i] != positions@[j],
                    forall|p: Pos|
                        #[trigger] scheduled_cell(areas@.take(a as int), t, p) ==> mods_contain(
                            positions@,
                            p,
                        ),
                    forall|p: Pos|
                        #[trigger] row_done(area, t, p, cy as int) ==> mods_contain(
                            positions@,
                            p,
                        ),
                decreases chunk_max.y + 1 - cy,
            {
                let mut cx: i32 = chunk_min.x;
                proof {
                    assert forall|p: Pos| cell_done(area, t, p, cy as int, chunk_min.x as int)
                        implies mods_contain(positions@, p) by {
                        vstd::arithmetic::div_mod::lemma_div_is_ordered(
                            area.min_spec().x as int,
                            p.x as int,
                            64,
                        );
                        if !row_done(area, t, p, cy as int) {
                            assert(p.x as int / 64 >= chunk_min.x as int);
                        }
                    }
                }
                while cx <= chunk_max.x
                    invariant
                        chunk_min.x <= cx <= chunk_max.x + 1 || cx == chunk_min.x,
                        area_in_map_range(area),
                        area == areas@[a as int],
                        a < areas@.len(),
                        chunk_min.x as int == area.min_spec().x as int / 64,
                        chunk_max.x as int == (area.min_spec().x + area.size_spec().x) as int
                            / 64,
                        -0x20_0000 <= chunk_min.x <= 0x20_0000,
                        -0x20_0000 <= cy <= 0x20_0001,
                        -0x20_0000 <= chunk_max.x <= 0x20_0000,
                        tick_pos == tick_position_spec(t),
                        0 <= tick_pos.x < 64,
                        0 <= tick_pos.y < 64,
                        forall|x: int|
                            0 <= x < areas@.len() ==> area_in_map_range(#[trigger] areas@[x]),
                        forall|k: int|
                            0 <= k < positions@.len() ==> scheduled_cell(
                                areas@,
                                t,
                                #[trigger] positions@[k],
                            ),
                        forall|i: int, j: int|
                            0 <= i < j < positions@.len() ==> positions@[i] != positions@[j],
                        forall|p: Pos|
                            #[trigger] scheduled_cell(areas@.take(a as int), t, p)
                                ==> mods_contain(positions@, p),
                        forall|p: Pos|
                            #[trigger] cell_done(area, t, p, cy as int, cx as int)
                                ==> mods_contain(positions@, p),
                    decreases chunk_max.x + 1 - cx,
                {
                    let ghost prev = positions@;
                    let pos = Pos { x: cx * CHUNK_SIZE + tick_pos.x, y: cy * CHUNK_SIZE
                        + tick_pos.y };
                    proof {
                        vstd::arithmetic::div_mod::lemma_mod_multiples_vanish(
                            cx as int,
                            tick_pos.x as int,
                            64,
                        );
                        vstd::arithmetic::div_mod::lemma_mod_multiples_vanish(
                            cy as int,
                            tick_pos.y as int,
                            64,
                        );
                        vstd::arithmetic::div_mod::lemma_small_mod(tick_pos.x as nat, 64);
                        vstd::arithmetic::div_mod::lemma_small_mod(tick_pos.y as nat, 64);
                        assert(pos.x as int % 64 == tick_pos.x as int);
                        assert(pos.y as int % 64 == tick_pos.y as int);
                        vstd::arithmetic::div_mod::lemma_fundamental_div_mod_converse(
                            pos.x as int,
                            64,
                            cx as int,
                            tick_pos.x as int,
                        );
                        vstd::arithmetic::div_mod::lemma_fundamental_div_mod_converse(
                            pos.y as int,
                            64,
                            cy as int,
                            tick_pos.y as int,
                        );
                    }
                    if area.contains(pos) {
                        if !contains_pos(&positions, pos) {
                            proof {
                                assert((#[trigger] areas@[a as int]).contains_spec(pos));
                                assert(covered(areas@, pos));
                                assert(scheduled_cell(areas@, t, pos));
                            }
                            positions.push(pos);
                            proof {
                                assert forall|p: Pos|
                                    #[trigger] scheduled_cell(areas@.take(a as int), t, p)
                                        implies mods_contain(positions@, p) by {
                                    let j = choose|j: int|
                                        0 <= j < prev.len() && prev[j] == p;
                                    assert(positions@[j] == p);
                                }
                                assert forall|p: Pos|
                                    #[trigger] cell_done(area, t, p, cy as int, cx as int)
                                        implies mods_contain(positions@, p) by {
                                    let j = choose|j: int|
                                        0 <= j < prev.len() && prev[j] == p;
                                    assert(positions@[j] == p);
                                }
                                assert(mods_contain(positions@, pos)) by {
                                    assert(positions@[positions@.len() - 1] == pos);
                                }
                            }
                        }
                    }
                    proof {
                        assert forall|p: Pos|
                            #[trigger] cell_done(area, t, p, cy as int, cx as int + 1) implies
                            mods_contain(positions@, p) by {
                            if !cell_done(area, t, p, cy as int, cx as int) {
                                // p sits in this very chunk, so it is the
                                // scheduled cell itself.
                                vstd::arithmetic::div_mod::lemma_fundamental_div_mod(
                                    p.x as int,
                                    64,
                                );
                                vstd::arithmetic::div_mod::lemma_fundamental_div_mod(
                                    p.y as int,
                                    64,
                                );
                                assert(p == pos);
                            }
                        }
                    }
                    cx = cx + 1;
                }
                proof {
                    assert forall|p: Pos| #[trigger] row_done(area, t, p, cy as int + 1) implies
                        mods_contain(positions@, p) by {
                        if !cell_done(area, t, p, cy as int, cx as int) {
                            assert(p.y as int / 64 == cy as int);
                            vstd::arithmetic::div_mod::lemma_div_is_ordered(
                                p.x as int,
                                (area.min_spec().x + area.size_spec().x - 1) as int,
                                64,
                            );
                            vstd::arithmetic::div_mod::lemma_div_is_ordered(
                                (area.min_spec().x + area.size_spec().x - 1) as int,
                                (area.min_spec().x + area.size_spec().x) as int,
                                64,
                            );
                            assert(p.x as int / 64 <= chunk_max.x as int);
                        }
                    }
                }
                cy = cy + 1;
            }
            proof {
                assert forall|p: Pos|
                    #[trigger] scheduled_cell(areas@.take(a as int + 1), t, p) implies
                    mods_contain(positions@, p) by {
                    let x = choose|x: int|
                        0 <= x < areas@.take(a as int + 1).len() && (#[trigger] areas@.take(
                            a as int + 1,
                        )[x]).contains_spec(p);
                    if x < a {
                        assert(areas@.take(a as int)[x] == areas@[x]);
                        assert((#[trigger] areas@.take(a as int)[x]).contains_spec(p));
                        assert(scheduled_cell(areas@.take(a as int), t, p));
                    } else {
                        assert(area.contains_spec(p));
                        vstd::arithmetic::div_mod::lemma_div_is_ordered(
                            p.y as int,
                            (area.min_spec().y + area.size_spec().y - 1) as int,
                            64,
                        );
                        vstd::arithmetic::div_mod::lemma_div_is_ordered(
                            (area.min_spec().y + area.size_spec().y - 1) as int,
                            (area.min_spec().y + area.size_spec().y) as int,
                            64,
                        );
                        assert(row_done(area, t, p, cy as int));
                    }
                }
            }
            a = a + 1;
        }
        let ghost seed = self.seed_spec();
        let ghost orig = (self.changes@, self.modifications@);
        proof {
            assert(positions@.take(0) =~= Seq::<Pos>::empty());
            assert(areas@.take(areas@.len() as int) =~= areas@);
        }
        let mut i: usize = 0;
        while i < positions.len()
            invariant
                0 <= i <= positions@.len(),
                self.wf(),
                self.time == time,
                self.basemap == old(self).basemap,
                seed == self.seed_spec(),
                t == time.0 as int,
                forall|k: int|
                    0 <= k < positions@.len() ==> scheduled_cell(
                        areas@,
                        t,
                        #[trigger] positions@[k],
                    ),
                forall|x: int| 0 <= x < areas@.len() ==> area_in_map_range(#[trigger] areas@[x]),
                (self.changes@, self.modifications@) == tick_all(
                    seed,
                    t,
                    orig,
                    positions@.take(i as int),
                ),
            decreases positions@.len() - i,
        {
            let pos = positions[i];
            proof {
                assert(scheduled_cell(areas@, t, positions@[i as int]));
                let x = choose|x: int|
                    0 <= x < areas@.len() && (#[trigger] areas@[x]).contains_spec(
                        positions@[i as int],
                    );
                assert(pos_map_range(pos));
                lemma_tick_all_snoc(seed, t, orig, positions@.take(i as int), pos);
                assert(positions@.take(i as int).push(pos) =~= positions@.take(i as int + 1));
            }
            self.tick_one(pos);
            i = i + 1;
        }
        proof {
            assert(positions@.take(positions@.len() as int) =~= positions@);
            assert((final(self).changes@, final(self).modifications@) == tick_all(
                old(self).seed_spec(),
                time.0 as int,
                (old(self).changes@, old(self).modifications@),
                positions@,
            ));
            assert forall|p: Pos|
                mods_contain(positions@, p) <==> #[trigger] scheduled_cell(areas@, t, p) by {
                if mods_contain(positions@, p) {
                    let k = choose|k: int|
                        0 <= k < positions@.len() && positions@[k] == p;
                    assert(scheduled_cell(areas@, t, #[trigger] positions@[k]));
                }
            }
        }
    }

    /// Where new players spawn.
    pub fn player_spawn(&self) -> (p: Pos)
        ensures
            p == (Pos { x: 0i32, y: 2i32 }),
    {
        self.basemap.player_spawn()
    }

    /// Clears the dirty set after the views have been emitted.
    pub fn flush(&mut self)
        requires
            old(self).wf(),
        ensures
            final(self).wf(),
            final(self).modifications@.len() == 0,
            final(self).changes == old(self).changes,
            final(self).time == old(self).time,
            final(self).basemap == old(self).basemap,
    {
        self.modifications.clear();
    }

    /// The dirtied positions with the tile now standing on each.
    pub fn modified(&self) -> (r: Vec<(Pos, Vec<crate::sprite::Sprite>)>)
        requires
            self.wf(),
        ensures
            r@.len() == self.modifications@.len(),
            forall|k: int|
                0 <= k < r@.len() ==> (#[trigger] r@[k]).0 == self.modifications@[k]
                    && r@[k].1@ =~= cell_of(
                    self.seed_spec(),
                    self.time.0 as int,
                    self.changes@,
                    self.modifications@[k],
                ).sprites_spec(),
    {
        let mut out: Vec<(Pos, Vec<crate::sprite::Sprite>)> = Vec::new();
        let mut i: usize = 0;
        while i < self.modifications.len()
            invariant
                0 <= i <= self.modifications@.len(),
                self.wf(),
                out@.len() == i,
                forall|k: int|
                    0 <= k < i ==> (#[trigger] out@[k]).0 == self.modifications@[k]
                        && out@[k].1@ =~= cell_of(
                        self.seed_spec(),
                        self.time.0 as int,
                        self.changes@,
                        self.modifications@[k],
                    ).sprites_spec(),
            decreases self.modifications@.len() - i,
        {
            let pos = self.modifications[i];
            let tile = self.cell(pos);
            out.push((pos, tile.sprites()));
            i = i + 1;
        }
        out
    }

    /// The overlay as saved.
    pub fn save(&self) -> (r: MapSave)
        ensures
            r@ == self.changes@,
    {
        let mut saved: Vec<(Pos, (Tile, Tickstamp))> = Vec::new();
        let mut i: usize = 0;
        while i < self.changes.len()
            invariant
                0 <= i <= self.changes@.len(),
                saved@ == self.changes@.subrange(0, i as int),
            decreases self.changes@.len() - i,
        {
            saved.push(self.changes[i]);
            i = i + 1;
        }
        proof {
            assert(saved@ =~= self.changes@);
        }
        saved
    }

    /// A map from a save: the overlay entries, the saved time and the seed.
    pub fn load(changes: MapSave, time: Tickstamp, seed: u32) -> (m: WorldMap)
        requires
            changes_wf(changes@),
            forall|i: int| 0 <= i < changes@.len() ==> pos_map_range((#[trigger] changes@[i]).0),
            time_in_range(time.0 as int),
        ensures
            m.wf(),
            m.seed_spec() == seed,
            m.changes@ == changes@,
            m.time == time,
            m.modifications@.len() == 0,
    {
        WorldMap { basemap: InfiniteMap::new(seed), changes, time, modifications: Vec::new() }
    }
}

/// Whether some area of the list contains `p`.
pub open spec fn covered(areas: Seq<Area>, p: Pos) -> bool {
    exists|x: int| 0 <= x < areas.len() && (#[trigger] areas[x]).contains_spec(p)
}

/// Whether `p` is the cell the schedule visits at `time` within its chunk,
/// inside one of the loaded areas.
pub open spec fn scheduled_cell(areas: Seq<Area>, time: int, p: Pos) -> bool {
    &&& covered(areas, p)
    &&& p.x as int % 64 == tick_position_spec(time).x as int
    &&& p.y as int % 64 == tick_position_spec(time).y as int
}

/// A scheduled cell of `area` in a chunk row the sweep has passed.
pub open spec fn row_done(area: Area, time: int, p: Pos, cy: int) -> bool {
    &&& area.contains_spec(p)
    &&& p.x as int % 64 == tick_position_spec(time).x as int
    &&& p.y as int % 64 == tick_position_spec(time).y as int
    &&& p.y as int / 64 < cy
}

/// A scheduled cell of `area` in a chunk the sweep has passed.
pub open spec fn cell_done(area: Area, time: int, p: Pos, cy: int, cx: int) -> bool {
    &&& area.contains_spec(p)
    &&& p.x as int % 64 == tick_position_spec(time).x as int
    &&& p.y as int % 64 == tick_position_spec(time).y as int
    &&& (p.y as int / 64 < cy || (p.y as int / 64 == cy && p.x as int / 64 < cx))
}

/// An area that fits the overlay's coordinate space, corners included.
pub open spec fn area_in_map_range(area: Area) -> bool {
    &&& pos_map_range(area.min_spec())
    &&& 0 <= area.size_spec().x < 0x2000_0000
    &&& 0 <= area.size_spec().y < 0x2000_0000
    &&& -0x0780_0000 <= area.min_spec().x + area.size_spec().x <= 0x0780_0000
    &&& -0x0780_0000 <= area.min_spec().y + area.size_spec().y <= 0x0780_0000
}

/// The positions of an area in row-major order.
pub open spec fn area_points(area: Area) -> Seq<Pos> {
    Seq::new((area.width() * area.height()) as nat, |k: int| area.point_at(k))
}

/// Whether the list holds `pos`.
fn contains_pos(ps: &Vec<Pos>, pos: Pos) -> (r: bool)
    ensures
        r == mods_contain(ps@, pos),
{
    let mut i: usize = 0;
    while i < ps.len()
        invariant
            0 <= i <= ps@.len(),
            forall|j: int| 0 <= j < i ==> (#[trigger] ps@[j]) != pos,
        decreases ps@.len() - i,
    {
        if ps[i] == pos {
            proof {
                assert((#[trigger] ps@[i as int]) == pos);
            }
            return true;
        }
        i = i + 1;
    }
    false
}

/// Ticking a list of cells in order.
pub open spec fn tick_all(
    seed: u32,
    time: int,
    state: (ChangeSeq, Seq<Pos>),
    ps: Seq<Pos>,
) -> (ChangeSeq, Seq<Pos>)
    decreases ps.len(),
{
    if ps.len() == 0 {
        state
    } else {
        tick_all(seed, time, tick_one_spec(seed, time, state, ps[0]), ps.drop_first())
    }
}

/// The state after ticking the first `k` cells of the list.
pub open spec fn tick_prefix(
    seed: u32,
    time: int,
    state: (ChangeSeq, Seq<Pos>),
    ps: Seq<Pos>,
    k: int,
) -> (ChangeSeq, Seq<Pos>) {
    tick_all(seed, time, state, ps.take(k))
}

/// Ticking one more cell after a prefix.
pub proof fn lemma_tick_all_snoc(
    seed: u32,
    time: int,
    state: (ChangeSeq, Seq<Pos>),
    ps: Seq<Pos>,
    p: Pos,
)
    ensures
        tick_all(seed, time, state, ps.push(p)) == tick_one_spec(
            seed,
            time,
            tick_all(seed, time, state, ps),
            p,
        ),
    decreases ps.len(),
{
    if ps.len() == 0 {
        assert(ps.push(p).drop_first() =~= Seq::<Pos>::empty());
        assert(ps.push(p)[0] == p);
        assert(tick_all(seed, time, state, ps.push(p)) == tick_all(
            seed,
            time,
            tick_one_spec(seed, time, state, p),
            ps.push(p).drop_first(),
        ));
        assert(tick_all(seed, time, state, ps) == state);
    } else {
        assert(ps.push(p)[0] == ps[0]);
        assert(ps.push(p).drop_first() =~= ps.drop_first().push(p));
        assert(tick_all(seed, time, state, ps.push(p)) == tick_all(
            seed,
            time,
            tick_one_spec(seed, time, state, ps[0]),
            ps.push(p).drop_first(),
        ));
        lemma_tick_all_snoc(seed, time, tick_one_spec(seed, time, state, ps[0]), ps.drop_first(), p);
    }
}

/// After writing the base tile back at a position, the overlay holds no
/// entry there: restored cells are garbage-collected.
pub proof fn lemma_set_base_clears(s: ChangeSeq, p: Pos)
    requires
        changes_wf(s),
    ensures
        !has_change(changes_remove(s, p), p),
{
    if has_change(s, p) {
        lemma_change_idx_valid(s, p);
        let i = change_idx(s, p);
        let out = s.remove(i);
        if has_change(out, p) {
            let j = choose|j: int| 0 <= j < out.len() && (#[trigger] out[j]).0 == p;
            let oj = if j < i {
                j
            } else {
                j + 1
            };
            assert(out[j] == s[oj]);
            assert(s[oj].0 == p);
            assert(s[i].0 == p);
            assert(oj != i);
        }
    }
}

/// A valid first index: it is in bounds, carries the key, and no earlier
/// entry does.
pub proof fn lemma_change_idx_valid(s: ChangeSeq, p: Pos)
    requires
        has_change(s, p),
    ensures
        0 <= change_idx(s, p) < s.len(),
        s[change_idx(s, p)].0 == p,
        forall|j: int| 0 <= j < change_idx(s, p) ==> (#[trigger] s[j]).0 != p,
    decreases s.len(),
{
    if s.len() > 0 && s[0].0 != p {
        assert(forall|j: int|
            0 <= j < s.drop_first().len() ==> (#[trigger] s.drop_first()[j]) == s[j + 1]);
        assert(has_change(s.drop_first(), p)) by {
            let i = choose|i: int| 0 <= i < s.len() && (#[trigger] s[i]).0 == p;
            assert(s.drop_first()[i - 1] == s[i]);
            assert((#[trigger] s.drop_first()[i - 1]).0 == p);
        }
        lemma_change_idx_valid(s.drop_first(), p);
        assert forall|j: int| 0 <= j < change_idx(s, p) implies (#[trigger] s[j]).0 != p by {
            if j > 0 {
                assert(s.drop_first()[j - 1] == s[j]);
            }
        }
    }
}

/// Writing another key leaves the entry at `p` untouched.
pub proof fn lemma_upsert_other(s: ChangeSeq, q: Pos, v: (Tile, Tickstamp), p: Pos)
    requires
        p != q,
    ensures
        has_change(changes_upsert(s, q, v), p) == has_change(s, p),
        has_change(s, p) ==> change_at(changes_upsert(s, q, v), p) == change_at(s, p),
    decreases s.len(),
{
    let out = changes_upsert(s, q, v);
    if has_change(s, q) {
        lemma_change_idx_valid(s, q);
        let qi = change_idx(s, q);
        assert(out == s.update(qi, (q, v)));
        assert(out.len() == s.len());
        assert(forall|j: int| 0 <= j < s.len() && j != qi ==> out[j] == s[j]);
        assert(out[qi].0 == q);
        if has_change(s, p) {
            lemma_change_idx_valid(s, p);
            let pi = change_idx(s, p);
            assert(pi != qi);
            assert(out[pi].0 == p);
            lemma_change_idx_update_other(s, qi, (q, v.0, v.1), p);
        } else {
            if has_change(out, p) {
                let i = choose|i: int| 0 <= i < out.len() && (#[trigger] out[i]).0 == p;
                assert(i != qi);
                assert((#[trigger] s[i]).0 == p);
            }
        }
    } else {
        assert(out == s.push((q, v)));
        if has_change(s, p) {
            lemma_change_idx_valid(s, p);
            let pi = change_idx(s, p);
            assert((#[trigger] out[pi]).0 == p);
            lemma_change_idx_push(s, (q, v), p);
        } else {
            if has_change(out, p) {
                let i = choose|i: int| 0 <= i < out.len() && (#[trigger] out[i]).0 == p;
                if i < s.len() {
                    assert((#[trigger] s[i]).0 == p);
                } else {
                    assert(out[i].0 == q);
                }
            }
        }
    }
}

/// The first index of `p` survives an update at another key's index.
proof fn lemma_change_idx_update_other(s: ChangeSeq, qi: int, v: (Pos, Tile, Tickstamp)
    , p: Pos)
    requires
        has_change(s, p),
        0 <= qi < s.len(),
        v.0 != p,
        s[qi].0 != p,
    ensures
        change_idx(s.update(qi, (v.0, (v.1, v.2))), p) == change_idx(s, p),
        s.update(qi, (v.0, (v.1, v.2)))[change_idx(s, p)] == (if change_idx(s, p) == qi {
            (v.0, (v.1, v.2))
        } else {
            s[change_idx(s, p)]
        }),
    decreases s.len(),
{
    lemma_change_idx_valid(s, p);
    let t = s.update(qi, (v.0, (v.1, v.2)));
    if s[0].0 == p {
        assert(qi != 0);
        assert(t[0] == s[0]);
    } else {
        if qi == 0 {
            assert(t.drop_first() =~= s.drop_first());
            assert(has_change(s.drop_first(), p)) by {
                let i = change_idx(s, p);
                assert(s.drop_first()[i - 1] == s[i]);
                assert((#[trigger] s.drop_first()[i - 1]).0 == p);
            }
        } else {
            assert(t.drop_first() =~= s.drop_first().update(qi - 1, (v.0, (v.1, v.2))));
            assert(has_change(s.drop_first(), p)) by {
                let i = change_idx(s, p);
                assert(s.drop_first()[i - 1] == s[i]);
                assert((#[trigger] s.drop_first()[i - 1]).0 == p);
            }
            lemma_change_idx_update_other(s.drop_first(), qi - 1, v, p);
        }
    }
}

/// The first index of `p` survives appending another key.
proof fn lemma_change_idx_push(s: ChangeSeq, e: (Pos, (Tile, Tickstamp)), p: Pos)
    requires
        has_change(s, p),
    ensures
        change_idx(s.push(e), p) == change_idx(s, p),
        s.push(e)[change_idx(s, p)] == s[change_idx(s, p)],
    decreases s.len(),
{
    lemma_change_idx_valid(s, p);
    if s[0].0 == p {
        assert(s.push(e)[0] == s[0]);
    } else {
        assert(s.push(e).drop_first() =~= s.drop_first().push(e));
        assert(has_change(s.drop_first(), p)) by {
            let i = change_idx(s, p);
            assert(s.drop_first()[i - 1] == s[i]);
            assert((#[trigger] s.drop_first()[i - 1]).0 == p);
        }
        lemma_change_idx_push(s.drop_first(), e, p);
        assert(s.push(e)[0] == s[0]);
    }
}

/// Recording a dirty position keeps every recorded position.
pub proof fn lemma_mods_insert_keeps(mods: Seq<Pos>, p: Pos, q: Pos)
    requires
        mods_contain(mods, q),
    ensures
        mods_contain(mods_insert(mods, p), q),
{
    if !mods_contain(mods, p) {
        let j = choose|j: int| 0 <= j < mods.len() && mods[j] == q;
        assert(mods.push(p)[j] == q);
    }
}

/// Spreading keeps every recorded dirty position.
pub proof fn lemma_spread_keeps_mods(
    seed: u32,
    time: int,
    state: (ChangeSeq, Seq<Pos>),
    pos: Pos,
    shoot: Option<Structure>,
    stamp: Tickstamp,
    i: int,
    q: Pos,
)
    requires
        mods_contain(state.1, q),
    ensures
        mods_contain(spread_all(seed, time, state, pos, shoot, stamp, i).1, q),
    decreases 4 - i,
{
    match shoot {
        None => {},
        Some(s) => {
            if i < 4 {
                let next = spread_at(seed, time, state, pos, s, stamp, i);
                assert(mods_contain(next.1, q)) by {
                    lemma_mods_insert_keeps(state.1, neighbour(pos, i), q);
                }
                lemma_spread_keeps_mods(seed, time, next, pos, shoot, stamp, i + 1, q);
            }
        },
    }
}

/// Spreading from `pos` never touches the entry at `pos` itself.
pub proof fn lemma_spread_preserves_entry(
    seed: u32,
    time: int,
    state: (ChangeSeq, Seq<Pos>),
    pos: Pos,
    shoot: Option<Structure>,
    stamp: Tickstamp,
    i: int,
)
    requires
        pos_map_range(pos),
    ensures
        has_change(spread_all(seed, time, state, pos, shoot, stamp, i).0, pos) == has_change(
            state.0,
            pos,
        ),
        has_change(state.0, pos) ==> change_at(
            spread_all(seed, time, state, pos, shoot, stamp, i).0,
            pos,
        ) == change_at(state.0, pos),
    decreases 4 - i,
{
    match shoot {
        None => {},
        Some(s) => {
            if i < 4 {
                assert(neighbour(pos, i) != pos);
                let next = spread_at(seed, time, state, pos, s, stamp, i);
                lemma_upsert_other(
                    state.0,
                    neighbour(pos, i),
                    (
                        Tile {
                            ground: cell_of(seed, time, state.0, neighbour(pos, i)).ground,
                            structure: match s.joined_spec(
                                cell_of(seed, time, state.0, neighbour(pos, i)).structure,
                            ) {
                                Some(product) => product,
                                None => s,
                            },
                        },
                        stamp,
                    ),
                    pos,
                );
                lemma_spread_preserves_entry(seed, time, next, pos, shoot, stamp, i + 1);
            }
        },
    }
}

/// When entry `i` carries `p` and no earlier entry does, `i` is the first.
pub proof fn lemma_change_idx(s: ChangeSeq, p: Pos, i: int)
    requires
        0 <= i < s.len(),
        s[i].0 == p,
        forall|j: int| 0 <= j < i ==> (#[trigger] s[j]).0 != p,
    ensures
        change_idx(s, p) == i,
    decreases s.len(),
{
    if s[0].0 == p {
        assert(i == 0);
    } else {
        assert(s.drop_first()[i - 1] == s[i]);
        assert(forall|j: int| 0 <= j < i - 1 ==> (#[trigger] s.drop_first()[j]) == s[j + 1]);
        lemma_change_idx(s.drop_first(), p, i - 1);
    }
}

} // verus!
