//! The world simulation: players and their creatures, intent resolution with
//! collision and claim policy, the map tick, and the per-player view differ.

use vstd::prelude::*;
use crate::controls::{Control, Selector};
use crate::creature::{Creature, CreatureId, CreatureView, Mind, PlayerSave};
use crate::holder::{Holder, HolderId, has_key, key_idx};
use crate::inventory::Inventory;
use crate::item::Item;
use crate::map::{MapSave, WorldMap, changes_wf, pos_map_range, area_in_map_range, cell_of, tick_all, mods_contain, scheduled_cell};
use crate::player::{Player, PlayerId};
use crate::pos::{Area, Pos};
use crate::sprite::Sprite;
use crate::tickstamp::Tickstamp;
use crate::tile::Tile;
use crate::timestamp::Timestamp;
use crate::vec2::{Vec2, v2_in_range};
use crate::worldmessages::{SectionMessage, SoundType, ViewAreaMessage, WorldMessage};

verus! {

/// A player's view reaches this far; a new viewport is anchored when the
/// body comes this close to its edge.
pub const EDGE_OFFSET: i32 = 32;

/// The side length of a player's viewport.
pub const VIEW_AREA_SIZE: i32 = 128;

/// Claims must keep this distance from one another.
pub const CLAIM_SPACING: i32 = 64;

/// Claims must keep this distance from the spawn.
pub const CLAIM_SPAWN_DISTANCE: i32 = 96;

/// Building is allowed this close to an owned claim.
pub const BUILD_RANGE: i32 = 24;

/// Whether some player entry carries `id`.
pub open spec fn has_player_id(s: Seq<(PlayerId, Player)>, id: Seq<char>) -> bool {
    exists|i: int| 0 <= i < s.len() && (#[trigger] s[i]).0@ == id
}

/// The index of the player entry carrying `id`.
pub open spec fn player_idx(s: Seq<(PlayerId, Player)>, id: Seq<char>) -> int
    decreases s.len(),
{
    if s.len() == 0 {
        0
    } else if s[0].0@ == id {
        0
    } else {
        1 + player_idx(s.drop_first(), id)
    }
}

/// Whether some claim entry carries `id`.
pub open spec fn has_claim(s: Seq<(PlayerId, Pos)>, id: Seq<char>) -> bool {
    exists|i: int| 0 <= i < s.len() && (#[trigger] s[i]).0@ == id
}

/// The index of the claim entry carrying `id`.
pub open spec fn claim_idx(s: Seq<(PlayerId, Pos)>, id: Seq<char>) -> int
    decreases s.len(),
{
    if s.len() == 0 {
        0
    } else if s[0].0@ == id {
        0
    } else {
        1 + claim_idx(s.drop_first(), id)
    }
}

/// Why a player operation was refused.
#[derive(Debug)]
pub enum PlayerError {
    NotFound(PlayerId),
    BodyNotFound(PlayerId),
    AlreadyExists(PlayerId),
}

/// What a world save file holds.
#[derive(Debug)]
pub struct WorldSave {
    pub name: String,
    pub time: Tickstamp,
    pub ground: MapSave,
    pub claims: Vec<(PlayerId, Pos)>,
    pub seed: u32,
}

/// The world: one map, the creatures on it, the players steering them, and
/// their land claims.
#[derive(Debug)]
pub struct World {
    pub name: String,
    pub time: Tickstamp,
    pub ground: WorldMap,
    pub players: Vec<(PlayerId, Player)>,
    pub creatures: Holder<CreatureId, Creature>,
    pub claims: Vec<(PlayerId, Pos)>,
    pub seed: u32,
}

impl World {
    pub open spec fn wf(&self) -> bool {
        &&& self.ground.wf()
        &&& self.ground.time.0 <= self.time.0 <= self.ground.time.0 + 1
        &&& self.ground.seed_spec() == self.seed
        &&& 0 <= self.time.0 < 0x1F_0000_0000_0000
        &&& self.creatures.wf()
        &&& forall|i: int, j: int|
            0 <= i < j < self.players@.len() ==> (#[trigger] self.players@[i]).0@ != (
            #[trigger] self.players@[j]).0@
        &&& forall|i: int, j: int|
            0 <= i < j < self.claims@.len() ==> (#[trigger] self.claims@[i]).0@ != (
            #[trigger] self.claims@[j]).0@
        &&& forall|i: int|
            0 <= i < self.claims@.len() ==> pos_map_range((#[trigger] self.claims@[i]).1)
        &&& forall|i: int|
            0 <= i < self.creatures.entries_spec().len() ==> creature_wf(
                (#[trigger] self.creatures.entries_spec()[i]).1,
            )
        &&& forall|i: int|
            0 <= i < self.players@.len() ==> view_area_wf(
                (#[trigger] self.players@[i]).1.view_area,
            )
    }

    /// An empty world at tick zero.
    pub fn new(name: String, seed: u32) -> (w: World)
        ensures
            w.wf(),
            w.name@ == name@,
            w.time.0 == 0,
            w.seed == seed,
            w.players@.len() == 0,
            w.claims@.len() == 0,
            w.creatures.entries_spec().len() == 0,
            w.ground.changes@.len() == 0,
    {
        let time = Tickstamp(0);
        World {
            name,
            ground: WorldMap::new(seed, time),
            players: Vec::new(),
            creatures: Holder::new(),
            time,
            claims: Vec::new(),
            seed,
        }
    }

    /// The save a brand-new player starts from: empty-handed at the spawn.
    pub fn default_player(&self) -> (r: PlayerSave)
        ensures
            r.pos == Vec2::from_pos_spec(Pos { x: 0i32, y: 2i32 }),
            r.inventory@.len() == 0,
    {
        let spawn = self.ground.player_spawn();
        PlayerSave::new(Vec2::from_pos(&spawn))
    }

    /// The position of the player entry carrying `id`.
    fn find_player(&self, playerid: &PlayerId) -> (r: Option<usize>)
        ensures
            match r {
                Some(at) => has_player_id(self.players@, playerid@) && at < self.players@.len()
                    && self.players@[at as int].0@ == playerid@ && at == player_idx(
                    self.players@,
                    playerid@,
                ),
                None => !has_player_id(self.players@, playerid@),
            },
    {
        let mut i: usize = 0;
        while i < self.players.len()
            invariant
                0 <= i <= self.players@.len(),
                forall|j: int| 0 <= j < i ==> (#[trigger] self.players@[j]).0@ != playerid@,
            decreases self.players@.len() - i,
        {
            if self.players[i].0 == *playerid {
                proof {
                    assert((#[trigger] self.players@[i as int]).0@ == playerid@);
                    lemma_player_idx(self.players@, playerid@, i as int);
                }
                return Some(i);
            }
            i = i + 1;
        }
        None
    }

    /// Adds a player and its body from a save; a name can join only once.
    /// Whether the creature store can still mint a fresh body id;
    /// `add_player` asks callers for this headroom.
    pub fn can_add_player(&self) -> (r: bool)
        ensures
            r == (self.creatures.next_key_spec() < 0x7FFF_FFFF),
    {
        self.creatures.next_key.0 < 0x7FFF_FFFF
    }

    pub fn add_player(&mut self, playerid: &PlayerId, saved: PlayerSave) -> (r: Result<
        (),
        PlayerError,
    >)
        requires
            old(self).wf(),
            save_wf(&saved),
            old(self).creatures.next_key_spec() < 0x7FFF_FFFF,
        ensures
            final(self).wf(),
            final(self).time == old(self).time,
            final(self).claims == old(self).claims,
            final(self).ground == old(self).ground,
            match r {
                Ok(_) => !has_player_id(old(self).players@, playerid@) && ({
                    let entry = final(self).creatures.entries_spec().last();
                    &&& final(self).creatures.entries_spec() == old(
                        self,
                    ).creatures.entries_spec().push(entry)
                    &&& entry.0.key_spec() == old(self).creatures.next_key_spec()
                    &&& !has_key(old(self).creatures.entries_spec(), entry.0.key_spec())
                    &&& entry.1.pos == saved.pos
                    &&& entry.1.inventory.items@ == saved.inventory@
                    &&& entry.1.inventory.selector == 0
                    &&& entry.1.heard_sounds@.len() == 0
                    &&& entry.1.cooldown.0 == 0
                    &&& !entry.1.is_dead
                    &&& (entry.1.mind matches Mind::Player(p) && p@ == playerid@)
                    &&& final(self).players@ == old(self).players@.push(
                        (
                            final(self).players@.last().0,
                            Player {
                                plan: None,
                                movement: None,
                                body: entry.0,
                                is_new: true,
                                view_area: None,
                            },
                        ),
                    )
                    &&& final(self).players@.last().0@ == playerid@
                }),
                Err(r_err) => has_player_id(old(self).players@, playerid@) && *final(self) == *old(
                    self,
                ) && (r_err matches PlayerError::AlreadyExists(p) && p@ == playerid@),
            },
    {
        if self.find_player(playerid).is_some() {
            return Err(PlayerError::AlreadyExists(PlayerId(playerid.0.clone())));
        }
        let body = self.creatures.insert(
            Creature::load_player(PlayerId(playerid.0.clone()), saved),
        );
        self.players.push((PlayerId(playerid.0.clone()), Player::new(body)));
        proof {
            assert forall|i: int, j: int|
                0 <= i < j < self.players@.len() implies (#[trigger] self.players@[i]).0@ != (
            #[trigger] self.players@[j]).0@ by {
                if j < self.players@.len() - 1 {
                    assert(self.players@[i] == old(self).players@[i]);
                    assert(self.players@[j] == old(self).players@[j]);
                } else {
                    assert(self.players@[i] == old(self).players@[i]);
                    assert((#[trigger] old(self).players@[i]).0@ != playerid@);
                }
            }
            assert forall|i: int|
                0 <= i < self.creatures.entries_spec().len() implies creature_wf(
                (#[trigger] self.creatures.entries_spec()[i]).1,
            ) by {
                if i < self.creatures.entries_spec().len() - 1 {
                    assert(self.creatures.entries_spec()[i] == old(self).creatures.entries_spec()[i]);
                }
            }
        }
        Ok(())
    }

    /// Removes a player and destroys its body.
    pub fn remove_player(&mut self, playerid: &PlayerId) -> (r: Result<(), PlayerError>)
        requires
            old(self).wf(),
        ensures
            final(self).wf(),
            final(self).time == old(self).time,
            final(self).claims == old(self).claims,
            final(self).ground == old(self).ground,
            match r {
                Ok(_) => has_player_id(old(self).players@, playerid@) && ({
                    let body = old(self).players@[player_idx(
                        old(self).players@,
                        playerid@,
                    )].1.body;
                    &&& final(self).players@ == old(self).players@.remove(
                        player_idx(old(self).players@, playerid@),
                    )
                    &&& final(self).creatures.entries_spec() == (if has_key(
                        old(self).creatures.entries_spec(),
                        body.key_spec(),
                    ) {
                        old(self).creatures.entries_spec().remove(
                            key_idx(old(self).creatures.entries_spec(), body.key_spec()),
                        )
                    } else {
                        old(self).creatures.entries_spec()
                    })
                    &&& !has_key(final(self).creatures.entries_spec(), body.key_spec())
                }),
                Err(r_err) => !has_player_id(old(self).players@, playerid@) && *final(self)
                    == *old(self) && (r_err matches PlayerError::NotFound(p) && p@ == playerid@),
            },
    {
        let at = match self.find_player(playerid) {
            Some(at) => at,
            None => {
                return Err(PlayerError::NotFound(PlayerId(playerid.0.clone())));
            },
        };
        let (_, player) = self.players.remove(at);
        self.creatures.remove(&player.body);
        proof {
            let olds = old(self).players@;
            let pi = player_idx(olds, playerid@);
            assert forall|i: int, j: int|
                0 <= i < j < self.players@.len() implies (#[trigger] self.players@[i]).0@ != (
            #[trigger] self.players@[j]).0@ by {
                let oi = if i < pi {
                    i
                } else {
                    i + 1
                };
                let oj = if j < pi {
                    j
                } else {
                    j + 1
                };
                assert(self.players@[i] == olds[oi]);
                assert(self.players@[j] == olds[oj]);
            }
            assert forall|i: int|
                0 <= i < self.players@.len() implies view_area_wf(
                (#[trigger] self.players@[i]).1.view_area,
            ) by {
                let oi = if i < pi {
                    i
                } else {
                    i + 1
                };
                assert(self.players@[i] == olds[oi]);
            }
            let oldc = old(self).creatures.entries_spec();
            assert forall|i: int|
                0 <= i < self.creatures.entries_spec().len() implies creature_wf(
                (#[trigger] self.creatures.entries_spec()[i]).1,
            ) by {
                if has_key(oldc, player.body.key_spec()) {
                    crate::holder::lemma_key_idx_valid(oldc, player.body.key_spec());
                    let ci = key_idx(oldc, player.body.key_spec());
                    let oi = if i < ci {
                        i
                    } else {
                        i + 1
                    };
                    assert(self.creatures.entries_spec()[i] == oldc[oi]);
                    assert(creature_wf((#[trigger] oldc[oi]).1));
                } else {
                    assert(self.creatures.entries_spec()[i] == oldc[i]);
                    assert(creature_wf((#[trigger] oldc[i]).1));
                }
            }
        }
        Ok(())
    }

    /// The state that goes into this player's save file.
    pub fn save_player(&self, playerid: &PlayerId) -> (r: Result<PlayerSave, PlayerError>)
        requires
            self.wf(),
        ensures
            match r {
                Ok(save) => has_player_id(self.players@, playerid@) && ({
                    let body = self.players@[player_idx(self.players@, playerid@)].1.body;
                    has_key(self.creatures.entries_spec(), body.key_spec()) && ({
                        let c = self.creatures.entries_spec()[key_idx(
                            self.creatures.entries_spec(),
                            body.key_spec(),
                        )].1;
                        save.pos == c.pos && save.inventory@ == c.inventory.items@
                    })
                }),
                Err(e) => match e {
                    PlayerError::NotFound(p) => !has_player_id(self.players@, playerid@) && p@
                        == playerid@,
                    PlayerError::BodyNotFound(p) => has_player_id(self.players@, playerid@)
                        && !has_key(
                        self.creatures.entries_spec(),
                        self.players@[player_idx(self.players@, playerid@)].1.body.key_spec(),
                    ) && p@ == playerid@,
                    PlayerError::AlreadyExists(_) => false,
                },
            },
    {
        let at = match self.find_player(playerid) {
            Some(at) => at,
            None => {
                return Err(PlayerError::NotFound(PlayerId(playerid.0.clone())));
            },
        };
        let body = self.players[at].1.body;
        match self.creatures.get(&body) {
            Some(creature) => Ok(creature.save()),
            None => Err(PlayerError::BodyNotFound(PlayerId(playerid.0.clone()))),
        }
    }

    /// Queues a control as the player's plan for the next tick; a movement
    /// control also sets the continuous movement vector, cleared when it is
    /// zero.
    pub fn control_player(&mut self, playerid: &PlayerId, control: Control, _timestamp: Timestamp)
        -> (r: Result<(), PlayerError>)
        requires
            old(self).wf(),
        ensures
            final(self).wf(),
            final(self).time == old(self).time,
            final(self).claims == old(self).claims,
            final(self).ground == old(self).ground,
            final(self).creatures == old(self).creatures,
            match r {
                Ok(_) => has_player_id(old(self).players@, playerid@) && ({
                    let at = player_idx(old(self).players@, playerid@);
                    let p = old(self).players@[at].1;
                    final(self).players@ == old(self).players@.update(
                        at,
                        (
                            old(self).players@[at].0,
                            Player {
                                plan: Some(control),
                                movement: (match control {
                                    Control::Movement(delta) => if delta.x == 0 && delta.y == 0 {
                                        None
                                    } else {
                                        Some(delta)
                                    },
                                    _ => p.movement,
                                }),
                                ..p
                            },
                        ),
                    )
                }),
                Err(_) => !has_player_id(old(self).players@, playerid@) && *final(self) == *old(self),
            },
    {
        let at = match self.find_player(playerid) {
            Some(at) => at,
            None => {
                return Err(PlayerError::NotFound(PlayerId(playerid.0.clone())));
            },
        };
        let stored_id = PlayerId(self.players[at].0.0.clone());
        let player = self.players[at].1;
        let movement = match control {
            Control::Movement(delta) => {
                if delta.x == 0 && delta.y == 0 {
                    None
                } else {
                    Some(delta)
                }
            },
            _ => player.movement,
        };
        let updated = Player {
            plan: Some(control),
            movement,
            body: player.body,
            is_new: player.is_new,
            view_area: player.view_area,
        };
        self.players.set(at, (stored_id, updated));
        proof {
            assert(final(self).wf()) by {
                assert(forall|a: int|
                    0 <= a < self.players@.len() ==> (#[trigger] self.players@[a]).0@ == old(self).players@[a].0@);
                assert(view_area_wf(self.players@[at as int].1.view_area));
            }
            assert(final(self).players@[at as int].1.plan == Some(control));
        }
        Ok(())
    }

    /// Whether a player of this name is in the world.
    pub fn has_player(&self, playerid: &PlayerId) -> (r: bool)
        ensures
            r == has_player_id(self.players@, playerid@),
    {
        self.find_player(playerid).is_some()
    }

    /// The names of all players, in join order.
    pub fn list_players(&self) -> (r: Vec<PlayerId>)
        ensures
            r@.len() == self.players@.len(),
            forall|i: int| 0 <= i < r@.len() ==> (#[trigger] r@[i])@ == self.players@[i].0@,
    {
        let mut out: Vec<PlayerId> = Vec::new();
        let mut i: usize = 0;
        while i < self.players.len()
            invariant
                0 <= i <= self.players@.len(),
                out@.len() == i,
                forall|j: int| 0 <= j < i ==> (#[trigger] out@[j])@ == self.players@[j].0@,
            decreases self.players@.len() - i,
        {
            out.push(PlayerId(self.players[i].0.0.clone()));
            i = i + 1;
        }
        out
    }

    /// The areas currently observed by players: the only regions random
    /// ticks run in.
    pub fn loaded_areas(&self) -> (r: Vec<Area>)
        requires
            self.wf(),
        ensures
            r@ == view_areas(self.players@),
            forall|i: int| 0 <= i < r@.len() ==> area_in_map_range(#[trigger] r@[i]),
    {
        let mut out: Vec<Area> = Vec::new();
        let mut i: usize = 0;
        proof {
            assert(self.players@.take(0) =~= Seq::<(PlayerId, Player)>::empty());
        }
        while i < self.players.len()
            invariant
                0 <= i <= self.players@.len(),
                self.wf(),
                out@ == view_areas(self.players@.take(i as int)),
                forall|j: int| 0 <= j < out@.len() ==> area_in_map_range(#[trigger] out@[j]),
            decreases self.players@.len() - i,
        {
            proof {
                assert(view_area_wf((#[trigger] self.players@[i as int]).1.view_area));
                assert(self.players@.take(i as int + 1).drop_last() =~= self.players@.take(
                    i as int,
                ));
                assert(self.players@.take(i as int + 1).last() == self.players@[i as int]);
            }
            match self.players[i].1.view_area() {
                Some(area) => {
                    out.push(area);
                    proof {
                        assert(out@ =~= view_areas(self.players@.take(i as int + 1)));
                    }
                },
                None => {
                    proof {
                        assert(out@ =~= view_areas(self.players@.take(i as int + 1)));
                    }
                },
            }
            i = i + 1;
        }
        proof {
            assert(self.players@.take(self.players@.len() as int) =~= self.players@);
        }
        out
    }

    /// The world save: the name, the time, the map overlay, the claims and
    /// the seed. Loading it brings each of them back exactly.
    pub fn save(&self) -> (r: WorldSave)
        requires
            self.wf(),
        ensures
            r.name@ == self.name@,
            r.time == self.time,
            r.ground@ == self.ground.changes@,
            r.claims@.len() == self.claims@.len(),
            forall|i: int|
                0 <= i < r.claims@.len() ==> (#[trigger] r.claims@[i]).0@ == self.claims@[i].0@
                    && r.claims@[i].1 == self.claims@[i].1,
            r.seed == self.seed,
    {
        let mut claims: Vec<(PlayerId, Pos)> = Vec::new();
        let mut i: usize = 0;
        while i < self.claims.len()
            invariant
                0 <= i <= self.claims@.len(),
                claims@.len() == i,
                forall|j: int|
                    0 <= j < i ==> (#[trigger] claims@[j]).0@ == self.claims@[j].0@
                        && claims@[j].1 == self.claims@[j].1,
            decreases self.claims@.len() - i,
        {
            let (id, pos) = {
                let entry = &self.claims[i];
                (PlayerId(entry.0.0.clone()), entry.1)
            };
            claims.push((id, pos));
            i = i + 1;
        }
        WorldSave {
            name: self.name.clone(),
            time: self.time,
            ground: self.ground.save(),
            claims,
            seed: self.seed,
        }
    }

    /// A world from its save: the map overlay, the time, the claims and the
    /// seed are exactly those saved; no players are connected yet.
    pub fn load(save: WorldSave) -> (w: World)
        requires
            changes_wf(save.ground@),
            forall|i: int|
                0 <= i < save.ground@.len() ==> pos_map_range((#[trigger] save.ground@[i]).0),
            0 <= save.time.0 < 0x1F_0000_0000_0000,
            forall|i: int, j: int|
                0 <= i < j < save.claims@.len() ==> (#[trigger] save.claims@[i]).0@ != (
                #[trigger] save.claims@[j]).0@,
            forall|i: int|
                0 <= i < save.claims@.len() ==> pos_map_range((#[trigger] save.claims@[i]).1),
        ensures
            w.wf(),
            w.name@ == save.name@,
            w.time == save.time,
            w.ground.changes@ == save.ground@,
            w.claims@ == save.claims@,
            w.seed == save.seed,
            w.players@.len() == 0,
    {
        World {
            name: save.name,
            ground: WorldMap::load(save.ground, save.time, save.seed),
            players: Vec::new(),
            creatures: Holder::new(),
            time: save.time,
            claims: save.claims,
            seed: save.seed,
        }
    }
}

/// The parts of the world one creature's turn may read or write.
pub struct TurnState {
    pub creatures: Seq<(CreatureId, Creature)>,
    pub claims: Seq<(PlayerId, Pos)>,
    pub changes: crate::map::ChangeSeq,
    pub mods: Seq<Pos>,
}

/// Those parts of a world.
pub open spec fn turn_state(w: World) -> TurnState {
    TurnState {
        creatures: w.creatures.entries_spec(),
        claims: w.claims@,
        changes: w.ground.changes@,
        mods: w.ground.modifications@,
    }
}

/// One creature's turn, exactly: a cooling creature only cools down and
/// hears silence; a rested one hears silence, takes its continuous movement
/// where nothing blocks, and carries out its player's plan — a legacy step,
/// death, a selection, a stack move, or an interaction with everything
/// `interact_effects` says of it. A creature whose player has left dies.
pub open spec fn creature_turn(
    seed: u32,
    gt: int,
    players: Seq<(PlayerId, Player)>,
    s1: TurnState,
    s2: TurnState,
    i: int,
) -> bool {
    &&& 0 <= i < s1.creatures.len()
    &&& s2.creatures.len() == s1.creatures.len()
    &&& (forall|j: int|
        0 <= j < s1.creatures.len() && j != i ==> s2.creatures[j] == s1.creatures[j])
    &&& s2.creatures[i].0 == s1.creatures[i].0
    &&& ({
        let c = s1.creatures[i].1;
        let cn = s2.creatures[i].1;
        &&& cn.walk_cooldown == c.walk_cooldown
        &&& cn.shape == c.shape
        &&& cn.mind == c.mind
        &&& cn.sprite == c.sprite
        &&& if c.cooldown.0 > 0 {
            &&& s2.changes == s1.changes && s2.mods == s1.mods && s2.claims == s1.claims
            &&& cn.cooldown.0 == c.cooldown.0 - 1
            &&& cn.heard_sounds@.len() == 0
            &&& cn.pos == c.pos && cn.is_dead == c.is_dead && cn.inventory == c.inventory
        } else {
            let name = creature_name(c);
            let movement = if has_player_id(players, name) {
                players[player_idx(players, name)].1.movement
            } else {
                None
            };
            let plan = if has_player_id(players, name) {
                players[player_idx(players, name)].1.plan
            } else {
                Some(Control::Suicide)
            };
            let pos1 = moved_pos(seed, gt, s1.changes, c.pos, movement);
            let world_inert = s2.changes == s1.changes && s2.mods == s1.mods && s2.claims
                == s1.claims;
            match plan {
                None => world_inert && cn.pos == pos1 && cn.cooldown == c.cooldown && cn.is_dead
                    == c.is_dead && cn.inventory == c.inventory && cn.heard_sounds@.len() == 0,
                Some(queued) => match queued {
                    Control::Move(d) => {
                        let sx = pos1.x + d.to_position_spec().x * 0x8000;
                        let sy = pos1.y + d.to_position_spec().y * 0x8000;
                        let stepped = if -0x03FF_FFFE_0000 <= sx <= 0x03FF_FFFE_0000
                            && -0x03FF_FFFE_0000 <= sy <= 0x03FF_FFFE_0000 {
                            Vec2 { x: sx as i64, y: sy as i64 }
                        } else {
                            pos1
                        };
                        &&& world_inert
                        &&& cn.pos == stepped
                        &&& cn.cooldown == c.walk_cooldown
                        &&& cn.is_dead == c.is_dead
                        &&& cn.inventory == c.inventory
                        &&& cn.heard_sounds@.len() == 0
                    },
                    Control::Movement(_) => world_inert && cn.pos == pos1 && cn.cooldown
                        == c.cooldown && cn.is_dead == c.is_dead && cn.inventory == c.inventory
                        && cn.heard_sounds@.len() == 0,
                    Control::Suicide => world_inert && cn.pos == pos1 && cn.cooldown == c.cooldown
                        && cn.is_dead && cn.inventory == c.inventory && cn.heard_sounds@.len()
                        == 0,
                    Control::Select(sel) => {
                        &&& world_inert
                        &&& cn.pos == pos1
                        &&& cn.cooldown == c.cooldown
                        &&& cn.is_dead == c.is_dead
                        &&& cn.heard_sounds@.len() == 0
                        &&& cn.inventory.items@ == c.inventory.items@
                        &&& cn.inventory.selector == crate::inventory::select_spec(
                            c.inventory.selector as int,
                            c.inventory.items@.len() + crate::inventory::FIXED_ENTRIES,
                            sel,
                        )
                    },
                    Control::MoveSelected(sel) => {
                        let t = crate::inventory::move_target(c.inventory.selector as int, sel);
                        &&& world_inert
                        &&& cn.pos == pos1
                        &&& cn.cooldown == c.cooldown
                        &&& cn.is_dead == c.is_dead
                        &&& cn.heard_sounds@.len() == 0
                        &&& if c.inventory.selector < crate::inventory::FIXED_ENTRIES || t
                            < crate::inventory::FIXED_ENTRIES || t >= c.inventory.items@.len()
                            + crate::inventory::FIXED_ENTRIES {
                            cn.inventory == c.inventory
                        } else {
                            &&& cn.inventory.items@ == c.inventory.items@.remove(
                                c.inventory.selector - crate::inventory::FIXED_ENTRIES,
                            ).insert(
                                t - crate::inventory::FIXED_ENTRIES,
                                c.inventory.items@[c.inventory.selector
                                    - crate::inventory::FIXED_ENTRIES],
                            )
                            &&& cn.inventory.selector == crate::inventory::select_spec(
                                c.inventory.selector as int,
                                c.inventory.items@.len() + crate::inventory::FIXED_ENTRIES,
                                sel,
                            )
                        }
                    },
                    Control::Interact(d) => {
                        &&& cn.pos == pos1
                        &&& cn.cooldown == c.cooldown
                        &&& cn.is_dead == c.is_dead
                        &&& interact_effects(
                            seed,
                            gt,
                            name,
                            pos1,
                            c.inventory.items@,
                            c.inventory.selector as int,
                            Seq::empty(),
                            s1.changes,
                            s1.mods,
                            s1.claims,
                            cn.inventory.items@,
                            cn.inventory.selector as int,
                            sounds_view(cn.heard_sounds@),
                            s2.changes,
                            s2.mods,
                            s2.claims,
                            d,
                        )
                    },
                },
            }
        }
    })
}

/// The view areas of the players, in player order.
pub open spec fn view_areas(players: Seq<(PlayerId, Player)>) -> Seq<Area>
    decreases players.len(),
{
    if players.len() == 0 {
        Seq::empty()
    } else {
        view_areas(players.drop_last()) + (match players.last().1.view_area {
            Some(a) => seq![a],
            None => Seq::empty(),
        })
    }
}

/// View areas depend only on each player's viewport field.
pub proof fn lemma_view_areas_agree(s1: Seq<(PlayerId, Player)>, s2: Seq<(PlayerId, Player)>)
    requires
        s1.len() == s2.len(),
        forall|k: int| 0 <= k < s1.len() ==> (#[trigger] s1[k]).1.view_area == s2[k].1.view_area,
    ensures
        view_areas(s1) == view_areas(s2),
    decreases s1.len(),
{
    if s1.len() > 0 {
        assert(forall|k: int|
            0 <= k < s1.drop_last().len() ==> (#[trigger] s1.drop_last()[k]) == s1[k]);
        assert(forall|k: int|
            0 <= k < s2.drop_last().len() ==> (#[trigger] s2.drop_last()[k]) == s2[k]);
        lemma_view_areas_agree(s1.drop_last(), s2.drop_last());
        assert((#[trigger] s1[s1.len() - 1]).1.view_area == s2[s1.len() - 1].1.view_area);
    }
}

/// Whether `p` lies under the unit collision box anchored at `newpos`.
pub open spec fn box_covers(newpos: Vec2, p: Pos) -> bool {
    let lo = newpos.floor_spec();
    let hi = (Vec2 {
        x: (newpos.x + crate::vec2::SUBTILE) as i64,
        y: (newpos.y + crate::vec2::SUBTILE) as i64,
    }).ceil_spec();
    &&& lo.x <= p.x < hi.x
    &&& lo.y <= p.y < hi.y
}

/// Whether any tile under the unit box at `newpos` blocks movement.
pub open spec fn box_blocked_spec(
    seed: u32,
    gt: int,
    changes: crate::map::ChangeSeq,
    newpos: Vec2,
) -> bool {
    exists|p: Pos|
        box_covers(newpos, p) && #[trigger] cell_of(seed, gt, changes, p).blocking_spec()
}

/// Where continuous movement carries a body this tick: the step is the
/// normalized vector scaled by the body's speed, taken only when its
/// components are sane, the result stays in the world, and no tile under the
/// moved box blocks.
pub open spec fn moved_pos(
    seed: u32,
    gt: int,
    changes: crate::map::ChangeSeq,
    pos: Vec2,
    movement: Option<Vec2>,
) -> Vec2 {
    match movement {
        Some(delta) => if -0x10000 <= delta.x <= 0x10000 && -0x10000 <= delta.y <= 0x10000 {
            let step = delta.scaled_frac_spec(0x8000);
            let np = Vec2 { x: (pos.x + step.x) as i64, y: (pos.y + step.y) as i64 };
            if -0x03FF_FFFE_0000 <= np.x <= 0x03FF_FFFE_0000 && -0x03FF_FFFE_0000 <= np.y
                <= 0x03FF_FFFE_0000 && !box_blocked_spec(seed, gt, changes, np) {
                np
            } else {
                pos
            }
        } else {
            pos
        },
        None => pos,
    }
}

/// The name of the player steering a creature.
pub open spec fn creature_name(c: Creature) -> Seq<char> {
    match c.mind {
        Mind::Player(id) => id@,
    }
}

/// The tile an interaction intent aims at: the body's tile, or its
/// neighbour in the given direction.
pub open spec fn interact_target(pos: Vec2, dir: Option<crate::pos::Direction>) -> Pos {
    let body_tile = pos.round_spec();
    match dir {
        Some(d) => Pos {
            x: (body_tile.x + d.to_position_spec().x) as i32,
            y: (body_tile.y + d.to_position_spec().y) as i32,
        },
        None => body_tile,
    }
}

/// The claim list grew by exactly one entry: this player's claim at `pos`.
pub open spec fn claims_pushed(
    cl0: Seq<(PlayerId, Pos)>,
    cl1: Seq<(PlayerId, Pos)>,
    name: Seq<char>,
    pos: Pos,
) -> bool {
    &&& cl1.len() == cl0.len() + 1
    &&& cl1.subrange(0, cl0.len() as int) == cl0
    &&& cl1.last().0@ == name
    &&& cl1.last().1 == pos
}

/// What resolving one interaction intent leaves behind, per §the tile's own
/// `interact_spec`: nothing on an unanswered intent; a build-error sound and
/// no other change on a policy or payment refusal; otherwise the claim is
/// recorded when one was made, the cost is paid, the yielded items are
/// added, the tile's remains are written, and the result's message is heard.
pub open spec fn interact_effects(
    seed: u32,
    gt: int,
    name: Seq<char>,
    pos: Vec2,
    items0: Seq<(Item, usize)>,
    sel0: int,
    sounds0: Seq<(SoundType, Seq<char>)>,
    ch0: crate::map::ChangeSeq,
    md0: Seq<Pos>,
    cl0: Seq<(PlayerId, Pos)>,
    items1: Seq<(Item, usize)>,
    sel1: int,
    sounds1: Seq<(SoundType, Seq<char>)>,
    ch1: crate::map::ChangeSeq,
    md1: Seq<Pos>,
    cl1: Seq<(PlayerId, Pos)>,
    dir: Option<crate::pos::Direction>,
) -> bool {
    let target = interact_target(pos, dir);
    let inert = ch1 == ch0 && md1 == md0 && cl1 == cl0 && items1 == items0 && sel1 == sel0
        && sounds1 == sounds0;
    if !pos_map_range(target) {
        inert
    } else {
        let tile = cell_of(seed, gt, ch0, target);
        let item = crate::inventory::sel_item(items0, sel0);
        match tile.interact_spec(item, Tickstamp(gt as i64)) {
            None => inert,
            Some(m) => {
                if m.claim && claim_refusal_at(cl0, name, target) is Some {
                    &&& ch1 == ch0 && md1 == md0 && cl1 == cl0
                    &&& items1 == items0 && sel1 == sel0
                    &&& sounds1 == sounds0.push(
                        (SoundType::BuildError, claim_refusal_at(cl0, name, target)->0),
                    )
                } else {
                    let claims_ok = if m.claim {
                        claims_pushed(cl0, cl1, name, target)
                    } else {
                        cl1 == cl0
                    };
                    if m.build && build_refusal_at(cl1, name, target) is Some {
                        &&& claims_ok
                        &&& ch1 == ch0 && md1 == md0
                        &&& items1 == items0 && sel1 == sel0
                        &&& sounds1 == sounds0.push(
                            (SoundType::BuildError, build_refusal_at(cl1, name, target)->0),
                        )
                    } else if !crate::inventory::payable(items0, m.cost) {
                        &&& claims_ok
                        &&& ch1 == ch0 && md1 == md0
                        &&& items1 == items0 && sel1 == sel0
                        &&& sounds1 == sounds0.push(
                            (SoundType::BuildError, "Not enough resources"@),
                        )
                    } else {
                        let paid = crate::inventory::pay_result(items0, m.cost);
                        let ch_a = match m.remains {
                            Some(st) => crate::map::set_effect(
                                seed,
                                gt,
                                ch0,
                                target,
                                Tile { ground: tile.ground, structure: st },
                            ),
                            None => ch0,
                        };
                        let md_a = match m.remains {
                            Some(_) => crate::map::mods_insert(md0, target),
                            None => md0,
                        };
                        let ch_b = match m.remains_ground {
                            Some(g) => crate::map::set_effect(
                                seed,
                                gt,
                                ch_a,
                                target,
                                Tile { ground: g, structure: cell_of(
                                    seed,
                                    gt,
                                    ch_a,
                                    target,
                                ).structure },
                            ),
                            None => ch_a,
                        };
                        let md_b = match m.remains_ground {
                            Some(_) => crate::map::mods_insert(md_a, target),
                            None => md_a,
                        };
                        &&& claims_ok
                        &&& items1 == crate::inventory::add_items_spec(paid, m.items)
                        &&& sel1 == crate::inventory::clamp_selector(sel0, paid.len() as int)
                        &&& ch1 == ch_b
                        &&& md1 == md_b
                        &&& sounds1 == sounds0 + (match m.message {
                            Some(msg) => seq![msg],
                            None => Seq::empty(),
                        })
                    }
                }
            },
        }
    }
}

/// Why a claim at `pos` by the player named `id` is refused, if it is: each
/// player claims once, claims keep their spacing, and the spawn keeps its
/// ring.
pub open spec fn claim_refusal_at(claims: Seq<(PlayerId, Pos)>, id: Seq<char>, pos: Pos) -> Option<
    Seq<char>,
> {
    if has_claim(claims, id) {
        Some("Only one claim per player allowed"@)
    } else if exists|i: int|
        0 <= i < claims.len() && crate::pos::manhattan((#[trigger] claims[i]).1, pos)
            < CLAIM_SPACING {
        Some("Too close to existing claim"@)
    } else if crate::pos::manhattan(Pos { x: 0i32, y: 2i32 }, pos) < CLAIM_SPAWN_DISTANCE {
        Some("Too close to spawn"@)
    } else {
        None
    }
}

/// Why a build at `pos` by the player named `id` is refused, if it is:
/// building needs an owned claim within build range.
pub open spec fn build_refusal_at(claims: Seq<(PlayerId, Pos)>, id: Seq<char>, pos: Pos) -> Option<
    Seq<char>,
> {
    if !has_claim(claims, id) {
        Some("Need land claim to build"@)
    } else if crate::pos::manhattan(claims[claim_idx(claims, id)].1, pos) > BUILD_RANGE {
        Some("Too far from land claim to build"@)
    } else {
        None
    }
}

impl World {
    /// Why a claim at `pos` by `playerid` is refused, if it is.
    pub open spec fn claim_refusal_spec(&self, id: Seq<char>, pos: Pos) -> Option<Seq<char>> {
        claim_refusal_at(self.claims@, id, pos)
    }

    /// The claim policy check.
    fn claim_refusal(&self, playerid: &PlayerId, pos: Pos) -> (r: Option<&'static str>)
        requires
            self.wf(),
            pos_map_range(pos),
        ensures
            match r {
                Some(msg) => self.claim_refusal_spec(playerid@, pos) == Some(msg@),
                None => self.claim_refusal_spec(playerid@, pos) is None,
            },
    {
        let mut i: usize = 0;
        while i < self.claims.len()
            invariant
                0 <= i <= self.claims@.len(),
                forall|j: int| 0 <= j < i ==> (#[trigger] self.claims@[j]).0@ != playerid@,
            decreases self.claims@.len() - i,
        {
            if self.claims[i].0 == *playerid {
                proof {
                    assert((#[trigger] self.claims@[i as int]).0@ == playerid@);
                }
                return Some("Only one claim per player allowed");
            }
            i = i + 1;
        }
        let mut i: usize = 0;
        while i < self.claims.len()
            invariant
                0 <= i <= self.claims@.len(),
                self.wf(),
                pos_map_range(pos),
                !has_claim(self.claims@, playerid@),
                forall|j: int|
                    0 <= j < i ==> crate::pos::manhattan((#[trigger] self.claims@[j]).1, pos)
                        >= CLAIM_SPACING,
            decreases self.claims@.len() - i,
        {
            proof {
                assert(pos_map_range((#[trigger] self.claims@[i as int]).1));
            }
            let claim_pos = self.claims[i].1;
            if claim_pos.distance_to(pos) < CLAIM_SPACING {
                proof {
                    assert(crate::pos::manhattan((#[trigger] self.claims@[i as int]).1, pos)
                        < CLAIM_SPACING);
                }
                return Some("Too close to existing claim");
            }
            i = i + 1;
        }
        let spawn = self.ground.player_spawn();
        if spawn.distance_to(pos) < CLAIM_SPAWN_DISTANCE {
            return Some("Too close to spawn");
        }
        None
    }

    /// Why a build at `pos` by `playerid` is refused, if it is.
    pub open spec fn build_refusal_spec(&self, id: Seq<char>, pos: Pos) -> Option<Seq<char>> {
        build_refusal_at(self.claims@, id, pos)
    }

    /// The build policy check.
    fn build_refusal(&self, playerid: &PlayerId, pos: Pos) -> (r: Option<&'static str>)
        requires
            self.wf(),
            pos_map_range(pos),
        ensures
            match r {
                Some(msg) => self.build_refusal_spec(playerid@, pos) == Some(msg@),
                None => self.build_refusal_spec(playerid@, pos) is None,
            },
    {
        let mut i: usize = 0;
        while i < self.claims.len()
            invariant
                0 <= i <= self.claims@.len(),
                self.wf(),
                pos_map_range(pos),
                forall|j: int| 0 <= j < i ==> (#[trigger] self.claims@[j]).0@ != playerid@,
            decreases self.claims@.len() - i,
        {
            if self.claims[i].0 == *playerid {
                proof {
                    assert((#[trigger] self.claims@[i as int]).0@ == playerid@);
                    lemma_claim_idx(self.claims@, playerid@, i as int);
                    assert(pos_map_range((#[trigger] self.claims@[i as int]).1));
                }
                let claim_pos = self.claims[i].1;
                if claim_pos.distance_to(pos) > BUILD_RANGE {
                    return Some("Too far from land claim to build");
                } else {
                    return None;
                }
            }
            i = i + 1;
        }
        Some("Need land claim to build")
    }

    /// Whether any tile under a unit box at `newpos` blocks movement.
    fn box_blocked(&self, newpos: Vec2) -> (r: bool)
        requires
            self.wf(),
            v2_in_range(newpos),
            v2_in_range(
                Vec2 { x: (newpos.x + crate::vec2::SUBTILE) as i64, y: (newpos.y
                    + crate::vec2::SUBTILE) as i64 },
            ),
        ensures
            r == box_blocked_spec(
                self.ground.seed_spec(),
                self.ground.time.0 as int,
                self.ground.changes@,
                newpos,
            ),
    {
        let shape = crate::vec2::Rect::new(
            newpos,
            Vec2::new(crate::vec2::SUBTILE, crate::vec2::SUBTILE),
        );
        let area = shape.outer_area();
        let ps = area.iter();
        proof {
            assert forall|k: int| 0 <= k < ps@.len() implies crate::basemap::pos_tile_range(
                #[trigger] ps@[k],
            ) by {
                assert(area.contains_spec(ps@[k]));
            }
        }
        let ghost seed = self.ground.seed_spec();
        let ghost gt = self.ground.time.0 as int;
        let mut i: usize = 0;
        while i < ps.len()
            invariant
                0 <= i <= ps@.len(),
                self.wf(),
                seed == self.ground.seed_spec(),
                gt == self.ground.time.0 as int,
                v2_in_range(newpos),
                area.min_spec() == newpos.floor_spec(),
                area.min_spec().x + area.size_spec().x == shape.max_spec().ceil_spec().x,
                area.min_spec().y + area.size_spec().y == shape.max_spec().ceil_spec().y,
                shape.max_spec() == (Vec2 { x: (newpos.x + crate::vec2::SUBTILE) as i64, y: (
                newpos.y + crate::vec2::SUBTILE) as i64 }),
                ps@.len() == area.width() * area.height(),
                forall|k: int| 0 <= k < ps@.len() ==> ps@[k] == area.point_at(k),
                forall|k: int|
                    0 <= k < ps@.len() ==> area.contains_spec(#[trigger] ps@[k])
                        && crate::basemap::pos_tile_range(ps@[k]),
                forall|k: int|
                    0 <= k < i ==> !cell_of(seed, gt, self.ground.changes@, #[trigger] ps@[k]).blocking_spec(),
            decreases ps@.len() - i,
        {
            let p = ps[i];
            if self.ground.cell(p).blocking() {
                proof {
                    assert(box_covers(newpos, p));
                    assert(cell_of(seed, gt, self.ground.changes@, p).blocking_spec());
                }
                return true;
            }
            i = i + 1;
        }
        proof {
            assert forall|p: Pos| !(box_covers(newpos, p) && #[trigger] cell_of(
                seed,
                gt,
                self.ground.changes@,
                p,
            ).blocking_spec()) by {
                if box_covers(newpos, p) {
                    assert(area.contains_spec(p));
                    crate::pos::lemma_area_point_index(area, p);
                    let k = (p.y - area.min_spec().y) * area.width() + (p.x - area.min_spec().x);
                    assert(ps@[k] == p);
                }
            }
        }
        false
    }

    /// Runs one simulation tick: every rested creature hears silence again,
    /// moves by its continuous movement when nothing blocks, and carries out
    /// its player's queued plan; plans are then consumed, the map runs its
    /// random tick over the loaded areas, and time advances.
    ///
    /// The exact meaning of each step lives in the contracts of the pieces:
    /// movement collision in `box_blocked` and the map's `cell`, interaction
    /// outcomes in `Tile::interact`, payment in `Inventory::pay`, and the
    /// claim and build policy in `claim_refusal_spec` and
    /// `build_refusal_spec`.
    pub fn update(&mut self)
        requires
            old(self).wf(),
            old(self).time.0 + 1 < 0x1F_0000_0000_0000,
        ensures
            final(self).wf(),
            final(self).time.0 == old(self).time.0 + 1,
            final(self).ground.time == old(self).time,
            final(self).ground.basemap == old(self).ground.basemap,
            final(self).players@.len() == old(self).players@.len(),
            forall|k: int|
                0 <= k < final(self).players@.len() ==> (#[trigger] final(self).players@[k]).0@
                    == old(self).players@[k].0@ && final(self).players@[k].1 == (Player {
                    plan: None,
                    ..old(self).players@[k].1
                }),
            exists|trace: Seq<TurnState>, ps: Seq<Pos>|
                {
                    &&& trace.len() == old(self).creatures.entries_spec().len() + 1
                    &&& trace[0] == turn_state(*old(self))
                    &&& forall|i: int|
                        0 <= i < trace.len() - 1 ==> #[trigger] creature_turn(
                            old(self).ground.seed_spec(),
                            old(self).ground.time.0 as int,
                            old(self).players@,
                            trace[i],
                            trace[i + 1],
                            i,
                        )
                    &&& final(self).creatures.entries_spec() == trace[trace.len() - 1].creatures
                    &&& final(self).claims@ == trace[trace.len() - 1].claims
                    &&& (final(self).ground.changes@, final(self).ground.modifications@)
                        == #[trigger] tick_all(
                        old(self).ground.seed_spec(),
                        old(self).time.0 as int,
                        (trace[trace.len() - 1].changes, trace[trace.len() - 1].mods),
                        ps,
                    )
                    &&& forall|i: int, j: int| 0 <= i < j < ps.len() ==> ps[i] != ps[j]
                    &&& forall|p: Pos|
                        mods_contain(ps, p) <==> #[trigger] scheduled_cell(
                            view_areas(old(self).players@),
                            old(self).time.0 as int,
                            p,
                        )
                },
    {
        self.update_creatures();
        let ghost mid = *self;
        let areas = self.loaded_areas();
        proof {
            lemma_view_areas_agree(self.players@, old(self).players@);
        }
        let now = self.time;
        self.ground.tick(now, &areas);
        self.time.increment();
        proof {
            let seed = old(self).ground.seed_spec();
            let gt = old(self).ground.time.0 as int;
            let trace = choose|trace: Seq<TurnState>|
                {
                    &&& trace.len() == old(self).creatures.entries_spec().len() + 1
                    &&& trace[0] == turn_state(*old(self))
                    &&& trace[trace.len() - 1] == turn_state(mid)
                    &&& forall|i: int|
                        0 <= i < trace.len() - 1 ==> #[trigger] creature_turn(
                            seed,
                            gt,
                            old(self).players@,
                            trace[i],
                            trace[i + 1],
                            i,
                        )
                };
            let ps = choose|ps: Seq<Pos>|
                {
                    &&& (self.ground.changes@, self.ground.modifications@) == #[trigger] tick_all(
                        mid.ground.seed_spec(),
                        now.0 as int,
                        (mid.ground.changes@, mid.ground.modifications@),
                        ps,
                    )
                    &&& forall|i: int, j: int| 0 <= i < j < ps.len() ==> ps[i] != ps[j]
                    &&& forall|p: Pos|
                        mods_contain(ps, p) <==> #[trigger] scheduled_cell(
                            areas@,
                            now.0 as int,
                            p,
                        )
                };
            assert(trace[trace.len() - 1].changes == mid.ground.changes@);
            assert(trace[trace.len() - 1].mods == mid.ground.modifications@);
            assert((self.ground.changes@, self.ground.modifications@) == tick_all(
                seed,
                old(self).time.0 as int,
                (trace[trace.len() - 1].changes, trace[trace.len() - 1].mods),
                ps,
            ));
        }
    }

    /// Applies every creature's turn in order — `creature_turn` pins each —
    /// then consumes every player's plan, leaving everything else of the
    /// player records as it was.
    fn update_creatures(&mut self)
        requires
            old(self).wf(),
        ensures
            final(self).wf(),
            final(self).time == old(self).time,
            final(self).ground.time == old(self).ground.time,
            final(self).ground.basemap == old(self).ground.basemap,
            final(self).players@.len() == old(self).players@.len(),
            forall|k: int|
                0 <= k < final(self).players@.len() ==> (#[trigger] final(self).players@[k]).0@
                    == old(self).players@[k].0@ && final(self).players@[k].1 == (Player {
                    plan: None,
                    ..old(self).players@[k].1
                }),
            exists|trace: Seq<TurnState>|
                {
                    &&& trace.len() == old(self).creatures.entries_spec().len() + 1
                    &&& trace[0] == turn_state(*old(self))
                    &&& trace[trace.len() - 1] == turn_state(*final(self))
                    &&& forall|i: int|
                        0 <= i < trace.len() - 1 ==> #[trigger] creature_turn(
                            old(self).ground.seed_spec(),
                            old(self).ground.time.0 as int,
                            old(self).players@,
                            trace[i],
                            trace[i + 1],
                            i,
                        )
                },
    {
        let ghost seed = self.ground.seed_spec();
        let ghost gt = self.ground.time.0 as int;
        let ghost mut trace: Seq<TurnState> = seq![turn_state(*self)];
        let n = self.creatures.len();
        let mut i: usize = 0;
        while i < n
            invariant
                0 <= i <= n,
                self.wf(),
                self.time == old(self).time,
                self.ground.time == old(self).ground.time,
                self.ground.basemap == old(self).ground.basemap,
                seed == old(self).ground.seed_spec(),
                gt == old(self).ground.time.0 as int,
                n == self.creatures.entries_spec().len(),
                n == old(self).creatures.entries_spec().len(),
                self.players == old(self).players,
                trace.len() == i + 1,
                trace[0] == turn_state(*old(self)),
                trace[i as int] == turn_state(*self),
                forall|k: int|
                    0 <= k < i ==> #[trigger] creature_turn(
                        seed,
                        gt,
                        old(self).players@,
                        trace[k],
                        trace[k + 1],
                        k,
                    ),
            decreases n - i,
        {
            self.update_one_creature(i);
            proof {
                trace = trace.push(turn_state(*self));
            }
            i = i + 1;
        }
        let ghost done = turn_state(*self);
        let m = self.players.len();
        let mut i: usize = 0;
        while i < m
            invariant
                0 <= i <= m,
                self.wf(),
                self.time == old(self).time,
                self.ground.time == old(self).ground.time,
                self.ground.basemap == old(self).ground.basemap,
                m == self.players@.len(),
                m == old(self).players@.len(),
                turn_state(*self) == done,
                trace.len() == n + 1,
                n == old(self).creatures.entries_spec().len(),
                trace[0] == turn_state(*old(self)),
                trace[n as int] == done,
                seed == old(self).ground.seed_spec(),
                gt == old(self).ground.time.0 as int,
                forall|k: int|
                    0 <= k < n ==> #[trigger] creature_turn(
                        seed,
                        gt,
                        old(self).players@,
                        trace[k],
                        trace[k + 1],
                        k,
                    ),
                forall|j: int|
                    i <= j < m ==> self.players@[j] == old(self).players@[j],
                forall|j: int|
                    0 <= j < i ==> (#[trigger] self.players@[j]).0@ == old(self).players@[j].0@
                        && self.players@[j].1 == (Player {
                        plan: None,
                        ..old(self).players@[j].1
                    }),
            decreases m - i,
        {
            let ghost prev = self.players@;
            let id = PlayerId(self.players[i].0.0.clone());
            let player = self.players[i].1;
            let cleared = Player {
                plan: None,
                movement: player.movement,
                body: player.body,
                is_new: player.is_new,
                view_area: player.view_area,
            };
            proof {
                assert(view_area_wf((#[trigger] self.players@[i as int]).1.view_area));
            }
            self.players.set(i, (id, cleared));
            proof {
                assert forall|a: int, b: int|
                    0 <= a < b < self.players@.len() implies (#[trigger] self.players@[a]).0@
                    != (#[trigger] self.players@[b]).0@ by {
                    if a != i {
                        assert(self.players@[a] == prev[a]);
                    }
                    if b != i {
                        assert(self.players@[b] == prev[b]);
                    }
                    assert((#[trigger] prev[a]).0@ != (#[trigger] prev[b]).0@);
                }
                assert forall|a: int| 0 <= a < self.players@.len() implies view_area_wf(
                    (#[trigger] self.players@[a]).1.view_area,
                ) by {
                    if a != i {
                        assert(self.players@[a] == prev[a]);
                    }
                    assert(view_area_wf((#[trigger] prev[a]).1.view_area));
                }
            }
            i = i + 1;
        }
    }

    /// One creature's turn: clear its sounds, cool down or act.
    /// One creature's turn: clear its sounds, cool down or act;
    /// `creature_turn` states the outcome exactly.
    #[verifier::rlimit(100)]
    fn update_one_creature(&mut self, i: usize)
        requires
            old(self).wf(),
            i < old(self).creatures.entries_spec().len(),
        ensures
            final(self).wf(),
            final(self).time == old(self).time,
            final(self).ground.time == old(self).ground.time,
            final(self).ground.basemap == old(self).ground.basemap,
            final(self).players == old(self).players,
            final(self).creatures.entries_spec().len() == old(self).creatures.entries_spec().len(),
            creature_turn(
                old(self).ground.seed_spec(),
                old(self).ground.time.0 as int,
                old(self).players@,
                turn_state(*old(self)),
                turn_state(*final(self)),
                i as int,
            ),
    {
        let ghost seed = self.ground.seed_spec();
        let ghost gt = self.ground.time.0 as int;
        let ghost s1 = turn_state(*self);
        proof {
            assert(creature_wf((#[trigger] old(self).creatures.entries_spec()[i as int]).1));
        }
        let (key, mut creature) = self.creatures.remove_at(i);
        let ghost c = s1.creatures[i as int].1;
        creature.heard_sounds = Vec::new();
        if creature.cooldown.0 > 0 {
            creature.cooldown = crate::tickstamp::TickDuration(creature.cooldown.0 - 1);
            self.restore_creature(i, key, creature);
            proof {
                assert(final(self).creatures.entries_spec() =~= s1.creatures.update(
                    i as int,
                    (key, creature),
                ));
            }
            return ;
        }
        let (movement, plan) = match &creature.mind {
            Mind::Player(playerid) => {
                match self.find_player(&PlayerId(playerid.0.clone())) {
                    Some(at) => {
                        let p = self.players[at].1;
                        (p.movement, p.plan)
                    },
                    None => (None, Some(Control::Suicide)),
                }
            },
        };
        proof {
            let name = creature_name(c);
            assert(movement == (if has_player_id(old(self).players@, name) {
                old(self).players@[player_idx(old(self).players@, name)].1.movement
            } else {
                None::<Vec2>
            }));
        }
        if let Some(delta) = movement {
            if delta.x >= -crate::vec2::SUBTILE && delta.x <= crate::vec2::SUBTILE && delta.y
                >= -crate::vec2::SUBTILE && delta.y <= crate::vec2::SUBTILE {
                let step = delta.scaled_frac(creature.speed());
                let nx = creature.pos.x + step.x;
                let ny = creature.pos.y + step.y;
                if nx >= -0x03FF_FFFE_0000 && nx <= 0x03FF_FFFE_0000 && ny >= -0x03FF_FFFE_0000
                    && ny <= 0x03FF_FFFE_0000 {
                    let newpos = Vec2 { x: nx, y: ny };
                    if !self.box_blocked(newpos) {
                        creature.pos = newpos;
                    }
                }
            }
        }
        proof {
            assert(creature.pos == moved_pos(seed, gt, s1.changes, c.pos, movement));
        }
        match plan {
            Some(Control::Move(direction)) => {
                creature.cooldown = creature.walk_cooldown;
                let d = direction.to_position();
                let nx = creature.pos.x + (d.x as i64) * 0x8000;
                let ny = creature.pos.y + (d.y as i64) * 0x8000;
                if nx >= -0x03FF_FFFE_0000 && nx <= 0x03FF_FFFE_0000 && ny >= -0x03FF_FFFE_0000
                    && ny <= 0x03FF_FFFE_0000 {
                    creature.pos = Vec2 { x: nx, y: ny };
                }
            },
            Some(Control::Movement(_)) => (),
            Some(Control::Suicide) => {
                creature.kill();
            },
            Some(Control::Select(selector)) => {
                creature.inventory.select(selector);
            },
            Some(Control::MoveSelected(selector)) => {
                creature.inventory.move_selected(selector);
            },
            Some(Control::Interact(direction)) => {
                proof {
                    assert(sounds_view(creature.heard_sounds@) =~= Seq::<(
                        SoundType,
                        Seq<char>,
                    )>::empty());
                }
                self.interact_creature(&mut creature, direction);
            },
            None => (),
        }
        self.restore_creature(i, key, creature);
        proof {
            assert(final(self).creatures.entries_spec() =~= s1.creatures.update(
                i as int,
                (key, creature),
            ));
        }
    }

    /// Resolves one interaction intent for a creature standing in the world;
    /// `interact_effects` states the outcome exactly.
    #[verifier::rlimit(100)]
    fn interact_creature(&mut self, creature: &mut Creature, direction: Option<
        crate::pos::Direction,
    >)
        requires
            old(self).wf(),
            creature_wf(*old(creature)),
        ensures
            final(self).wf(),
            final(self).time == old(self).time,
            final(self).ground.time == old(self).ground.time,
            final(self).ground.basemap == old(self).ground.basemap,
            creature_wf(*final(creature)),
            final(self).creatures == old(self).creatures,
            final(self).players == old(self).players,
            final(creature).pos == old(creature).pos,
            final(creature).cooldown == old(creature).cooldown,
            final(creature).walk_cooldown == old(creature).walk_cooldown,
            final(creature).shape == old(creature).shape,
            final(creature).mind == old(creature).mind,
            final(creature).is_dead == old(creature).is_dead,
            final(creature).sprite == old(creature).sprite,
            interact_effects(
                old(self).ground.seed_spec(),
                old(self).ground.time.0 as int,
                creature_name(*old(creature)),
                old(creature).pos,
                old(creature).inventory.items@,
                old(creature).inventory.selector as int,
                sounds_view(old(creature).heard_sounds@),
                old(self).ground.changes@,
                old(self).ground.modifications@,
                old(self).claims@,
                final(creature).inventory.items@,
                final(creature).inventory.selector as int,
                sounds_view(final(creature).heard_sounds@),
                final(self).ground.changes@,
                final(self).ground.modifications@,
                final(self).claims@,
                direction,
            ),
    {
        let ghost seed = self.ground.seed_spec();
        let ghost gt = self.ground.time.0 as int;
        let ghost items0 = creature.inventory.items@;
        let ghost sel0 = creature.inventory.selector as int;
        let ghost sounds0 = sounds_view(creature.heard_sounds@);
        let ghost ch0 = self.ground.changes@;
        let ghost md0 = self.ground.modifications@;
        let ghost cl0 = self.claims@;
        let body_tile = creature.pos.round();
        let target = match direction {
            Some(dir) => {
                let d = dir.to_position();
                Pos { x: body_tile.x + d.x, y: body_tile.y + d.y }
            },
            None => body_tile,
        };
        proof {
            assert(target == interact_target(old(creature).pos, direction));
        }
        if !(target.x >= -0x0780_0000 && target.x <= 0x0780_0000 && target.y >= -0x0780_0000
            && target.y <= 0x0780_0000) {
            return ;
        }
        let tile = self.ground.cell(target);
        let item = creature.inventory.selected();
        let interaction = match tile.interact(item, self.ground.time) {
            Some(interaction) => interaction,
            None => {
                return ;
            },
        };
        let ghost m = interaction@;
        proof {
            assert(tile.interact_spec(item, Tickstamp(gt as i64)) == Some(m));
        }
        let playerid = match creature.player() {
            Some(id) => id,
            None => {
                proof {
                    assert(false);
                }
                return ;
            },
        };
        if interaction.claim {
            match self.claim_refusal(&playerid, target) {
                Some(msg) => {
                    creature.heard_sounds.push((SoundType::BuildError, msg.to_owned()));
                    proof {
                        assert(sounds_view(creature.heard_sounds@) =~= sounds0.push(
                            (SoundType::BuildError, claim_refusal_at(cl0, creature_name(*old(creature)), target)->0),
                        ));
                    }
                    return ;
                },
                None => {
                    self.claims.push((PlayerId(playerid.0.clone()), target));
                    proof {
                        assert(self.claims@.subrange(0, cl0.len() as int) =~= cl0);
                        assert(claims_pushed(cl0, self.claims@, creature_name(*old(creature)), target));
                        assert forall|a: int, b: int|
                            0 <= a < b < self.claims@.len() implies (
                        #[trigger] self.claims@[a]).0@ != (#[trigger] self.claims@[b]).0@ by {
                            if b < self.claims@.len() - 1 {
                                assert(self.claims@[a] == old(self).claims@[a]);
                                assert(self.claims@[b] == old(self).claims@[b]);
                            } else {
                                assert(self.claims@[a] == old(self).claims@[a]);
                                assert(!has_claim(old(self).claims@, playerid@));
                                assert((#[trigger] old(self).claims@[a]).0@ != playerid@);
                            }
                        }
                    }
                },
            }
        }
        let ghost cl1 = self.claims@;
        if interaction.build {
            match self.build_refusal(&playerid, target) {
                Some(msg) => {
                    creature.heard_sounds.push((SoundType::BuildError, msg.to_owned()));
                    proof {
                        assert(sounds_view(creature.heard_sounds@) =~= sounds0.push(
                            (SoundType::BuildError, build_refusal_at(cl1, creature_name(*old(creature)), target)->0),
                        ));
                    }
                    return ;
                },
                None => (),
            }
        }
        if !creature.inventory.pay(&interaction.cost) {
            creature.heard_sounds.push(
                (SoundType::BuildError, "Not enough resources".to_owned()),
            );
            proof {
                assert(sounds_view(creature.heard_sounds@) =~= sounds0.push(
                    (SoundType::BuildError, "Not enough resources"@),
                ));
            }
            return ;
        }
        let ghost paid = creature.inventory.items@;
        proof {
            assert(paid == crate::inventory::pay_result(items0, m.cost));
            assert(crate::inventory::add_items_spec(paid, m.items) == crate::inventory::add_items_spec(
                creature.inventory.items@,
                interaction.items@.skip(0),
            )) by {
                assert(interaction.items@.skip(0) =~= interaction.items@);
            }
        }
        let mut k: usize = 0;
        while k < interaction.items.len()
            invariant
                0 <= k <= interaction.items@.len(),
                creature.inventory.wf(),
                creature.inventory.items@.len() < 0x1000_0000,
                creature.inventory.selector == crate::inventory::clamp_selector(
                    sel0,
                    paid.len() as int,
                ),
                crate::inventory::add_items_spec(paid, interaction.items@)
                    == crate::inventory::add_items_spec(
                    creature.inventory.items@,
                    interaction.items@.skip(k as int),
                ),
                creature.pos == old(creature).pos,
                creature.cooldown == old(creature).cooldown,
                creature.walk_cooldown == old(creature).walk_cooldown,
                creature.shape == old(creature).shape,
                creature.mind == old(creature).mind,
                creature.is_dead == old(creature).is_dead,
                creature.sprite == old(creature).sprite,
                creature.heard_sounds@ == old(creature).heard_sounds@,
                v2_in_range(creature.pos),
            decreases interaction.items@.len() - k,
        {
            proof {
                assert(interaction.items@.skip(k as int)[0] == interaction.items@[k as int]);
                assert(interaction.items@.skip(k as int).drop_first() =~= interaction.items@.skip(
                    k as int + 1,
                ));
            }
            creature.inventory.add_capped(interaction.items[k]);
            k = k + 1;
        }
        proof {
            assert(interaction.items@.skip(interaction.items@.len() as int).len() == 0);
            assert(creature.inventory.items@ == crate::inventory::add_items_spec(paid, m.items));
        }
        if let Some(remains) = interaction.remains {
            self.ground.set_structure(target, remains);
        }
        let ghost ch_a = self.ground.changes@;
        if let Some(remains_ground) = interaction.remains_ground {
            self.ground.set_ground(target, remains_ground);
        }
        if let Some(message) = interaction.message {
            creature.heard_sounds.push(message);
        }
        proof {
            match m.message {
                Some(msg) => {
                    assert(sounds_view(creature.heard_sounds@) =~= sounds0 + seq![msg]);
                },
                None => {
                    assert(sounds_view(creature.heard_sounds@) =~= sounds0 + Seq::<(
                        SoundType,
                        Seq<char>,
                    )>::empty());
                },
            }
        }
    }

    /// Puts a creature back at its place in the store.
    fn restore_creature(&mut self, i: usize, key: CreatureId, creature: Creature)
        requires
            old(self).wf(),
            creature_wf(creature),
            i <= old(self).creatures.entries_spec().len(),
            !has_key(old(self).creatures.entries_spec(), key.key_spec()),
            key.key_spec() < old(self).creatures.next_key_spec(),
        ensures
            final(self).wf(),
            final(self).time == old(self).time,
            final(self).players == old(self).players,
            final(self).claims == old(self).claims,
            final(self).ground == old(self).ground,
            final(self).creatures.entries_spec() == old(self).creatures.entries_spec().insert(
                i as int,
                (key, creature),
            ),
            final(self).creatures.entries_spec().len() == old(self).creatures.entries_spec().len() + 1,
    {
        self.creatures.insert_at(i, key, creature);
        proof {
            assert forall|a: int|
                0 <= a < self.creatures.entries_spec().len() implies creature_wf(
                (#[trigger] self.creatures.entries_spec()[a]).1,
            ) by {
                if a != i {
                    let oa = if a < i {
                        a
                    } else {
                        a - 1
                    };
                    assert(self.creatures.entries_spec()[a] == old(self).creatures.entries_spec()[oa]);
                    assert(creature_wf((#[trigger] old(self).creatures.entries_spec()[oa]).1));
                }
            }
        }
    }
}

/// Whether the body still stands clear of its viewport's margins; when it
/// does not, a new viewport is anchored.
pub open spec fn in_view_range_spec(body: Vec2, view_area: Option<Area>) -> bool {
    match view_area {
        Some(area) => {
            &&& body.floor_spec().x > area.min_spec().x + EDGE_OFFSET
            &&& body.ceil_spec().x < area.min_spec().x + area.size_spec().x - EDGE_OFFSET
            &&& body.floor_spec().y > area.min_spec().y + EDGE_OFFSET
            &&& body.ceil_spec().y < area.min_spec().y + area.size_spec().y - EDGE_OFFSET
        },
        None => false,
    }
}

/// An inventory message showing exactly this inventory: the two affordance
/// slots, then every stack by name and count, and the selector.
pub open spec fn inventory_message_ok(
    m: &crate::worldmessages::InventoryMessage,
    inv: &Inventory,
) -> bool {
    &&& m.1 == inv.selector
    &&& m.0@.len() == inv.items@.len() + 2
    &&& m.0@[0].0@ == crate::item::Item::Eyes.name_spec() && m.0@[0].1 == 1
    &&& m.0@[1].0@ == crate::item::Item::Hands.name_spec() && m.0@[1].1 == 1
    &&& forall|k: int|
        0 <= k < inv.items@.len() ==> (#[trigger] m.0@[k + 2]).0@ == inv.items@[k].0.name_spec()
            && m.0@[k + 2].1 == inv.items@[k].1
}

/// The deep content of a sound list.
pub open spec fn sounds_view(s: Seq<(SoundType, String)>) -> Seq<(SoundType, Seq<char>)> {
    s.map_values(|e: (SoundType, String)| (e.0, e.1@))
}

/// The creature snapshots of the players' bodies, in player order; players
/// without a body contribute nothing.
pub open spec fn dynamics_view(
    players: Seq<(PlayerId, Player)>,
    creatures: Seq<(CreatureId, Creature)>,
) -> Seq<CreatureView>
    decreases players.len(),
{
    if players.len() == 0 {
        Seq::empty()
    } else {
        let rest = dynamics_view(players.drop_last(), creatures);
        let body = players.last().1.body;
        if has_key(creatures, body.key_spec()) {
            let c = creatures[key_idx(creatures, body.key_spec())].1;
            rest.push(CreatureView { sprite: c.sprite, pos: c.pos })
        } else {
            rest
        }
    }
}

/// The content of a section against the tiles it redraws: one field entry
/// per tile, each pointing at a palette stack equal to its tile's sprites.
pub open spec fn section_content_ok(sec: &SectionMessage, tiles: Seq<Tile>) -> bool {
    &&& sec.field@.len() == tiles.len()
    &&& forall|q: int|
        0 <= q < sec.field@.len() ==> (#[trigger] sec.field@[q]) < sec.mapping@.len()
            && sec.mapping@[sec.field@[q] as int]@ == tiles[q].sprites_spec()
}

/// The tiles of `area` as the catch-up pass leaves them, starting from the
/// overlay state `st`: the tile at point `q` is resolved once the first
/// `q + 1` points have been ticked.
pub open spec fn strip_tiles(
    seed: u32,
    t: int,
    st: (crate::map::ChangeSeq, Seq<Pos>),
    area: Area,
) -> Seq<Tile> {
    Seq::new(
        crate::map::area_points(area).len(),
        |q: int|
            cell_of(
                seed,
                t,
                crate::map::tick_prefix(seed, t, st, crate::map::area_points(area), q + 1).0,
                crate::map::area_points(area)[q],
            ),
    )
}

/// One player's step of the view pass over the map overlay: a player whose
/// body left its viewport's margin has the redraw strip caught up (`tick_all`
/// over its points, from overlay state `s1` to `s2`) and a section drawn from
/// exactly those tiles; any other player leaves the overlay alone.
pub open spec fn view_ground_step(
    seed: u32,
    t: int,
    players: Seq<(PlayerId, Player)>,
    creatures: Seq<(CreatureId, Creature)>,
    s1: (crate::map::ChangeSeq, Seq<Pos>),
    s2: (crate::map::ChangeSeq, Seq<Pos>),
    msg: WorldMessage,
    k: int,
) -> bool {
    let p = players[k];
    if has_key(creatures, p.1.body.key_spec()) {
        let c = creatures[key_idx(creatures, p.1.body.key_spec())].1;
        if !in_view_range_spec(c.pos, p.1.view_area) {
            let strip = new_view_area_spec(c.pos.round_spec(), p.1.view_area).1;
            &&& s2 == tick_all(seed, t, s1, crate::map::area_points(strip))
            &&& (msg.section matches Some(sec) && section_content_ok(
                &sec,
                strip_tiles(seed, t, s1, strip),
            ))
        } else {
            s2 == s1
        }
    } else {
        s2 == s1
    }
}

/// One player's view message, checked against its sources: the body's
/// position and inventory, this tick's change list, the shared creature
/// snapshots, the heard sounds exactly when there are any, and — exactly
/// when the body has left its viewport's margin — the re-anchored viewport
/// with one decodable section covering the strip `new_view_area_spec` names.
pub open spec fn view_message_ok(
    msg: &WorldMessage,
    c: Creature,
    p: Player,
    change: Seq<(Pos, Seq<Sprite>)>,
    dynamics: Seq<CreatureView>,
) -> bool {
    &&& msg.pos == Some(c.pos)
    &&& (match msg.change {
        Some(ch) => crate::worldmessages::change_view(ch@) == change,
        None => false,
    })
    &&& (match msg.inventory {
        Some(m) => inventory_message_ok(&m, &c.inventory),
        None => false,
    })
    &&& (match msg.dynamics {
        Some(d) => d@ == dynamics,
        None => false,
    })
    &&& (match msg.sounds {
        Some(snd) => c.heard_sounds@.len() > 0 && sounds_view(snd@) == sounds_view(
            c.heard_sounds@,
        ),
        None => c.heard_sounds@.len() == 0,
    })
    &&& (msg.viewarea is Some <==> !in_view_range_spec(c.pos, p.view_area))
    &&& (msg.section is Some <==> !in_view_range_spec(c.pos, p.view_area))
    &&& (!in_view_range_spec(c.pos, p.view_area) ==> ({
        let na = new_view_area_spec(c.pos.round_spec(), p.view_area);
        &&& (msg.viewarea matches Some(v) && v.area == na.0)
        &&& (msg.section matches Some(sec) && sec.area == na.1 && sec.field@.len()
            == crate::map::area_points(na.1).len() && (forall|q: int|
            0 <= q < sec.field@.len() ==> (#[trigger] sec.field@[q]) < sec.mapping@.len()))
    }))
}

/// The viewport to anchor for a body at `body_pos`, and the strip of it that
/// was not visible before and must be redrawn: sliding along one axis keeps
/// the overlap and redraws only the newly exposed band; without a previous
/// viewport, or after a teleport beyond it, the whole new viewport is
/// redrawn.
pub open spec fn new_view_area_spec(body_pos: Pos, view_area: Option<Area>) -> (Area, Area) {
    let core = Area {
        min: Pos { x: (body_pos.x - 64) as i32, y: (body_pos.y - 64) as i32 },
        size: Pos { x: 128i32, y: 128i32 },
    };
    match view_area {
        None => (core, core),
        Some(old_area) => {
            let omin = old_area.min_spec();
            let osize = old_area.size_spec();
            if !core.overlaps_spec(&old_area) {
                (core, core)
            } else if body_pos.x <= omin.x + EDGE_OFFSET {
                let new_min = Pos { x: (body_pos.x - 64) as i32, y: omin.y };
                (
                    Area { min: new_min, size: Pos { x: 128i32, y: 128i32 } },
                    Area {
                        min: new_min,
                        size: Pos {
                            x: (omin.x - new_min.x) as i32,
                            y: 128i32,
                        },
                    },
                )
            } else if body_pos.y <= omin.y + EDGE_OFFSET {
                let new_min = Pos { x: omin.x, y: (body_pos.y - 64) as i32 };
                (
                    Area { min: new_min, size: Pos { x: 128i32, y: 128i32 } },
                    Area {
                        min: new_min,
                        size: Pos {
                            x: 128i32,
                            y: (omin.y - new_min.y) as i32,
                        },
                    },
                )
            } else if body_pos.x >= omin.x + osize.x - EDGE_OFFSET {
                let new_min = Pos { x: (body_pos.x - 64) as i32, y: omin.y };
                (
                    Area { min: new_min, size: Pos { x: 128i32, y: 128i32 } },
                    Area {
                        min: Pos { x: (omin.x + osize.x) as i32, y: omin.y },
                        size: Pos {
                            x: (new_min.x + 128 - omin.x - osize.x) as i32,
                            y: 128i32,
                        },
                    },
                )
            } else if body_pos.y >= omin.y + osize.y - EDGE_OFFSET {
                let new_min = Pos { x: omin.x, y: (body_pos.y - 64) as i32 };
                (
                    Area { min: new_min, size: Pos { x: 128i32, y: 128i32 } },
                    Area {
                        min: Pos { x: omin.x, y: (omin.y + osize.y) as i32 },
                        size: Pos {
                            x: 128i32,
                            y: (new_min.y + 128 - omin.y - osize.y) as i32,
                        },
                    },
                )
            } else {
                (core, core)
            }
        },
    }
}

/// The redraw strip stays inside the new viewport and covers everything the
/// old viewport did not show; and whenever it is a proper strip — the slide
/// of an overlapping viewport along one axis — it holds exactly the points of
/// the new viewport outside the old one.
pub proof fn lemma_redraw_strip_minimal(body_pos: Pos, view_area: Option<Area>, p: Pos)
    requires
        -0x0400_0040 <= body_pos.x <= 0x0400_0040,
        -0x0400_0040 <= body_pos.y <= 0x0400_0040,
        view_area_wf(view_area),
    ensures
        ({
            let (total, strip) = new_view_area_spec(body_pos, view_area);
            match view_area {
                None => strip == total,
                Some(a) => {
                    &&& (strip.contains_spec(p) ==> total.contains_spec(p))
                    &&& ((total.contains_spec(p) && !a.contains_spec(p))
                        ==> strip.contains_spec(p))
                    &&& (strip != total ==> (strip.contains_spec(p) <==> (total.contains_spec(p)
                        && !a.contains_spec(p))))
                },
            }
        }),
{
}

impl World {
    /// Anchors the viewport for a body at `body_pos` and names the strip to
    /// redraw.
    pub fn new_view_area(body_pos: Pos, view_area: &Option<Area>) -> (r: (Area, Area))
        requires
            -0x0400_0040 <= body_pos.x <= 0x0400_0040,
            -0x0400_0040 <= body_pos.y <= 0x0400_0040,
            view_area_wf(*view_area),
        ensures
            r == new_view_area_spec(body_pos, *view_area),
            view_area_wf(Some(r.0)),
            area_in_map_range(r.1),
    {
        let core = Area::new(Pos { x: body_pos.x - 64, y: body_pos.y - 64 }, Pos {
            x: 128,
            y: 128,
        });
        let old_area = match view_area {
            Some(a) => *a,
            None => {
                return (core, core);
            },
        };
        let omin = old_area.min();
        let osize = old_area.size();
        if !core.overlaps(&old_area) {
            (core, core)
        } else if body_pos.x <= omin.x + EDGE_OFFSET {
            let new_min = Pos { x: body_pos.x - 64, y: omin.y };
            (
                Area::new(new_min, Pos { x: 128, y: 128 }),
                Area::new(new_min, Pos { x: omin.x - new_min.x, y: 128 }),
            )
        } else if body_pos.y <= omin.y + EDGE_OFFSET {
            let new_min = Pos { x: omin.x, y: body_pos.y - 64 };
            (
                Area::new(new_min, Pos { x: 128, y: 128 }),
                Area::new(new_min, Pos { x: 128, y: omin.y - new_min.y }),
            )
        } else if body_pos.x >= omin.x + osize.x - EDGE_OFFSET {
            let new_min = Pos { x: body_pos.x - 64, y: omin.y };
            (
                Area::new(new_min, Pos { x: 128, y: 128 }),
                Area::new(
                    Pos { x: omin.x + osize.x, y: omin.y },
                    Pos { x: new_min.x + 128 - omin.x - osize.x, y: 128 },
                ),
            )
        } else if body_pos.y >= omin.y + osize.y - EDGE_OFFSET {
            let new_min = Pos { x: omin.x, y: body_pos.y - 64 };
            (
                Area::new(new_min, Pos { x: 128, y: 128 }),
                Area::new(
                    Pos { x: omin.x, y: omin.y + osize.y },
                    Pos { x: 128, y: new_min.y + 128 - omin.y - osize.y },
                ),
            )
        } else {
            (core, core)
        }
    }

    /// This tick's change message: every dirtied position with the sprite
    /// stack standing on it.
    pub open spec fn modified_view(&self) -> Seq<(Pos, Seq<Sprite>)> {
        Seq::new(
            self.ground.modifications@.len(),
            |k: int|
                (
                    self.ground.modifications@[k],
                    cell_of(
                        self.ground.seed_spec(),
                        self.ground.time.0 as int,
                        self.ground.changes@,
                        self.ground.modifications@[k],
                    ).sprites_spec(),
                ),
        )
    }

    /// Builds this tick's view message for every player: the body position,
    /// the dirtied cells, the inventory, the heard sounds when there are
    /// any, the visible creatures, and — exactly when the body has crossed
    /// its viewport's margin or has no viewport yet — one freshly anchored
    /// viewport with one section covering the newly exposed strip. The dirty
    /// set is flushed afterwards.
    #[verifier::rlimit(100)]
    pub fn view(&mut self) -> (r: Vec<(PlayerId, WorldMessage)>)
        requires
            old(self).wf(),
        ensures
            final(self).wf(),
            final(self).time == old(self).time,
            final(self).creatures == old(self).creatures,
            final(self).claims == old(self).claims,
            final(self).ground.modifications@.len() == 0,
            final(self).ground.time == old(self).ground.time,
            final(self).ground.basemap == old(self).ground.basemap,
            final(self).players@.len() == old(self).players@.len(),
            r@.len() == old(self).players@.len(),
            exists|gs: Seq<(crate::map::ChangeSeq, Seq<Pos>)>|
                #![trigger gs.len()]
                {
                    &&& gs.len() == old(self).players@.len() + 1
                    &&& gs[0] == (old(self).ground.changes@, old(self).ground.modifications@)
                    &&& final(self).ground.changes@ == gs[gs.len() - 1].0
                    &&& forall|k: int|
                        0 <= k < old(self).players@.len() ==> #[trigger] view_ground_step(
                            old(self).ground.seed_spec(),
                            old(self).ground.time.0 as int,
                            old(self).players@,
                            old(self).creatures.entries_spec(),
                            gs[k],
                            gs[k + 1],
                            r@[k].1,
                            k,
                        )
                },
            forall|k: int|
                0 <= k < r@.len() ==> {
                    let p = old(self).players@[k];
                    &&& (#[trigger] r@[k]).0@ == p.0@
                    &&& final(self).players@[k].0@ == p.0@
                    &&& (if has_key(old(self).creatures.entries_spec(), p.1.body.key_spec()) {
                        let c = old(self).creatures.entries_spec()[key_idx(
                            old(self).creatures.entries_spec(),
                            p.1.body.key_spec(),
                        )].1;
                        &&& view_message_ok(
                            &r@[k].1,
                            c,
                            p.1,
                            old(self).modified_view(),
                            dynamics_view(
                                old(self).players@,
                                old(self).creatures.entries_spec(),
                            ),
                        )
                        &&& final(self).players@[k].1 == (if !in_view_range_spec(
                            c.pos,
                            p.1.view_area,
                        ) {
                            Player {
                                view_area: Some(
                                    new_view_area_spec(c.pos.round_spec(), p.1.view_area).0,
                                ),
                                ..p.1
                            }
                        } else {
                            p.1
                        })
                    } else {
                        &&& r@[k].1.pos is None
                        &&& r@[k].1.change is None
                        &&& r@[k].1.inventory is None
                        &&& r@[k].1.sounds is None
                        &&& r@[k].1.viewarea is None
                        &&& r@[k].1.section is None
                        &&& r@[k].1.dynamics is None
                        &&& final(self).players@[k].1 == p.1
                    })
                },
    {
        let ghost gchange = old(self).modified_view();
        let ghost gplayers = old(self).players@;
        let ghost gcreatures = old(self).creatures.entries_spec();
        let ghost gdyn = dynamics_view(gplayers, gcreatures);
        let ghost gseed = old(self).ground.seed_spec();
        let ghost gt = old(self).ground.time.0 as int;
        let ghost mut gs: Seq<(crate::map::ChangeSeq, Seq<Pos>)> = seq![
            (old(self).ground.changes@, old(self).ground.modifications@),
        ];
        let changes = self.ground.modified();
        proof {
            assert(crate::worldmessages::change_view(changes@) =~= gchange);
        }
        let mut dynamics: Vec<CreatureView> = Vec::new();
        let mut i: usize = 0;
        proof {
            assert(gplayers.take(0) =~= Seq::<(PlayerId, Player)>::empty());
        }
        while i < self.players.len()
            invariant
                0 <= i <= self.players@.len(),
                self.wf(),
                *self == *old(self),
                gplayers == self.players@,
                gcreatures == self.creatures.entries_spec(),
                dynamics@ == dynamics_view(gplayers.take(i as int), gcreatures),
            decreases self.players@.len() - i,
        {
            let body = self.players[i].1.body;
            proof {
                assert(gplayers.take(i as int + 1).drop_last() =~= gplayers.take(i as int));
                assert(gplayers.take(i as int + 1).last() == gplayers[i as int]);
            }
            match self.creatures.get(&body) {
                Some(creature) => {
                    dynamics.push(creature.view());
                },
                None => (),
            }
            i = i + 1;
        }
        proof {
            assert(gplayers.take(gplayers.len() as int) =~= gplayers);
            assert(dynamics@ == gdyn);
        }
        let mut views: Vec<(PlayerId, WorldMessage)> = Vec::new();
        let n = self.players.len();
        let mut i: usize = 0;
        while i < n
            invariant
                0 <= i <= n,
                self.wf(),
                self.time == old(self).time,
                self.creatures == old(self).creatures,
                self.claims == old(self).claims,
                self.ground.time == old(self).ground.time,
                self.ground.basemap == old(self).ground.basemap,
                n == self.players@.len(),
                self.players@.len() == gplayers.len(),
                gplayers == old(self).players@,
                gcreatures == old(self).creatures.entries_spec(),
                gchange == old(self).modified_view(),
                gdyn == dynamics_view(gplayers, gcreatures),
                crate::worldmessages::change_view(changes@) == gchange,
                dynamics@ == gdyn,
                views@.len() == i,
                gseed == old(self).ground.seed_spec(),
                gt == old(self).ground.time.0 as int,
                self.ground.seed_spec() == gseed,
                gs.len() == i + 1,
                gs[0] == (old(self).ground.changes@, old(self).ground.modifications@),
                gs[i as int] == (self.ground.changes@, self.ground.modifications@),
                forall|k: int|
                    0 <= k < i ==> #[trigger] view_ground_step(
                        gseed,
                        gt,
                        gplayers,
                        gcreatures,
                        gs[k],
                        gs[k + 1],
                        views@[k].1,
                        k,
                    ),
                forall|k: int| i <= k < n ==> self.players@[k] == gplayers[k],
                forall|k: int|
                    0 <= k < i ==> {
                        let p = gplayers[k];
                        &&& (#[trigger] views@[k]).0@ == p.0@
                        &&& self.players@[k].0@ == p.0@
                        &&& (if has_key(gcreatures, p.1.body.key_spec()) {
                            let c = gcreatures[key_idx(gcreatures, p.1.body.key_spec())].1;
                            &&& view_message_ok(&views@[k].1, c, p.1, gchange, gdyn)
                            &&& self.players@[k].1 == (if !in_view_range_spec(
                                c.pos,
                                p.1.view_area,
                            ) {
                                Player {
                                    view_area: Some(
                                        new_view_area_spec(c.pos.round_spec(), p.1.view_area).0,
                                    ),
                                    ..p.1
                                }
                            } else {
                                p.1
                            })
                        } else {
                            &&& views@[k].1.pos is None
                            &&& views@[k].1.change is None
                            &&& views@[k].1.inventory is None
                            &&& views@[k].1.sounds is None
                            &&& views@[k].1.viewarea is None
                            &&& views@[k].1.section is None
                            &&& views@[k].1.dynamics is None
                            &&& self.players@[k].1 == p.1
                        })
                    },
            decreases n - i,
        {
            let ghost prev_players = self.players@;
            let id = PlayerId(self.players[i].0.0.clone());
            let player = self.players[i].1;
            proof {
                assert(self.players@[i as int] == gplayers[i as int]);
            }
            let mut wm = WorldMessage::empty();
            match self.creatures.get(&player.body) {
                Some(creature) => {
                    proof {
                        crate::holder::lemma_key_idx_valid(
                            self.creatures.entries_spec(),
                            player.body.key_spec(),
                        );
                        assert(creature_wf(
                            (#[trigger] self.creatures.entries_spec()[crate::holder::key_idx(
                                self.creatures.entries_spec(),
                                player.body.key_spec(),
                            )]).1,
                        ));
                    }
                    let body_pos = creature.pos;
                    let body_sounds = copy_sounds(&creature.heard_sounds);
                    let inventory_view = creature.inventory.view_message();
                    proof {
                        assert(view_area_wf((#[trigger] self.players@[i as int]).1.view_area));
                    }
                    let in_range = match player.view_area() {
                        Some(area) => {
                            let fl = body_pos.floor();
                            let ce = body_pos.ceil();
                            let amin = area.min();
                            let asize = area.size();
                            fl.x > amin.x + EDGE_OFFSET && ce.x < amin.x + asize.x - EDGE_OFFSET
                                && fl.y > amin.y + EDGE_OFFSET && ce.y < amin.y + asize.y
                                - EDGE_OFFSET
                        },
                        None => false,
                    };
                    proof {
                        assert(in_range == in_view_range_spec(creature.pos, player.view_area));
                    }
                    if !in_range {
                        let rounded = body_pos.round();
                        let (total_area, redraw_area) = World::new_view_area(
                            rounded,
                            &player.view_area,
                        );
                        let updated = Player {
                            plan: player.plan,
                            movement: player.movement,
                            body: player.body,
                            is_new: player.is_new,
                            view_area: Some(total_area),
                        };
                        self.players.set(i, (PlayerId(id.0.clone()), updated));
                        proof {
                            assert forall|a: int, b: int|
                                0 <= a < b < self.players@.len() implies (
                            #[trigger] self.players@[a]).0@ != (
                            #[trigger] self.players@[b]).0@ by {
                                if a != i {
                                    assert(self.players@[a] == prev_players[a]);
                                }
                                if b != i {
                                    assert(self.players@[b] == prev_players[b]);
                                }
                                assert((#[trigger] prev_players[a]).0@ != (
                                #[trigger] prev_players[b]).0@);
                            }
                            assert forall|a: int|
                                0 <= a < self.players@.len() implies view_area_wf(
                                (#[trigger] self.players@[a]).1.view_area,
                            ) by {
                                if a != i {
                                    assert(self.players@[a] == prev_players[a]);
                                }
                                assert(view_area_wf((#[trigger] prev_players[a]).1.view_area));
                            }
                        }
                        let tiles = self.ground.load_area(redraw_area);
                        wm.viewarea = Some(ViewAreaMessage { area: total_area });
                        wm.section = Some(draw_field(redraw_area, &tiles));
                        proof {
                            let prev = gs[i as int];
                            let pts = crate::map::area_points(redraw_area);
                            assert((self.ground.changes@, self.ground.modifications@) == tick_all(
                                gseed,
                                gt,
                                prev,
                                pts,
                            ));
                            let st = strip_tiles(gseed, gt, prev, redraw_area);
                            assert(forall|q: int|
                                0 <= q < st.len() ==> #[trigger] st[q] == tiles@[q].1);
                            match wm.section {
                                Some(ref sec) => {
                                    assert forall|q: int|
                                        0 <= q < sec.field@.len() implies (
                                    #[trigger] sec.field@[q]) < sec.mapping@.len() && sec.mapping@[
                                    sec.field@[q] as int]@ == st[q].sprites_spec() by {
                                        assert(sec.mapping@[sec.field@[q] as int]@
                                            =~= tiles@[q].1.sprites_spec());
                                    }
                                    assert(section_content_ok(sec, st));
                                },
                                None => {
                                    assert(false);
                                },
                            }
                            gs = gs.push((self.ground.changes@, self.ground.modifications@));
                        }
                    }
                    wm.change = Some(copy_changes(&changes));
                    wm.pos = Some(body_pos);
                    wm.dynamics = Some(copy_dynamics(&dynamics));
                    wm.inventory = Some(inventory_view);
                    if body_sounds.len() > 0 {
                        wm.sounds = Some(body_sounds);
                    }
                    proof {
                        let p = gplayers[i as int];
                        let c = gcreatures[key_idx(gcreatures, p.1.body.key_spec())].1;
                        assert(c == creature);
                        match wm.change {
                            Some(ref ch) => {
                                assert(crate::worldmessages::change_view(ch@) =~= gchange);
                            },
                            None => {
                                assert(false);
                            },
                        }
                        match wm.sounds {
                            Some(ref snd) => {
                                assert(sounds_view(snd@) =~= sounds_view(c.heard_sounds@));
                            },
                            None => (),
                        }
                        assert(view_message_ok(&wm, c, p.1, gchange, gdyn));
                        if in_range {
                            gs = gs.push(gs[i as int]);
                        }
                        assert(view_ground_step(
                            gseed,
                            gt,
                            gplayers,
                            gcreatures,
                            gs[i as int],
                            gs[i as int + 1],
                            wm,
                            i as int,
                        ));
                    }
                },
                None => {
                    proof {
                        gs = gs.push(gs[i as int]);
                        assert(view_ground_step(
                            gseed,
                            gt,
                            gplayers,
                            gcreatures,
                            gs[i as int],
                            gs[i as int + 1],
                            wm,
                            i as int,
                        ));
                    }
                },
            }
            views.push((id, wm));
            i = i + 1;
        }
        self.ground.flush();
        views
    }
}

/// A copy of a sound list.
fn copy_sounds(s: &Vec<(SoundType, String)>) -> (r: Vec<(SoundType, String)>)
    ensures
        r@.len() == s@.len(),
        forall|i: int|
            0 <= i < s@.len() ==> (#[trigger] r@[i]).0 == s@[i].0 && r@[i].1@ == s@[i].1@,
{
    let mut out: Vec<(SoundType, String)> = Vec::new();
    let mut i: usize = 0;
    while i < s.len()
        invariant
            0 <= i <= s@.len(),
            out@.len() == i,
            forall|j: int|
                0 <= j < i ==> (#[trigger] out@[j]).0 == s@[j].0 && out@[j].1@ == s@[j].1@,
        decreases s@.len() - i,
    {
        let entry = &s[i];
        out.push((entry.0, entry.1.clone()));
        i = i + 1;
    }
    out
}

/// A copy of a change list.
fn copy_changes(s: &Vec<(Pos, Vec<Sprite>)>) -> (r: Vec<(Pos, Vec<Sprite>)>)
    ensures
        r@.len() == s@.len(),
        forall|i: int|
            0 <= i < s@.len() ==> (#[trigger] r@[i]).0 == s@[i].0 && r@[i].1@ == s@[i].1@,
{
    let mut out: Vec<(Pos, Vec<Sprite>)> = Vec::new();
    let mut i: usize = 0;
    while i < s.len()
        invariant
            0 <= i <= s@.len(),
            out@.len() == i,
            forall|j: int|
                0 <= j < i ==> (#[trigger] out@[j]).0 == s@[j].0 && out@[j].1@ == s@[j].1@,
        decreases s@.len() - i,
    {
        let entry = &s[i];
        out.push((entry.0, copy_sprites(&entry.1)));
        i = i + 1;
    }
    out
}

/// A copy of a sprite stack.
fn copy_sprites(s: &Vec<Sprite>) -> (r: Vec<Sprite>)
    ensures
        r@ == s@,
{
    let mut out: Vec<Sprite> = Vec::new();
    let mut i: usize = 0;
    while i < s.len()
        invariant
            0 <= i <= s@.len(),
            out@ == s@.subrange(0, i as int),
        decreases s@.len() - i,
    {
        out.push(s[i]);
        i = i + 1;
    }
    proof {
        assert(out@ =~= s@);
    }
    out
}

/// A copy of the visible-creature list.
fn copy_dynamics(s: &Vec<CreatureView>) -> (r: Vec<CreatureView>)
    ensures
        r@ == s@,
{
    let mut out: Vec<CreatureView> = Vec::new();
    let mut i: usize = 0;
    while i < s.len()
        invariant
            0 <= i <= s@.len(),
            out@ == s@.subrange(0, i as int),
        decreases s@.len() - i,
    {
        out.push(s[i]);
        i = i + 1;
    }
    proof {
        assert(out@ =~= s@);
    }
    out
}

/// Whether two sprite stacks are the same.
fn sprites_eq(a: &Vec<Sprite>, b: &Vec<Sprite>) -> (r: bool)
    ensures
        r == (a@ == b@),
{
    if a.len() != b.len() {
        proof {
            assert(a@ != b@);
        }
        return false;
    }
    let mut i: usize = 0;
    while i < a.len()
        invariant
            0 <= i <= a@.len(),
            a@.len() == b@.len(),
            forall|j: int| 0 <= j < i ==> a@[j] == b@[j],
        decreases a@.len() - i,
    {
        if !(a[i] == b[i]) {
            proof {
                assert(a@[i as int] != b@[i as int]);
            }
            return false;
        }
        i = i + 1;
    }
    proof {
        assert(a@ =~= b@);
    }
    true
}

/// Packs freshly visible tiles as a section: the sprite stacks are collected
/// into a palette that lists each distinct stack once, and each tile points
/// at its palette entry.
pub fn draw_field(area: Area, tiles: &Vec<(Pos, Tile)>) -> (r: SectionMessage)
    ensures
        r.area == area,
        r.field@.len() == tiles@.len(),
        forall|k: int|
            0 <= k < r.field@.len() ==> (#[trigger] r.field@[k]) < r.mapping@.len()
                && r.mapping@[r.field@[k] as int]@ =~= tiles@[k].1.sprites_spec(),
        forall|u: int, v: int|
            #![trigger r.mapping@[u], r.mapping@[v]]
            0 <= u < v < r.mapping@.len() ==> r.mapping@[u]@ != r.mapping@[v]@,
{
    let mut field: Vec<usize> = Vec::new();
    let mut mapping: Vec<Vec<Sprite>> = Vec::new();
    let mut i: usize = 0;
    while i < tiles.len()
        invariant
            0 <= i <= tiles@.len(),
            field@.len() == i,
            forall|k: int|
                0 <= k < i ==> (#[trigger] field@[k]) < mapping@.len() && mapping@[field@[k]
                    as int]@ =~= tiles@[k].1.sprites_spec(),
            forall|u: int, v: int|
                #![trigger mapping@[u], mapping@[v]]
                0 <= u < v < mapping@.len() ==> mapping@[u]@ != mapping@[v]@,
        decreases tiles@.len() - i,
    {
        let sprites = tiles[i].1.sprites();
        let mut found: Option<usize> = None;
        let mut j: usize = 0;
        while j < mapping.len()
            invariant
                0 <= j <= mapping@.len(),
                match found {
                    Some(at) => at < mapping@.len() && mapping@[at as int]@ == sprites@,
                    None => forall|t: int| 0 <= t < j ==> (#[trigger] mapping@[t])@ != sprites@,
                },
            decreases mapping@.len() - j,
        {
            if found.is_none() && sprites_eq(&mapping[j], &sprites) {
                found = Some(j);
            }
            j = j + 1;
        }
        let ghost prev_mapping = mapping@;
        let index: usize = match found {
            Some(at) => at,
            None => {
                mapping.push(sprites);
                mapping.len() - 1
            },
        };
        proof {
            assert(mapping@[index as int]@ =~= tiles@[i as int].1.sprites_spec());
            assert(forall|k: int|
                0 <= k < field@.len() ==> (#[trigger] field@[k]) < mapping@.len() && mapping@[
                field@[k] as int]@ =~= tiles@[k].1.sprites_spec());
            if found is None {
                assert(forall|t: int|
                    0 <= t < prev_mapping.len() ==> (#[trigger] mapping@[t]) == prev_mapping[t]);
            }
        }
        field.push(index);
        i = i + 1;
    }
    SectionMessage { field, mapping, area }
}

/// A player save the world accepts: an in-range position and an inventory
/// with room to grow.
pub open spec fn save_wf(saved: &PlayerSave) -> bool {
    &&& v2_in_range(saved.pos)
    &&& saved.inventory@.len() < 0x1000_0000
}

/// A creature the world accepts: an in-range position, a unit collision box
/// anchored at its position, a well-formed inventory and a settled cooldown.
pub open spec fn creature_wf(c: Creature) -> bool {
    &&& v2_in_range(c.pos)
    &&& c.shape.origin == (Vec2 { x: 0i64, y: 0i64 })
    &&& c.shape.size == (Vec2 { x: crate::vec2::SUBTILE, y: crate::vec2::SUBTILE })
    &&& 0 <= c.cooldown.0 < 0x1000_0000
    &&& 0 <= c.walk_cooldown.0 < 0x1000_0000
    &&& c.inventory.wf()
    &&& c.inventory.items@.len() < 0x1000_0000
}

/// A viewport the world accepts: it fits the overlay's coordinate space.
pub open spec fn view_area_wf(a: Option<Area>) -> bool {
    match a {
        Some(area) => area_in_map_range(area) && area.size_spec().x == VIEW_AREA_SIZE
            && area.size_spec().y == VIEW_AREA_SIZE,
        None => true,
    }
}

/// When entry `i` carries `id` and no earlier entry does, `i` is the first.
pub proof fn lemma_player_idx(s: Seq<(PlayerId, Player)>, id: Seq<char>, i: int)
    requires
        0 <= i < s.len(),
        s[i].0@ == id,
        forall|j: int| 0 <= j < i ==> (#[trigger] s[j]).0@ != id,
    ensures
        player_idx(s, id) == i,
    decreases s.len(),
{
    if s[0].0@ == id {
        assert(i == 0);
    } else {
        assert(s.drop_first()[i - 1] == s[i]);
        assert(forall|j: int| 0 <= j < i - 1 ==> (#[trigger] s.drop_first()[j]) == s[j + 1]);
        lemma_player_idx(s.drop_first(), id, i - 1);
    }
}

/// When entry `i` carries `id` and no earlier entry does, `i` is the first.
pub proof fn lemma_claim_idx(s: Seq<(PlayerId, Pos)>, id: Seq<char>, i: int)
    requires
        0 <= i < s.len(),
        s[i].0@ == id,
        forall|j: int| 0 <= j < i ==> (#[trigger] s[j]).0@ != id,
    ensures
        claim_idx(s, id) == i,
    decreases s.len(),
{
    if s[0].0@ == id {
        assert(i == 0);
    } else {
        assert(s.drop_first()[i - 1] == s[i]);
        assert(forall|j: int| 0 <= j < i - 1 ==> (#[trigger] s.drop_first()[j]) == s[j + 1]);
        lemma_claim_idx(s.drop_first(), id, i - 1);
    }
}

} // verus!
