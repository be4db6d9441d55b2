//! Creatures: the bodies players steer through the world.

use vstd::prelude::*;
use crate::holder::HolderId;
use crate::inventory::{Inventory, InventorySave};
use crate::player::PlayerId;
use crate::sprite::Sprite;
use crate::tickstamp::TickDuration;
use crate::vec2::{Rect, Vec2};
use crate::worldmessages::SoundType;

verus! {

/// What steers a creature.
#[derive(Debug, Clone)]
pub enum Mind {
    Player(PlayerId),
}

/// A body in the world.
#[derive(Debug)]
pub struct Creature {
    pub mind: Mind,
    /// Sub-tile position of the body's top-left corner.
    pub pos: Vec2,
    /// The body's collision box, relative to `pos`.
    pub shape: Rect,
    /// Ticks until the creature may act again.
    pub cooldown: TickDuration,
    /// The cooldown a legacy step move imposes.
    pub walk_cooldown: TickDuration,
    pub sprite: Sprite,
    pub inventory: Inventory,
    /// Sounds heard this tick; cleared at the start of each update.
    pub heard_sounds: Vec<(SoundType, String)>,
    pub is_dead: bool,
}

impl Creature {
    /// The player steering this creature.
    pub fn player(&self) -> (r: Option<PlayerId>)
        ensures
            match (r, &self.mind) {
                (Some(id), Mind::Player(own)) => id@ == own@,
                _ => false,
            },
    {
        match &self.mind {
            Mind::Player(id) => Some(crate::player::PlayerId(id.0.clone())),
        }
    }

    /// A player's body, fresh from its save.
    pub fn load_player(playerid: PlayerId, saved: PlayerSave) -> (c: Creature)
        ensures
            c.mind matches Mind::Player(id) && id@ == playerid@,
            c.pos == saved.pos,
            c.shape.origin == (Vec2 { x: 0i64, y: 0i64 }),
            c.shape.size == (Vec2 { x: crate::vec2::SUBTILE, y: crate::vec2::SUBTILE }),
            c.cooldown.0 == 0,
            c.walk_cooldown.0 == 0,
            c.sprite == Sprite::PlayerDefault,
            c.inventory.items@ == saved.inventory@,
            c.inventory.selector == 0,
            c.heard_sounds@.len() == 0,
            !c.is_dead,
    {
        Creature {
            mind: Mind::Player(playerid),
            pos: saved.pos,
            shape: Rect::new(Vec2::new(0, 0), Vec2::new(crate::vec2::SUBTILE, crate::vec2::SUBTILE)),
            cooldown: TickDuration(0),
            walk_cooldown: TickDuration(0),
            sprite: Sprite::PlayerDefault,
            inventory: Inventory::load(saved.inventory),
            heard_sounds: Vec::new(),
            is_dead: false,
        }
    }

    pub fn kill(&mut self)
        ensures
            final(self).is_dead,
            final(self).mind == old(self).mind,
            final(self).pos == old(self).pos,
            final(self).shape == old(self).shape,
            final(self).inventory == old(self).inventory,
            final(self).heard_sounds == old(self).heard_sounds,
            final(self).cooldown == old(self).cooldown,
            final(self).walk_cooldown == old(self).walk_cooldown,
            final(self).sprite == old(self).sprite,
    {
        self.is_dead = true;
    }

    /// The state that goes into this player's save file.
    pub fn save(&self) -> (r: PlayerSave)
        ensures
            r.pos == self.pos,
            r.inventory@ == self.inventory.items@,
    {
        PlayerSave { pos: self.pos, inventory: self.inventory.save() }
    }

    /// The snapshot other players see.
    pub fn view(&self) -> (r: CreatureView)
        ensures
            r.pos == self.pos,
            r.sprite == self.sprite,
    {
        CreatureView { pos: self.pos, sprite: self.sprite }
    }

    /// Movement speed as a fixed-point fraction of a tile per tick.
    pub fn speed(&self) -> (r: i64)
        ensures
            r == 0x8000,
    {
        0x8000
    }
}

/// A stable creature id issued by the world's creature store.
#[derive(Debug, Clone, Copy, PartialEq, Eq, Hash, Structural)]
pub struct CreatureId(pub usize);

impl HolderId for CreatureId {
    open spec fn key_spec(&self) -> int {
        self.0 as int
    }

    fn next(&self) -> (r: CreatureId) {
        CreatureId(self.0 + 1)
    }

    fn initial() -> (r: CreatureId) {
        CreatureId(1)
    }

    fn key_eq(&self, other: &CreatureId) -> (r: bool) {
        self.0 == other.0
    }
}

/// What one player's save file holds.
#[derive(Debug)]
pub struct PlayerSave {
    pub inventory: InventorySave,
    pub pos: Vec2,
}

impl PlayerSave {
    /// A fresh save: empty-handed at `pos`.
    pub fn new(pos: Vec2) -> (r: PlayerSave)
        ensures
            r.pos == pos,
            r.inventory@.len() == 0,
    {
        PlayerSave { pos, inventory: Vec::new() }
    }
}

/// The externally visible state of a creature.
#[derive(Debug, Clone, Copy, PartialEq, Eq, Structural)]
pub struct CreatureView {
    pub sprite: Sprite,
    pub pos: Vec2,
}

} // verus!
