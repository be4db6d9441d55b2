//! Player identity and per-player world state.

use vstd::prelude::*;
use crate::controls::Control;
use crate::creature::CreatureId;
use crate::pos::Area;
use crate::vec2::Vec2;

verus! {

/// A player's name; the world knows players by it.
#[derive(Debug, Default, Eq, Clone, Hash)]
pub struct PlayerId(pub String);

impl PartialEq for PlayerId {
    fn eq(&self, other: &PlayerId) -> (r: bool) {
        self.0 == other.0
    }
}

impl vstd::std_specs::cmp::PartialEqSpecImpl for PlayerId {
    open spec fn obeys_eq_spec() -> bool {
        true
    }

    open spec fn eq_spec(&self, other: &PlayerId) -> bool {
        self.0@ == other.0@
    }
}

impl View for PlayerId {
    type V = Seq<char>;

    open spec fn view(&self) -> Seq<char> {
        self.0@
    }
}

/// The per-player record the world keeps beside the player's creature.
#[derive(Debug, Clone, Copy)]
pub struct Player {
    /// The queued intent, consumed at the end of each tick.
    pub plan: Option<Control>,
    /// The continuous movement direction, a normalized sub-tile vector.
    pub movement: Option<Vec2>,
    /// The creature this player controls.
    pub body: CreatureId,
    pub is_new: bool,
    /// The viewport last anchored for this player.
    pub view_area: Option<Area>,
}

impl Player {
    pub fn new(body: CreatureId) -> (p: Player)
        ensures
            p.plan is None,
            p.movement is None,
            p.body == body,
            p.is_new,
            p.view_area is None,
    {
        Player { plan: None, movement: None, body, is_new: true, view_area: None }
    }

    pub fn view_area(&self) -> (r: Option<Area>)
        ensures
            r == self.view_area,
    {
        self.view_area
    }
}

} // verus!
