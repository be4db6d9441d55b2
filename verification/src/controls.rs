//! Client intents and the actions the connection layer hands the world.

use vstd::prelude::*;
use crate::player::PlayerId;
use crate::pos::Direction;
use crate::timestamp::Timestamp;
use crate::vec2::Vec2;

verus! {

/// One intent a client can queue for its creature.
#[derive(Debug, Clone, Copy, PartialEq, Eq, Structural)]
pub enum Control {
    /// A legacy half-tile step.
    Move(Direction),
    /// Continuous movement along a normalized sub-tile vector.
    Movement(Vec2),
    Suicide,
    /// Use the selected item on the tile in the given direction, or on the
    /// own tile.
    Interact(Option<Direction>),
    Select(Selector),
    MoveSelected(Selector),
}

/// How an inventory slot is chosen.
#[derive(Debug, Clone, Copy, PartialEq, Eq, Structural)]
pub enum Selector {
    Next,
    Previous,
    Idx(usize),
}

/// What the connection layer asks the world to do between ticks.
#[derive(Debug, Clone)]
pub enum Action {
    Join(PlayerId),
    Leave(PlayerId),
    Input(PlayerId, Control, Timestamp),
}

} // verus!
