//! Server core for an infinite, persistent, tile-based multiplayer sandbox
//! world: deterministic procedural map generation, a simulation tick loop,
//! inventories, per-player view diffing, wire framing and save files.

pub mod action;
pub mod basemap;
pub mod controls;
pub mod creature;
pub mod gameserver;
pub mod holder;
pub mod inventory;
pub mod map;
pub mod player;
pub mod vec2;
pub mod crop;
pub mod item;
pub mod pos;
pub mod sprite;
pub mod tile;
pub mod timestamp;
pub mod wire;
pub mod world;
pub mod worldmessages;
pub mod random;
pub mod randomtick;
pub mod tickstamp;

use vstd::prelude::*;

verus! {

} // verus!
