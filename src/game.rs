use vstd::prelude::*;

use crate::entity::Entity;
use crate::messages::Messages;
use crate::tile::TileMap;

verus! {

/// Index of the player in the roster.
pub const PLAYER_ID: usize = 0;

/// The most items the inventory holds: one per letter of the selection menu.
pub const INVENTORY_CAPACITY: usize = 26;

/// The session state that every action works on, beside the entity roster.
pub struct Game {
    pub map: TileMap,
    pub messages: Messages,
    pub inventory: Vec<Entity>,
}

} // verus!
