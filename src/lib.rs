//! The simulation core of a turn-based dungeon crawler: level generation,
//! entities and combat, monster behaviour, items and the turn sequence.
//! Rendering, input and the field-of-view computation are left to the
//! caller, which hands in what the player sees as a grid of booleans.

pub mod ai;
pub mod color;
pub mod entity;
pub mod game;
pub mod items;
pub mod level;
pub mod messages;
mod random;
pub mod rect;
pub mod tile;
pub mod turn;
