//! AGI Adventure: the rules of a small monster-tamer RPG, verified.
//!
//! Creatures, attacks, items and trainers are plain data (`data`); combat,
//! inventory, dialogue, the tile map and the overworld decisions are the
//! game's logic, each with a contract.

pub mod combat;
pub mod creature;
pub mod data;
pub mod dice;
pub mod game;
pub mod inventory;
pub mod npc;
pub mod player;
pub mod save;
pub mod text;
pub mod world;
