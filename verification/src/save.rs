use vstd::prelude::*;

use crate::creature::{clone_prefix, same_creature, CreatureInstance};
use crate::inventory::ItemCounts;

verus! {

/// A saved game.
pub struct SaveData {
    pub player_name: String,
    pub player_tile_x: i32,
    pub player_tile_y: i32,
    pub current_map: String,
    pub player_creature: CreatureInstance,
    pub inventory: ItemCounts,
    pub defeated_trainers: Vec<String>,
}

impl SaveData {
    /// A save holding a copy of the current game state.
    pub fn from_game_state(
        player_name: &str,
        player_tile_x: i32,
        player_tile_y: i32,
        current_map: &str,
        player_creature: &CreatureInstance,
        inventory: &ItemCounts,
        defeated_trainers: &[String],
    ) -> (save: SaveData)
        ensures
            save.player_name@ == player_name@,
            save.player_tile_x == player_tile_x,
            save.player_tile_y == player_tile_y,
            save.current_map@ == current_map@,
            same_creature(save.player_creature, *player_creature),
            save.inventory@ == inventory@,
            save.defeated_trainers@ == defeated_trainers@,
    {
        let trainers = clone_prefix(defeated_trainers, defeated_trainers.len());
        assert(defeated_trainers@.subrange(0, defeated_trainers@.len() as int) =~= defeated_trainers@);
        SaveData {
            player_name: player_name.to_owned(),
            player_tile_x,
            player_tile_y,
            current_map: current_map.to_owned(),
            player_creature: player_creature.duplicate(),
            inventory: inventory.duplicate(),
            defeated_trainers: trainers,
        }
    }
}

} // verus!
