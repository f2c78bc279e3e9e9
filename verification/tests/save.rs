use agi_adventure::creature::CreatureInstance;
use agi_adventure::inventory::ItemCounts;
use agi_adventure::save::SaveData;

fn dummy_creature() -> CreatureInstance {
    CreatureInstance {
        data_id: "bob".to_string(),
        name: "Bob".to_string(),
        level: 5,
        creature_type: vec!["prompt".to_string()],
        current_hp: 19,
        max_hp: 19,
        attack: 9,
        defense: 9,
        speed: 9,
        moves: vec!["surcharge".to_string()],
        catch_rate: 255,
        defense_boost_turns: 0,
        speed_down_turns: 0,
    }
}

#[test]
fn save_copies_the_game_state() {
    let mut inv = ItemCounts::new();
    inv.insert("patch".to_string(), 3);
    let save = SaveData::from_game_state(
        "Liam",
        5,
        4,
        "town",
        &dummy_creature(),
        &inv,
        &["script_kiddies".to_string()],
    );
    assert_eq!(save.player_name, "Liam");
    assert_eq!(save.player_tile_x, 5);
    assert_eq!(save.player_tile_y, 4);
    assert_eq!(save.current_map, "town");
    assert_eq!(save.player_creature.level, 5);
    assert_eq!(save.inventory.get("patch"), Some(&3));
    assert_eq!(save.defeated_trainers, vec!["script_kiddies"]);
}
