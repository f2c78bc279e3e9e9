use agi_adventure::creature::CreatureInstance;
use agi_adventure::data::CreatureData;

fn bob_data() -> CreatureData {
    CreatureData {
        id: "bob".to_string(),
        name: "Bob".to_string(),
        creature_type: vec!["prompt".to_string()],
        description: String::new(),
        base_hp: 45,
        base_attack: 49,
        base_defense: 49,
        base_speed: 45,
        catch_rate: 255,
        learnable_moves: vec!["surcharge".to_string(), "guardrail".to_string()],
        wild_levels: vec![2, 7],
    }
}

#[test]
fn bob_lv5_stats() {
    let bob = CreatureInstance::from_data(&bob_data(), 5);
    assert_eq!(bob.max_hp, 19);
    assert_eq!(bob.current_hp, 19);
    assert_eq!(bob.attack, 9);
    assert_eq!(bob.defense, 9);
    assert_eq!(bob.speed, 9);
}

#[test]
fn from_data_sets_catch_rate_and_type() {
    let bob = CreatureInstance::from_data(&bob_data(), 1);
    assert_eq!(bob.catch_rate, 255);
    assert_eq!(bob.creature_type, vec!["prompt"]);
}

#[test]
fn from_data_takes_up_to_four_moves() {
    let mut data = bob_data();
    data.learnable_moves = vec!["a".to_string(), "b".to_string(), "c".to_string(), "d".to_string(), "e".to_string()];
    let c = CreatureInstance::from_data(&data, 1);
    assert_eq!(c.moves.len(), 4);
}

#[test]
fn from_data_keeps_moves_in_order_and_no_status() {
    let c = CreatureInstance::from_data(&bob_data(), 50);
    // 45*50/50 + 50 + 10 = 105; 49*50/50 + 5 = 54
    assert_eq!(c.max_hp, 105);
    assert_eq!(c.attack, 54);
    assert_eq!(c.moves, vec!["surcharge", "guardrail"]);
    assert_eq!(c.defense_boost_turns, 0);
    assert_eq!(c.speed_down_turns, 0);
    assert_eq!(c.data_id, "bob");
    assert_eq!(c.level, 50);
}

#[test]
fn fainted_only_at_zero_hp() {
    let mut c = CreatureInstance::from_data(&bob_data(), 5);
    assert!(!c.is_fainted());
    c.current_hp = 0;
    assert!(c.is_fainted());
}

#[test]
fn duplicate_copies_every_field() {
    let c = CreatureInstance::from_data(&bob_data(), 5);
    let d = c.duplicate();
    assert_eq!(d.name, c.name);
    assert_eq!(d.moves, c.moves);
    assert_eq!(d.max_hp, c.max_hp);
}
