use agi_adventure::combat::{
    calculate_damage, CombatKeys, CombatOutcome, CombatRolls, CombatState, TurnPhase,
};
use agi_adventure::creature::CreatureInstance;
use agi_adventure::data::{AttackData, ItemData};
use agi_adventure::inventory::{Inventory, ItemCounts};

#[test]
fn no_boost_basic_damage() {
    // (10*25) / (9*2) + 2 = 250/18 + 2 = 13 + 2 = 15
    assert_eq!(calculate_damage(10, 25, 9, false), 15);
}

#[test]
fn def_boost_reduces_damage() {
    // eff_def = (9*130/100).max(1) = 11
    // (10*25) / (11*2) + 2 = 250/22 + 2 = 11 + 2 = 13
    assert_eq!(calculate_damage(10, 25, 9, true), 13);
}

#[test]
fn zero_power_returns_minimum() {
    assert_eq!(calculate_damage(10, 0, 9, false), 2);
}

#[test]
fn zero_defense_does_not_panic() {
    // eff_defense = (0 * 100 / 100).max(1) = 1
    let dmg = calculate_damage(10, 25, 0, false);
    assert!(dmg >= 1);
}

#[test]
fn zero_defense_counts_as_one() {
    // (10*25) / (1*2) + 2 = 125 + 2
    assert_eq!(calculate_damage(10, 25, 0, false), 127);
}

#[test]
fn documented_bob_versus_bob_damage() {
    // Bob lv5 (atk 9, def 9) with a 25-power attack: 9*25/(9*2)+2 = 14
    assert_eq!(calculate_damage(9, 25, 9, false), 14);
}

fn creature(name: &str, hp: u32, attack: u32, defense: u32, speed: u32, moves: &[&str]) -> CreatureInstance {
    CreatureInstance {
        data_id: name.to_lowercase(),
        name: name.to_string(),
        level: 5,
        creature_type: vec!["prompt".to_string()],
        current_hp: hp,
        max_hp: hp,
        attack,
        defense,
        speed,
        moves: moves.iter().map(|m| m.to_string()).collect(),
        catch_rate: 255,
        defense_boost_turns: 0,
        speed_down_turns: 0,
    }
}

fn attack(id: &str, name: &str, power: u32, effect: Option<&str>, duration: Option<u32>) -> AttackData {
    AttackData {
        id: id.to_string(),
        name: name.to_string(),
        description: String::new(),
        power,
        accuracy: 100,
        pp: 10,
        attack_type: "prompt".to_string(),
        category: "special".to_string(),
        effect: effect.map(|e| e.to_string()),
        effect_value: None,
        effect_duration: duration,
    }
}

fn attacks() -> Vec<AttackData> {
    vec![
        attack("surcharge", "Surcharge", 25, None, None),
        attack("guardrail", "Guardrail", 0, Some("defense_boost"), Some(3)),
        attack("trend", "Trend Effect", 0, Some("speed_down"), None),
    ]
}

fn items() -> Vec<ItemData> {
    vec![
        ItemData {
            id: "patch".to_string(),
            name: "Patch".to_string(),
            description: String::new(),
            effect: "heal".to_string(),
            value: 20,
            price: 100,
        },
        ItemData {
            id: "capture_flag".to_string(),
            name: "Capture Flag".to_string(),
            description: String::new(),
            effect: "capture".to_string(),
            value: 0,
            price: 200,
        },
    ]
}

fn keys() -> CombatKeys {
    CombatKeys { left: false, right: false, up: false, down: false, confirm: false, escape: false }
}

fn confirm() -> CombatKeys {
    CombatKeys { confirm: true, ..keys() }
}

fn rolls(enemy_move: usize, capture: u32) -> CombatRolls {
    CombatRolls { enemy_move, capture }
}

#[test]
fn new_battle_starts_at_move_choice() {
    let c = CombatState::new(
        creature("Bob", 19, 9, 9, 9, &["surcharge"]),
        creature("Eve", 19, 9, 9, 9, &["surcharge"]),
        true,
        Some("Kiddie".to_string()),
    );
    assert_eq!(c.turn, TurnPhase::PlayerChoose);
    assert!(c.log.is_empty());
    assert_eq!(c.selected_move, 0);
    assert!(c.trainer_defeat_quote.is_none());
    assert_eq!(c.trainer_name.as_deref(), Some("Kiddie"));
}

#[test]
fn faster_player_strikes_first_and_logs_damage() {
    let mut c = CombatState::new(
        creature("Bob", 19, 9, 9, 10, &["surcharge"]),
        creature("Eve", 30, 9, 9, 9, &["surcharge"]),
        false,
        None,
    );
    let mut inv = Inventory::new();
    let out = c.handle_input_with(confirm(), &attacks(), &items(), &mut inv, rolls(0, 0));
    assert!(matches!(out, CombatOutcome::Ongoing));
    assert_eq!(c.enemy_creature.current_hp, 30 - 14);
    assert_eq!(c.player_creature.current_hp, 19 - 14);
    assert_eq!(
        c.log,
        vec![
            "Bob utilise Surcharge !".to_string(),
            "Eve perd 14 PV !".to_string(),
            "Eve utilise Surcharge !".to_string(),
            "Bob perd 14 PV !".to_string(),
        ]
    );
    assert_eq!(c.turn, TurnPhase::ShowResult);
}

#[test]
fn knock_out_ends_the_turn_with_victory() {
    let mut c = CombatState::new(
        creature("Bob", 19, 9, 9, 10, &["surcharge"]),
        creature("Eve", 10, 9, 9, 9, &["surcharge"]),
        false,
        None,
    );
    let mut inv = Inventory::new();
    c.handle_input_with(confirm(), &attacks(), &items(), &mut inv, rolls(0, 0));
    assert_eq!(c.enemy_creature.current_hp, 0);
    assert_eq!(c.player_creature.current_hp, 19);
    assert_eq!(c.turn, TurnPhase::Victory);
    assert_eq!(c.log.last().map(|s| s.as_str()), Some("Eve est K.O. !"));
    let out = c.handle_input_with(confirm(), &attacks(), &items(), &mut inv, rolls(0, 0));
    match out {
        CombatOutcome::Exit { final_player_hp, victory } => {
            assert_eq!(final_player_hp, 19);
            assert!(victory);
        }
        _ => panic!("expected an exit"),
    }
}

#[test]
fn defeat_exit_restores_half_hp() {
    let mut c = CombatState::new(
        creature("Bob", 19, 9, 9, 1, &["surcharge"]),
        creature("Eve", 30, 9, 9, 9, &["surcharge"]),
        false,
        None,
    );
    c.player_creature.current_hp = 5;
    let mut inv = Inventory::new();
    c.handle_input_with(confirm(), &attacks(), &items(), &mut inv, rolls(0, 0));
    assert_eq!(c.turn, TurnPhase::Defeat);
    assert_eq!(c.player_creature.current_hp, 0);
    match c.handle_input_with(confirm(), &attacks(), &items(), &mut inv, rolls(0, 0)) {
        CombatOutcome::Exit { final_player_hp, victory } => {
            assert_eq!(final_player_hp, 9);
            assert!(!victory);
        }
        _ => panic!("expected an exit"),
    }
}

#[test]
fn guardrail_boosts_defense_and_slowdown_changes_order() {
    let mut c = CombatState::new(
        creature("Bob", 40, 9, 9, 10, &["guardrail", "trend"]),
        creature("Eve", 40, 9, 9, 12, &["surcharge"]),
        false,
        None,
    );
    let mut inv = Inventory::new();
    // Eve is faster: she hits first, then Bob raises his guard.
    c.handle_input_with(confirm(), &attacks(), &items(), &mut inv, rolls(0, 0));
    assert_eq!(c.player_creature.current_hp, 40 - 14);
    assert_eq!(c.player_creature.defense_boost_turns, 2);
    assert!(c.log.contains(&"Bob active son Guardrail !".to_string()));
    // Back to the choice, then Trend Effect: Bob is still slower (10 < 12).
    c.handle_input_with(confirm(), &attacks(), &items(), &mut inv, rolls(0, 0));
    assert_eq!(c.turn, TurnPhase::PlayerChoose);
    let right = CombatKeys { right: true, ..keys() };
    c.handle_input_with(right, &attacks(), &items(), &mut inv, rolls(0, 0));
    assert_eq!(c.selected_move, 1);
    c.handle_input_with(confirm(), &attacks(), &items(), &mut inv, rolls(0, 0));
    // Boosted defense 9*1.3 = 11: 9*25/22+2 = 12 damage.
    assert_eq!(c.player_creature.current_hp, 40 - 14 - 12);
    assert!(c.log.contains(&"Eve est ralenti par Trend Effect !".to_string()));
    assert_eq!(c.enemy_creature.speed_down_turns, 2);
}

#[test]
fn bag_slot_opens_item_menu_and_patch_heals_to_max() {
    let mut c = CombatState::new(
        creature("Bob", 40, 9, 9, 10, &["surcharge"]),
        creature("Eve", 40, 9, 9, 9, &["guardrail"]),
        false,
        None,
    );
    c.player_creature.current_hp = 30;
    let mut inv = Inventory::new();
    let right = CombatKeys { right: true, ..keys() };
    c.handle_input_with(right, &attacks(), &items(), &mut inv, rolls(0, 0));
    assert_eq!(c.selected_move, 1);
    c.handle_input_with(confirm(), &attacks(), &items(), &mut inv, rolls(0, 0));
    assert_eq!(c.turn, TurnPhase::ItemMenu { selected: 0 });
    c.handle_input_with(confirm(), &attacks(), &items(), &mut inv, rolls(0, 0));
    assert_eq!(c.player_creature.current_hp, 40);
    assert_eq!(inv.items.get("patch"), Some(&2));
    assert_eq!(c.log[0], "Patch appliqué ! Bob récupère 20 HP.");
    assert_eq!(c.log[1], "Eve utilise Guardrail !");
    assert_eq!(c.turn, TurnPhase::ShowResult);
}

#[test]
fn capture_flag_refused_in_trainer_battle() {
    let mut c = CombatState::new(
        creature("Bob", 40, 9, 9, 10, &["surcharge"]),
        creature("Eve", 40, 9, 9, 9, &["surcharge"]),
        true,
        Some("Kiddie".to_string()),
    );
    c.turn = TurnPhase::ItemMenu { selected: 1 };
    let mut inv = Inventory::new();
    let out = c.handle_input_with(confirm(), &attacks(), &items(), &mut inv, rolls(0, 0));
    assert!(matches!(out, CombatOutcome::Ongoing));
    assert_eq!(c.log, vec!["Ça ne fonctionne pas en combat de dresseur !".to_string()]);
    assert_eq!(c.turn, TurnPhase::PlayerChoose);
    assert_eq!(inv.items.get("capture_flag"), Some(&5));
}

#[test]
fn capture_succeeds_below_catch_rate() {
    let mut c = CombatState::new(
        creature("Bob", 40, 9, 9, 10, &["surcharge"]),
        creature("Eve", 40, 9, 9, 9, &["surcharge"]),
        false,
        None,
    );
    c.enemy_creature.catch_rate = 100;
    c.turn = TurnPhase::ItemMenu { selected: 1 };
    let mut inv = Inventory::new();
    match c.handle_input_with(confirm(), &attacks(), &items(), &mut inv, rolls(0, 99)) {
        CombatOutcome::Captured { final_player_hp, captured_name } => {
            assert_eq!(final_player_hp, 40);
            assert_eq!(captured_name, "Eve");
        }
        _ => panic!("expected a capture"),
    }
    assert_eq!(inv.items.get("capture_flag"), Some(&4));
    assert_eq!(c.log, vec!["CTF réussi ! Tu as capturé Eve !".to_string()]);
}

#[test]
fn failed_capture_lets_the_enemy_reply() {
    let mut c = CombatState::new(
        creature("Bob", 40, 9, 9, 10, &["surcharge"]),
        creature("Eve", 40, 9, 9, 9, &["surcharge"]),
        false,
        None,
    );
    c.enemy_creature.catch_rate = 100;
    c.turn = TurnPhase::ItemMenu { selected: 1 };
    let mut inv = Inventory::new();
    let out = c.handle_input_with(confirm(), &attacks(), &items(), &mut inv, rolls(0, 100));
    assert!(matches!(out, CombatOutcome::Ongoing));
    assert_eq!(c.log[0], "CTF échoué ! Eve s'est échappé !");
    assert_eq!(c.player_creature.current_hp, 40 - 14);
    assert_eq!(c.turn, TurnPhase::ShowResult);
}

#[test]
fn item_menu_escape_and_navigation() {
    let mut c = CombatState::new(
        creature("Bob", 40, 9, 9, 10, &["surcharge"]),
        creature("Eve", 40, 9, 9, 9, &["surcharge"]),
        false,
        None,
    );
    c.turn = TurnPhase::ItemMenu { selected: 0 };
    let mut inv = Inventory::new();
    let down = CombatKeys { down: true, ..keys() };
    c.handle_input_with(down, &attacks(), &items(), &mut inv, rolls(0, 0));
    assert_eq!(c.turn, TurnPhase::ItemMenu { selected: 1 });
    c.handle_input_with(down, &attacks(), &items(), &mut inv, rolls(0, 0));
    assert_eq!(c.turn, TurnPhase::ItemMenu { selected: 1 });
    let escape = CombatKeys { escape: true, ..keys() };
    c.handle_input_with(escape, &attacks(), &items(), &mut inv, rolls(0, 0));
    assert_eq!(c.turn, TurnPhase::PlayerChoose);
}

#[test]
fn empty_bag_goes_back_to_moves() {
    let mut c = CombatState::new(
        creature("Bob", 40, 9, 9, 10, &["surcharge"]),
        creature("Eve", 40, 9, 9, 9, &["surcharge"]),
        false,
        None,
    );
    c.turn = TurnPhase::ItemMenu { selected: 0 };
    let mut inv = Inventory::from_items(ItemCounts::new());
    c.handle_input_with(confirm(), &attacks(), &items(), &mut inv, rolls(0, 0));
    assert_eq!(c.turn, TurnPhase::PlayerChoose);
    assert!(c.log.is_empty());
}

#[test]
fn random_battle_step_stays_in_range() {
    let mut c = CombatState::new(
        creature("Bob", 40, 9, 9, 10, &["surcharge"]),
        creature("Eve", 60, 9, 9, 9, &["surcharge", "guardrail"]),
        false,
        None,
    );
    let mut inv = Inventory::new();
    let out = c.handle_input(confirm(), &attacks(), &items(), &mut inv);
    assert!(matches!(out, CombatOutcome::Ongoing));
    assert_eq!(c.enemy_creature.current_hp, 60 - 14);
    assert!(c.log[2] == "Eve utilise Surcharge !" || c.log[2] == "Eve utilise Guardrail !");
}

#[test]
fn certain_capture_with_random_roll() {
    let mut c = CombatState::new(
        creature("Bob", 40, 9, 9, 10, &["surcharge"]),
        creature("Eve", 40, 9, 9, 9, &["surcharge"]),
        false,
        None,
    );
    c.turn = TurnPhase::ItemMenu { selected: 1 };
    let mut inv = Inventory::new();
    let out = c.handle_input(confirm(), &attacks(), &items(), &mut inv);
    assert!(matches!(out, CombatOutcome::Captured { .. }));
}

#[test]
fn slowed_player_strikes_after_equal_speed_enemy() {
    // Player speed 9 slowed: 9 * 70 / 100 = 6 < 9, so the enemy strikes first.
    let mut player = creature("Bob", 19, 9, 9, 9, &["surcharge"]);
    player.speed_down_turns = 2;
    let mut c = CombatState::new(player, creature("Eve", 30, 9, 9, 9, &["surcharge"]), false, None);
    let mut inv = Inventory::new();
    c.handle_input_with(confirm(), &attacks(), &items(), &mut inv, rolls(0, 0));
    assert_eq!(c.log[0], "Eve utilise Surcharge !");
    assert_eq!(c.log[2], "Bob utilise Surcharge !");
    assert_eq!(c.player_creature.speed_down_turns, 1);
}

#[test]
fn both_slowed_tie_goes_to_player() {
    let mut player = creature("Bob", 19, 9, 9, 9, &["surcharge"]);
    player.speed_down_turns = 1;
    let mut enemy = creature("Eve", 30, 9, 9, 9, &["surcharge"]);
    enemy.speed_down_turns = 1;
    let mut c = CombatState::new(player, enemy, false, None);
    let mut inv = Inventory::new();
    c.handle_input_with(confirm(), &attacks(), &items(), &mut inv, rolls(0, 0));
    assert_eq!(c.log[0], "Bob utilise Surcharge !");
}

#[test]
fn unused_strong_attack_does_not_block_the_battle() {
    let mut list = attacks();
    list.push(attack("giga", "Giga", 500_000_000, None, None));
    let mut c = CombatState::new(
        creature("Bob", 19, 9, 9, 9, &["surcharge"]),
        creature("Eve", 19, 9, 9, 9, &["surcharge"]),
        false,
        None,
    );
    let mut inv = Inventory::new();
    assert!(c.within_bounds(&list, &items(), &inv));
    assert!(c.checked_input(keys(), &list, &items(), &mut inv).is_some());
}

#[test]
fn own_overflowing_move_is_out_of_bounds() {
    let mut list = attacks();
    list.push(attack("giga", "Giga", 500_000_000, None, None));
    let c = CombatState::new(
        creature("Bob", 19, 9, 9, 9, &["giga"]),
        creature("Eve", 19, 9, 9, 9, &["surcharge"]),
        false,
        None,
    );
    let inv = Inventory::new();
    assert!(!c.within_bounds(&list, &items(), &inv));
}
