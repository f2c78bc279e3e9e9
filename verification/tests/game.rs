use agi_adventure::combat::TurnPhase;
use agi_adventure::creature::CreatureInstance;
use agi_adventure::data::{AttackData, CreatureData, GameData, ItemData, NpcData, TrainerCreature};
use agi_adventure::game::{
    after_battle, apply_defeated_trainers, create_npcs, default_warps, find_warp, inventory_menu_step,
    map_display_name, map_path_for_id, name_entry_char, npc_at, npc_tiles, pause_menu_step, settings_step,
    start_new_game, start_trainer_battle, start_wild_battle, start_wild_battle_with, MenuKeys, PauseAction,
    PauseKeys, SettingsAction, SettingsKeys,
};
use agi_adventure::game::{
    dialogue_step, explore_step, game_over_respawn, pause_screen_back, title_step, trainer_battle_within_bounds,
    triggers_battle, DialogueAction, ExploreKeys, ExploreScreen, PauseScreen, TitleAction,
};
use agi_adventure::inventory::Inventory;
use agi_adventure::npc::NpcInstance;

fn species(id: &str, name: &str, wild_levels: Vec<u32>) -> CreatureData {
    CreatureData {
        id: id.to_string(),
        name: name.to_string(),
        creature_type: vec!["prompt".to_string()],
        description: String::new(),
        base_hp: 45,
        base_attack: 49,
        base_defense: 49,
        base_speed: 45,
        catch_rate: 255,
        learnable_moves: vec!["surcharge".to_string()],
        wild_levels,
    }
}

fn npc_data(id: &str, map: &str, x: i32, y: i32, team: Option<Vec<TrainerCreature>>) -> NpcData {
    NpcData {
        id: id.to_string(),
        name: format!("{} name", id),
        tile_x: x,
        tile_y: y,
        map: map.to_string(),
        is_trainer: team.is_some(),
        dialogue: vec!["Hey".to_string()],
        dialogue_defeated: Some(vec!["Tu es fort.".to_string(), "Encore ?".to_string()]),
        trainer_team: team,
    }
}

fn game_data() -> GameData {
    GameData {
        attacks: Vec::<AttackData>::new(),
        creatures: vec![species("bob", "Bob", vec![]), species("eve", "Eve", vec![3, 3]), species("max", "Max", vec![2, 7])],
        items: vec![ItemData {
            id: "patch".to_string(),
            name: "Patch".to_string(),
            description: String::new(),
            effect: "heal".to_string(),
            value: 20,
            price: 100,
        }],
        npcs: vec![
            npc_data("kid", "town", 3, 4, Some(vec![TrainerCreature { creature_id: "eve".to_string(), level: 4 }])),
            npc_data("granny", "route1", 1, 1, None),
            npc_data("shopkeeper", "town", 6, 2, None),
        ],
    }
}

#[test]
fn map_ids_to_files_and_names() {
    assert_eq!(map_path_for_id("route1"), "assets/maps/route1.tmx");
    assert_eq!(map_path_for_id("town"), "assets/maps/town.tmx");
    assert_eq!(map_path_for_id("anything"), "assets/maps/town.tmx");
    assert_eq!(map_display_name("route1"), "Wiki Road");
    assert_eq!(map_display_name("town"), "Nebular City");
}

#[test]
fn npcs_of_a_map_in_order() {
    let data = game_data();
    let town = data.get_npcs_for_map("town");
    assert_eq!(town.len(), 2);
    assert_eq!(town[0].id, "kid");
    assert_eq!(town[1].id, "shopkeeper");
    let npcs = create_npcs(&data, "town");
    assert_eq!(npcs.len(), 2);
    assert!(npcs.iter().all(|n| !n.defeated && !n.is_talking && n.dialogue_index == 0));
    assert_eq!(npc_tiles(&npcs), vec![(3, 4), (6, 2)]);
    assert_eq!(npc_at(&npcs, 6, 2), Some(1));
    assert_eq!(npc_at(&npcs, 0, 0), None);
    assert!(create_npcs(&data, "nowhere").is_empty());
}

#[test]
fn defeated_trainers_are_marked() {
    let data = game_data();
    let mut npcs = create_npcs(&data, "town");
    apply_defeated_trainers(&mut npcs, &["kid".to_string()]);
    assert!(npcs[0].defeated);
    assert!(!npcs[1].defeated);
}

#[test]
fn warps_between_town_and_route() {
    let warps = default_warps();
    assert_eq!(find_warp(&warps, "town", 5, 0), Some(0));
    assert_eq!(find_warp(&warps, "route1", 5, 8), Some(1));
    assert_eq!(find_warp(&warps, "route1", 5, 0), None);
    assert_eq!(find_warp(&warps, "town", 5, 1), None);
    assert_eq!(warps[0].to_map, "route1");
    assert_eq!((warps[0].spawn_x, warps[0].spawn_y), (5, 7));
    assert_eq!(warps[1].display_name, "Nebular City");
}

#[test]
fn name_entry_rules() {
    let mut name = String::new();
    for c in "Liam".chars() {
        name_entry_char(&mut name, c);
    }
    assert_eq!(name, "Liam");
    name_entry_char(&mut name, '\u{8}');
    assert_eq!(name, "Lia");
    name_entry_char(&mut name, '\n');
    name_entry_char(&mut name, '\u{7f}');
    assert_eq!(name, "Lia");
    for c in "abcdefghijk".chars() {
        name_entry_char(&mut name, c);
    }
    assert_eq!(name, "Liaabcdefghi");
    let mut empty = String::new();
    name_entry_char(&mut empty, '\u{8}');
    assert_eq!(empty, "");
    let mut accents = String::from("éééééé");
    name_entry_char(&mut accents, 'x');
    assert_eq!(accents, "éééééé");
}

#[test]
fn new_game_starts_with_bob_level_five() {
    let data = game_data();
    let (profile, starter) = start_new_game(&data, "Liam");
    assert_eq!(profile.name, "Liam");
    assert_eq!(starter.name, "Bob");
    assert_eq!(starter.level, 5);
    assert_eq!(starter.max_hp, 19);
}

#[test]
fn wild_battle_with_given_draws() {
    let data = game_data();
    let (_, starter) = start_new_game(&data, "Liam");
    let combat = start_wild_battle_with(&data, &starter, 1, 3).unwrap();
    assert_eq!(combat.enemy_creature.name, "Max");
    assert_eq!(combat.enemy_creature.level, 5);
    assert!(!combat.is_trainer_battle);
    assert_eq!(combat.player_creature.max_hp, starter.max_hp);
}

#[test]
fn wild_battle_level_within_range() {
    let mut data = game_data();
    data.creatures.retain(|c| c.id != "max");
    let (_, starter) = start_new_game(&data, "Liam");
    let combat = start_wild_battle(&data, &starter).unwrap();
    // Eve is the only wild species and lives at level 3 only.
    assert_eq!(combat.enemy_creature.name, "Eve");
    assert_eq!(combat.enemy_creature.level, 3);
    assert_eq!(combat.turn, TurnPhase::PlayerChoose);
}

#[test]
fn no_wild_species_no_battle() {
    let mut data = game_data();
    data.creatures.retain(|c| c.id == "bob");
    let (_, starter) = start_new_game(&data, "Liam");
    assert!(start_wild_battle(&data, &starter).is_none());
}

#[test]
fn trainer_battle_uses_lead_creature() {
    let data = game_data();
    let (_, starter) = start_new_game(&data, "Liam");
    let combat = start_trainer_battle(&data.npcs[0], &data, &starter).unwrap();
    assert_eq!(combat.enemy_creature.name, "Eve");
    assert_eq!(combat.enemy_creature.level, 4);
    assert!(combat.is_trainer_battle);
    assert_eq!(combat.trainer_name.as_deref(), Some("kid name"));
    assert_eq!(combat.trainer_defeat_quote.as_deref(), Some("Tu es fort."));
    assert!(start_trainer_battle(&data.npcs[1], &data, &starter).is_none());
}

#[test]
fn after_battle_victory_and_defeat() {
    let data = game_data();
    let (_, mut starter) = start_new_game(&data, "Liam");
    let mut npcs = create_npcs(&data, "town");
    let mut defeated: Vec<String> = Vec::new();
    let banner = after_battle(&mut starter, 7, true, Some("kid"), &mut defeated, &mut npcs);
    assert_eq!(banner.as_deref(), Some("Tu as battu kid name !"));
    assert_eq!(starter.current_hp, 7);
    assert_eq!(defeated, vec!["kid".to_string()]);
    assert!(npcs[0].defeated);
    let banner = after_battle(&mut starter, 3, false, None, &mut defeated, &mut npcs);
    assert!(banner.is_none());
    assert_eq!(starter.current_hp, starter.max_hp);
    let banner = after_battle(&mut starter, 11, true, None, &mut defeated, &mut npcs);
    assert!(banner.is_none());
    assert_eq!(starter.current_hp, 11);
    assert_eq!(defeated.len(), 1);
}

#[test]
fn bag_menu_outside_battle_heals() {
    let data = game_data();
    let (_, mut starter) = start_new_game(&data, "Liam");
    starter.current_hp = 1;
    let mut player: Option<CreatureInstance> = Some(starter);
    let mut inv = Inventory::new();
    let confirm = MenuKeys { up: false, down: false, confirm: true };
    let sel = inventory_menu_step(0, confirm, &mut inv, &data.items, &mut player);
    assert_eq!(sel, 0);
    assert_eq!(player.as_ref().unwrap().current_hp, 19);
    assert_eq!(inv.items.get("patch"), Some(&2));
    let down = MenuKeys { up: false, down: true, confirm: false };
    assert_eq!(inventory_menu_step(0, down, &mut inv, &data.items, &mut player), 1);
    // a capture flag does nothing outside battle
    let sel = inventory_menu_step(1, confirm, &mut inv, &data.items, &mut player);
    assert_eq!(sel, 1);
    assert_eq!(inv.items.get("capture_flag"), Some(&5));
}

#[test]
fn pause_menu_navigation() {
    let k = |escape, up, down, confirm| PauseKeys { escape, up, down, confirm };
    assert_eq!(pause_menu_step(2, k(true, true, false, false)), PauseAction::Close);
    assert_eq!(pause_menu_step(2, k(false, true, true, false)), PauseAction::Stay { selected: 1 });
    assert_eq!(pause_menu_step(0, k(false, true, false, false)), PauseAction::Stay { selected: 0 });
    assert_eq!(pause_menu_step(4, k(false, false, true, false)), PauseAction::Stay { selected: 4 });
    assert_eq!(pause_menu_step(3, k(false, false, false, true)), PauseAction::Save);
    assert_eq!(pause_menu_step(0, k(false, false, false, true)), PauseAction::OpenInventory);
    assert_eq!(pause_menu_step(4, k(false, false, false, true)), PauseAction::OpenSettings);
}

#[test]
fn settings_delete_needs_confirmation() {
    let none = SettingsKeys { enter: false, space: false, escape: false, up: false, down: false, yes: false, no: false };
    assert_eq!(
        settings_step(0, false, SettingsKeys { down: true, ..none }),
        SettingsAction::Stay { selected: 1, confirm_delete: false }
    );
    assert_eq!(
        settings_step(1, false, SettingsKeys { space: true, ..none }),
        SettingsAction::Stay { selected: 1, confirm_delete: true }
    );
    assert_eq!(settings_step(1, true, SettingsKeys { yes: true, ..none }), SettingsAction::DeleteSave);
    assert_eq!(
        settings_step(1, true, SettingsKeys { no: true, ..none }),
        SettingsAction::Stay { selected: 1, confirm_delete: false }
    );
    assert_eq!(settings_step(1, false, SettingsKeys { escape: true, ..none }), SettingsAction::BackToMenu);
    assert_eq!(
        settings_step(0, false, SettingsKeys { enter: true, ..none }),
        SettingsAction::Stay { selected: 0, confirm_delete: false }
    );
}

#[test]
fn lookups_by_id() {
    let data = game_data();
    assert_eq!(data.get_creature("max").name, "Max");
    let mut with_attack = game_data();
    with_attack.attacks.push(AttackData {
        id: "surcharge".to_string(),
        name: "Surcharge".to_string(),
        description: String::new(),
        power: 25,
        accuracy: 100,
        pp: 10,
        attack_type: "prompt".to_string(),
        category: "special".to_string(),
        effect: None,
        effect_value: None,
        effect_duration: None,
    });
    assert_eq!(with_attack.get_attack("surcharge").power, 25);
}

#[test]
fn npc_data_duplicate() {
    let data = game_data();
    let copy = data.npcs[0].duplicate();
    assert_eq!(copy.id, "kid");
    assert_eq!(copy.trainer_team.as_ref().unwrap()[0].level, 4);
    let n = NpcInstance::new(copy);
    assert!(!n.defeated);
}

#[test]
fn wild_battle_starts_fresh() {
    let mut data = game_data();
    data.creatures.retain(|c| c.id != "max");
    let (_, starter) = start_new_game(&data, "Liam");
    let combat = start_wild_battle(&data, &starter).unwrap();
    assert!(combat.log.is_empty());
    assert_eq!(combat.selected_move, 0);
    assert!(combat.trainer_name.is_none());
    assert!(combat.trainer_defeat_quote.is_none());
}

#[test]
fn title_screen_choices() {
    assert_eq!(title_step(true, true, true), TitleAction::Quit);
    assert_eq!(title_step(true, true, false), TitleAction::ResumeSave);
    assert_eq!(title_step(false, true, false), TitleAction::EnterName);
    assert_eq!(title_step(true, false, false), TitleAction::Stay);
}

fn explore_keys() -> ExploreKeys {
    ExploreKeys { inventory: false, save: false, escape: false, talk: false }
}

#[test]
fn explore_precedence() {
    let data = game_data();
    let (_, starter) = start_new_game(&data, "Liam");
    let all = ExploreKeys { inventory: true, save: true, escape: true, talk: true };
    let a = explore_step(all, Some(2), start_trainer_battle(&data.npcs[0], &data, &starter));
    assert!(a.save);
    assert!(matches!(a.next, ExploreScreen::Dialogue(2)));
    let a = explore_step(all, None, None);
    assert!(matches!(a.next, ExploreScreen::Pause));
    let a = explore_step(ExploreKeys { inventory: true, ..explore_keys() }, None, None);
    assert!(matches!(a.next, ExploreScreen::Inventory));
    assert!(!a.save);
    let a = explore_step(explore_keys(), None, start_trainer_battle(&data.npcs[0], &data, &starter));
    assert!(matches!(a.next, ExploreScreen::WildBattle(_)));
    let a = explore_step(ExploreKeys { talk: true, ..explore_keys() }, None, None);
    assert!(matches!(a.next, ExploreScreen::Stay));
}

#[test]
fn dialogue_screen_steps() {
    let data = game_data();
    let (_, starter) = start_new_game(&data, "Liam");
    let player = Some(starter);
    let mut npcs = create_npcs(&data, "town");
    npcs[0].data.dialogue = vec!["Hey".to_string(), "Fight!".to_string()];
    npcs[0].start_dialogue();
    assert!(matches!(dialogue_step(&mut npcs[0], false, false, &data, &player), DialogueAction::Stay));
    assert!(!triggers_battle(&npcs[0]));
    assert!(matches!(dialogue_step(&mut npcs[0], false, true, &data, &player), DialogueAction::Stay));
    assert_eq!(npcs[0].dialogue_index, 1);
    assert!(triggers_battle(&npcs[0]));
    assert!(trainer_battle_within_bounds(&npcs[0].data, &data));
    match dialogue_step(&mut npcs[0], false, true, &data, &player) {
        DialogueAction::Battle(cs) => {
            assert_eq!(cs.enemy_creature.name, "Eve");
            assert!(cs.is_trainer_battle);
        }
        _ => panic!("expected a battle"),
    }
    assert!(!npcs[0].is_talking);
    // The shopkeeper is no trainer: its talk just closes.
    npcs[1].start_dialogue();
    assert!(matches!(dialogue_step(&mut npcs[1], false, true, &data, &player), DialogueAction::Close));
    // Escape closes at once.
    npcs[1].start_dialogue();
    assert!(matches!(dialogue_step(&mut npcs[1], true, true, &data, &player), DialogueAction::Close));
    assert!(!npcs[1].is_talking);
    // A trainer without a creature to fight keeps the dialogue open.
    npcs[0].start_dialogue();
    npcs[0].dialogue_index = 1;
    assert!(matches!(dialogue_step(&mut npcs[0], false, true, &data, &None), DialogueAction::Stay));
}

#[test]
fn unknown_trainer_creature_is_out_of_bounds() {
    let mut data = game_data();
    data.creatures.retain(|c| c.id != "eve");
    assert!(!trainer_battle_within_bounds(&data.npcs[0], &data));
    assert!(trainer_battle_within_bounds(&data.npcs[1], &data));
}

#[test]
fn game_over_restores_hp_in_town() {
    let data = game_data();
    let (_, mut starter) = start_new_game(&data, "Liam");
    starter.current_hp = 0;
    let (map, x, y) = game_over_respawn(&mut starter);
    assert_eq!((map, x, y), ("town", 5, 4));
    assert_eq!(starter.current_hp, starter.max_hp);
}

#[test]
fn pause_screens_return_to_their_entry() {
    assert_eq!(pause_screen_back(PauseScreen::Inventory), 0);
    assert_eq!(pause_screen_back(PauseScreen::Character), 1);
    assert_eq!(pause_screen_back(PauseScreen::WorldMap), 2);
    assert_eq!(pause_screen_back(PauseScreen::Settings), 4);
}
