use agi_adventure::data::NpcData;
use agi_adventure::npc::{DialogueResult, NpcInstance};

fn npc(is_trainer: bool, defeated_lines: Option<Vec<&str>>) -> NpcData {
    NpcData {
        id: "script_kiddies".to_string(),
        name: "Script Kiddies".to_string(),
        tile_x: 3,
        tile_y: 4,
        map: "town".to_string(),
        is_trainer,
        dialogue: vec!["Salut".to_string(), "On se bat ?".to_string()],
        dialogue_defeated: defeated_lines.map(|l| l.iter().map(|s| s.to_string()).collect()),
        trainer_team: None,
    }
}

#[test]
fn dialogue_goes_line_by_line_then_battle() {
    let mut n = NpcInstance::new(npc(true, None));
    n.start_dialogue();
    assert!(n.is_talking);
    assert_eq!(n.current_line(), "Salut");
    assert_eq!(n.advance_dialogue(), DialogueResult::Continue);
    assert_eq!(n.current_line(), "On se bat ?");
    assert_eq!(n.advance_dialogue(), DialogueResult::TriggerBattle);
    assert!(!n.is_talking);
}

#[test]
fn defeated_trainer_uses_other_lines_and_no_battle() {
    let mut n = NpcInstance::new(npc(true, Some(vec!["Bien joué."])));
    n.defeated = true;
    n.start_dialogue();
    assert_eq!(n.current_line(), "Bien joué.");
    assert_eq!(n.advance_dialogue(), DialogueResult::Done);
}

#[test]
fn villager_dialogue_ends_done() {
    let mut n = NpcInstance::new(npc(false, None));
    n.start_dialogue();
    assert_eq!(n.advance_dialogue(), DialogueResult::Continue);
    assert_eq!(n.advance_dialogue(), DialogueResult::Done);
    assert_eq!(n.current_dialogue_lines().len(), 2);
}

#[test]
fn defeated_without_special_lines_keeps_usual_lines() {
    let mut n = NpcInstance::new(npc(true, None));
    n.defeated = true;
    n.start_dialogue();
    assert_eq!(n.current_line(), "Salut");
    n.dialogue_index = 7;
    assert_eq!(n.current_line(), "");
}
