use agi_adventure::player::{encounter_step, encounter_step_with, facing_tile, plan_step, Direction, MoveKeys};
use agi_adventure::world::{GameMap, TileLayerData};

fn open_map() -> GameMap {
    let layers = vec![
        TileLayerData { name: "Ground".to_string(), tiles: vec![Some(0); 9] },
        TileLayerData {
            name: "Collision".to_string(),
            tiles: vec![None, None, None, None, None, Some(4), None, None, None],
        },
    ];
    GameMap::from_layers(3, 3, 16, 4, &layers, &[], &[0])
}

fn keys(up: bool, down: bool, left: bool, right: bool) -> MoveKeys {
    MoveKeys { up, down, left, right }
}

#[test]
fn up_takes_precedence_and_moves() {
    let map = open_map();
    let r = plan_step(1, 1, Direction::Down, keys(true, true, true, true), &map, &[]);
    assert_eq!(r, (Direction::Up, Some((1, 0))));
}

#[test]
fn blocked_step_still_turns() {
    let map = open_map();
    let r = plan_step(1, 1, Direction::Down, keys(false, false, false, true), &map, &[]);
    assert_eq!(r, (Direction::Right, None));
    let r = plan_step(0, 0, Direction::Down, keys(false, false, true, false), &map, &[]);
    assert_eq!(r, (Direction::Left, None));
}

#[test]
fn characters_block_the_way() {
    let map = open_map();
    let r = plan_step(1, 1, Direction::Up, keys(false, true, false, false), &map, &[(1, 2)]);
    assert_eq!(r, (Direction::Down, None));
    let r = plan_step(1, 1, Direction::Up, keys(false, false, false, false), &map, &[(1, 2)]);
    assert_eq!(r, (Direction::Up, None));
}

#[test]
fn facing_tiles_and_sprite_rows() {
    assert_eq!(facing_tile(5, 4, Direction::Up), (5, 3));
    assert_eq!(facing_tile(5, 4, Direction::Down), (5, 5));
    assert_eq!(facing_tile(5, 4, Direction::Left), (4, 4));
    assert_eq!(facing_tile(5, 4, Direction::Right), (6, 4));
    assert_eq!(Direction::Down.frame_row(), 0);
    assert_eq!(Direction::Left.frame_row(), 1);
    assert_eq!(Direction::Right.frame_row(), 2);
    assert_eq!(Direction::Up.frame_row(), 3);
}

#[test]
fn grass_counter() {
    assert_eq!(encounter_step_with(3, true, 8), (4, false));
    assert_eq!(encounter_step_with(7, true, 8), (0, true));
    assert_eq!(encounter_step_with(7, false, 8), (0, false));
    // the drawn threshold is at most 16: the 16th step in grass always triggers
    assert_eq!(encounter_step(15, true), (0, true));
    // and at least 8: the 7th never does
    assert_eq!(encounter_step(5, true), (6, false));
    assert_eq!(encounter_step(5, false), (0, false));
}
