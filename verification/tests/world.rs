use agi_adventure::world::{GameMap, TileLayerData};

fn layer(name: &str, tiles: Vec<Option<u32>>) -> TileLayerData {
    TileLayerData { name: name.to_string(), tiles }
}

// A 3x2 map:
//   ground:    1 1 2
//              2 1 1
//   collision: - 7 -
//              - - -
//   other layer ignored.
fn sample_map() -> GameMap {
    let layers = vec![
        layer("Ground", vec![Some(1), Some(1), Some(2), Some(2), Some(1), Some(1)]),
        layer("Collision", vec![None, Some(7), None, None, None, None]),
        layer("Decor", vec![Some(9), Some(9), Some(9), Some(9), Some(9), Some(9)]),
        layer("Canopy", vec![None, None, None, Some(3), None, None]),
    ];
    // tile 2 is collidable, tile 1 is an encounter zone
    GameMap::from_layers(3, 2, 16, 8, &layers, &[2], &[1])
}

#[test]
fn walkable_excludes_collisions_and_out_of_bounds() {
    let map = sample_map();
    assert!(map.is_walkable(0, 0));
    assert!(!map.is_walkable(1, 0)); // on the Collision layer
    assert!(!map.is_walkable(2, 0)); // collidable ground tile
    assert!(!map.is_walkable(0, 1)); // collidable ground tile
    assert!(map.is_walkable(1, 1));
    assert!(!map.is_walkable(-1, 0));
    assert!(!map.is_walkable(3, 0));
    assert!(!map.is_walkable(0, 2));
}

#[test]
fn encounter_tiles_come_from_ground() {
    let map = sample_map();
    assert!(map.is_encounter_tile(0, 0));
    assert!(map.is_encounter_tile(1, 0));
    assert!(!map.is_encounter_tile(2, 0));
    assert!(map.is_encounter_tile(2, 1));
    assert!(!map.is_encounter_tile(5, 5));
    assert!(!map.is_encounter_tile(0, -1));
}

#[test]
fn layers_keep_their_tiles() {
    let map = sample_map();
    assert_eq!(map.width(), 3);
    assert_eq!(map.height(), 2);
    assert_eq!(map.tile_size(), 16);
    assert_eq!(map.tileset_cols(), 8);
    assert_eq!(map.tile_at(0, 2, 0), Some(2));
    assert_eq!(map.tile_at(1, 1, 0), Some(7));
    assert_eq!(map.tile_at(1, 0, 0), None);
    assert_eq!(map.tile_at(2, 0, 1), Some(3));
    assert_eq!(map.tile_at(2, 1, 1), None);
}

#[test]
fn later_layer_covers_earlier() {
    let layers = vec![
        layer("Ground", vec![Some(1), Some(1)]),
        layer("Ground", vec![None, Some(5)]),
    ];
    let map = GameMap::from_layers(2, 1, 16, 4, &layers, &[], &[1]);
    assert_eq!(map.tile_at(0, 0, 0), Some(1));
    assert_eq!(map.tile_at(0, 1, 0), Some(5));
    // the encounter zone of the first layer stays
    assert!(map.is_encounter_tile(1, 0));
}
