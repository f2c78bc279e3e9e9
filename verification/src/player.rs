use vstd::prelude::*;

use crate::dice::random_below;
use crate::world::GameMap;

verus! {

/// The direction the player faces.
#[derive(Clone, Copy, Debug, PartialEq, Eq, Structural)]
pub enum Direction {
    Down,
    Left,
    Right,
    Up,
}

impl Direction {
    /// The row of the player's sprite sheet drawn for this direction.
    pub fn frame_row(self) -> (row: u32)
        ensures
            row == match self {
                Direction::Down => 0u32,
                Direction::Left => 1u32,
                Direction::Right => 2u32,
                Direction::Up => 3u32,
            },
    {
        match self {
            Direction::Down => 0,
            Direction::Left => 1,
            Direction::Right => 2,
            Direction::Up => 3,
        }
    }
}

/// The movement keys held down (`up`: Up or W, `down`: Down or S,
/// `left`: Left or A, `right`: Right or D).
#[derive(Clone, Copy, Debug)]
pub struct MoveKeys {
    pub up: bool,
    pub down: bool,
    pub left: bool,
    pub right: bool,
}

/// The direction asked for by the held keys, up first, then down, left and right.
pub open spec fn requested_direction(keys: MoveKeys) -> Option<Direction> {
    if keys.up {
        Some(Direction::Up)
    } else if keys.down {
        Some(Direction::Down)
    } else if keys.left {
        Some(Direction::Left)
    } else if keys.right {
        Some(Direction::Right)
    } else {
        None
    }
}

/// The tile next to `(x, y)` in direction `d`.
pub open spec fn neighbour(x: i32, y: i32, d: Direction) -> (int, int) {
    match d {
        Direction::Up => (x as int, y - 1),
        Direction::Down => (x as int, y + 1),
        Direction::Left => (x - 1, y as int),
        Direction::Right => (x + 1, y as int),
    }
}

/// The neighbouring tile in direction `d` has coordinates that fit in an `i32`.
pub open spec fn neighbour_fits(x: i32, y: i32, d: Direction) -> bool {
    let (nx, ny) = neighbour(x, y, d);
    i32::MIN <= nx <= i32::MAX && i32::MIN <= ny <= i32::MAX
}

/// The tile in front of a player at `(x, y)` facing `d`.
pub fn facing_tile(tile_x: i32, tile_y: i32, direction: Direction) -> (t: (i32, i32))
    requires
        neighbour_fits(tile_x, tile_y, direction),
    ensures
        (t.0 as int, t.1 as int) == neighbour(tile_x, tile_y, direction),
{
    match direction {
        Direction::Up => (tile_x, tile_y - 1),
        Direction::Down => (tile_x, tile_y + 1),
        Direction::Left => (tile_x - 1, tile_y),
        Direction::Right => (tile_x + 1, tile_y),
    }
}

/// Whether a character stands on tile `t`.
pub fn tile_occupied(npc_tiles: &[(i32, i32)], t: (i32, i32)) -> (occupied: bool)
    ensures
        occupied == npc_tiles@.contains(t),
{
    let n = npc_tiles.len();
    let mut i: usize = 0;
    while i < n
        invariant
            n == npc_tiles@.len(),
            i <= n,
            forall|j: int| 0 <= j < i ==> npc_tiles@[j] != t,
        decreases n - i,
    {
        if npc_tiles[i].0 == t.0 && npc_tiles[i].1 == t.1 {
            assert(npc_tiles@[i as int] == t);
            return true;
        }
        i = i + 1;
    }
    false
}

/// A step request: the held keys turn the player; the player then steps onto
/// the neighbouring tile when it is walkable and no character stands there.
/// Returns the new facing direction and the tile stepped onto, if any.
pub fn plan_step(
    tile_x: i32,
    tile_y: i32,
    facing: Direction,
    keys: MoveKeys,
    map: &GameMap,
    npc_tiles: &[(i32, i32)],
) -> (r: (Direction, Option<(i32, i32)>))
    requires
        requested_direction(keys) matches Some(d) ==> neighbour_fits(tile_x, tile_y, d),
    ensures
        match requested_direction(keys) {
            None => r == (facing, None::<(i32, i32)>),
            Some(d) => {
                let (nx, ny) = neighbour(tile_x, tile_y, d);
                &&& r.0 == d
                &&& (r.1 is Some) == (map.in_bounds(nx as i32, ny as i32) && !map.blocked(
                    map.cell(nx, ny),
                ) && !npc_tiles@.contains((nx as i32, ny as i32)))
                &&& r.1 matches Some(t) ==> t == (nx as i32, ny as i32)
            },
        },
{
    let direction = if keys.up {
        Direction::Up
    } else if keys.down {
        Direction::Down
    } else if keys.left {
        Direction::Left
    } else if keys.right {
        Direction::Right
    } else {
        return (facing, None);
    };
    let (nx, ny) = facing_tile(tile_x, tile_y, direction);
    if map.is_walkable(nx, ny) && !tile_occupied(npc_tiles, (nx, ny)) {
        (direction, Some((nx, ny)))
    } else {
        (direction, None)
    }
}

/// The grass counter after a completed step: on an encounter tile it counts
/// the step, and reaching `threshold` triggers an encounter and resets it;
/// elsewhere it resets. Returns the new counter and whether an encounter starts.
pub open spec fn grass_step(steps: u8, on_encounter_tile: bool, threshold: u8) -> (u8, bool) {
    if on_encounter_tile {
        if steps + 1 >= threshold { (0u8, true) } else { ((steps + 1) as u8, false) }
    } else {
        (0u8, false)
    }
}

/// The grass counter after a step, with the encounter threshold given.
pub fn encounter_step_with(steps_in_grass: u8, on_encounter_tile: bool, threshold: u8) -> (r: (u8, bool))
    requires
        on_encounter_tile ==> steps_in_grass < 255,
    ensures
        r == grass_step(steps_in_grass, on_encounter_tile, threshold),
{
    if on_encounter_tile {
        let steps = steps_in_grass + 1;
        if steps >= threshold {
            (0, true)
        } else {
            (steps, false)
        }
    } else {
        (0, false)
    }
}

/// The grass counter after a step; on an encounter tile the threshold is
/// drawn at random in `8..17`.
pub fn encounter_step(steps_in_grass: u8, on_encounter_tile: bool) -> (r: (u8, bool))
    requires
        on_encounter_tile ==> steps_in_grass < 255,
    ensures
        exists|threshold: u8| 8 <= threshold < 17 && r == #[trigger] grass_step(steps_in_grass, on_encounter_tile, threshold),
{
    let threshold: u8 = if on_encounter_tile { 8 + random_below(9) as u8 } else { 8 };
    let r = encounter_step_with(steps_in_grass, on_encounter_tile, threshold);
    assert(8 <= threshold < 17 && r == grass_step(steps_in_grass, on_encounter_tile, threshold));
    r
}

/// The grass counter stays below the largest threshold, so it never overflows.
pub proof fn lemma_grass_counter_stays_small(steps: u8, on_encounter_tile: bool, threshold: u8)
    requires
        steps < 17,
        threshold < 17,
    ensures
        grass_step(steps, on_encounter_tile, threshold).0 < 17,
{
}

} // verus!
