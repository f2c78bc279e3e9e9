use vstd::prelude::*;

use crate::combat::{healed_hp, item_effect, item_value, present_items, CombatState, CombatView, TurnPhase};
use crate::creature::{is_fresh, same_creature, stats_fit, stats_within, CreatureInstance};
use crate::data::{find_creature, find_item, lookup_creature, lookup_item, same_npc_data, CreatureData, GameData, ItemData, NpcData};
use crate::dice::random_below;
use crate::inventory::{count_of, item_order, Inventory};
use crate::npc::{dialogue_lines, DialogueResult, NpcInstance};
use crate::text::{char_is_control, is_control, same_text, string_pop, string_push, utf8_len};

verus! {

/// The player's profile.
pub struct PlayerProfile {
    pub name: String,
}

/// The file of the map with id `id`: the route for "route1", the town otherwise.
pub fn map_path_for_id(id: &str) -> (path: &'static str)
    ensures
        id@ == "route1"@ ==> path@ == "assets/maps/route1.tmx"@,
        id@ != "route1"@ ==> path@ == "assets/maps/town.tmx"@,
{
    if same_text(id, "route1") {
        "assets/maps/route1.tmx"
    } else {
        "assets/maps/town.tmx"
    }
}

/// The name shown for the map with id `id`.
pub fn map_display_name(id: &str) -> (name: &'static str)
    ensures
        id@ == "route1"@ ==> name@ == "Wiki Road"@,
        id@ != "route1"@ ==> name@ == "Nebular City"@,
{
    if same_text(id, "route1") {
        "Wiki Road"
    } else {
        "Nebular City"
    }
}

/// Whether `names` holds `name`.
pub fn contains_text(names: &[String], name: &str) -> (found: bool)
    ensures
        found == exists|j: int| 0 <= j < names@.len() && #[trigger] names@[j]@ == name@,
{
    let n = names.len();
    let mut i: usize = 0;
    while i < n
        invariant
            n == names@.len(),
            i <= n,
            forall|j: int| 0 <= j < i ==> #[trigger] names@[j]@ != name@,
        decreases n - i,
    {
        if same_text(names[i].as_str(), name) {
            return true;
        }
        i = i + 1;
    }
    false
}

/// Marks as defeated every character whose id is among `defeated`; nothing else changes.
pub fn apply_defeated_trainers(npcs: &mut Vec<NpcInstance>, defeated: &[String])
    ensures
        final(npcs)@.len() == old(npcs)@.len(),
        forall|i: int|
            0 <= i < old(npcs)@.len() ==> {
                &&& #[trigger] final(npcs)@[i].data == old(npcs)@[i].data
                &&& final(npcs)@[i].dialogue_index == old(npcs)@[i].dialogue_index
                &&& final(npcs)@[i].is_talking == old(npcs)@[i].is_talking
                &&& final(npcs)@[i].defeated == (old(npcs)@[i].defeated || exists|j: int|
                    0 <= j < defeated@.len() && #[trigger] defeated@[j]@ == old(npcs)@[i].data.id@)
            },
{
    let n = npcs.len();
    let mut i: usize = 0;
    while i < n
        invariant
            n == npcs@.len(),
            n == old(npcs)@.len(),
            i <= n,
            forall|k: int|
                0 <= k < n ==> {
                    &&& #[trigger] npcs@[k].data == old(npcs)@[k].data
                    &&& npcs@[k].dialogue_index == old(npcs)@[k].dialogue_index
                    &&& npcs@[k].is_talking == old(npcs)@[k].is_talking
                },
            forall|k: int|
                0 <= k < i ==> #[trigger] npcs@[k].defeated == (old(npcs)@[k].defeated || exists|j: int|
                    0 <= j < defeated@.len() && #[trigger] defeated@[j]@ == old(npcs)@[k].data.id@),
            forall|k: int| i <= k < n ==> #[trigger] npcs@[k].defeated == old(npcs)@[k].defeated,
        decreases n - i,
    {
        if contains_text(defeated, npcs[i].data.id.as_str()) {
            npcs[i].defeated = true;
        }
        i = i + 1;
    }
}


/// The characters of map `map_id`, in the order they are listed, each fresh:
/// not talking, not defeated.
pub fn create_npcs(game_data: &GameData, map_id: &str) -> (npcs: Vec<NpcInstance>)
    ensures
        npcs@.len() == game_data.npcs@.filter(|n: NpcData| n.map@ == map_id@).len(),
        forall|i: int|
            0 <= i < npcs@.len() ==> {
                &&& same_npc_data(#[trigger] npcs@[i].data, game_data.npcs@.filter(|n: NpcData| n.map@ == map_id@)[i])
                &&& npcs@[i].dialogue_index == 0
                &&& !npcs@[i].is_talking
                &&& !npcs@[i].defeated
            },
{
    let found = game_data.get_npcs_for_map(map_id);
    let ghost wanted = game_data.npcs@.filter(|n: NpcData| n.map@ == map_id@);
    assert(found@.map_values(|n: &NpcData| *n) == wanted);
    assert(found@.len() == wanted.len()) by {
        assert(found@.map_values(|n: &NpcData| *n).len() == found@.len());
    }
    let mut npcs: Vec<NpcInstance> = Vec::new();
    let n = found.len();
    let mut i: usize = 0;
    while i < n
        invariant
            n == found@.len(),
            n == wanted.len(),
            found@.map_values(|n: &NpcData| *n) == wanted,
            i <= n,
            npcs@.len() == i,
            forall|k: int|
                0 <= k < i ==> {
                    &&& same_npc_data(#[trigger] npcs@[k].data, wanted[k])
                    &&& npcs@[k].dialogue_index == 0
                    &&& !npcs@[k].is_talking
                    &&& !npcs@[k].defeated
                },
        decreases n - i,
    {
        assert(*found@[i as int] == wanted[i as int]);
        npcs.push(NpcInstance::new(found[i].duplicate()));
        i = i + 1;
    }
    npcs
}

/// The tiles the characters stand on, in order.
pub fn npc_tiles(npcs: &[NpcInstance]) -> (tiles: Vec<(i32, i32)>)
    ensures
        tiles@.len() == npcs@.len(),
        forall|i: int| 0 <= i < npcs@.len() ==> #[trigger] tiles@[i] == (npcs@[i].data.tile_x, npcs@[i].data.tile_y),
{
    let mut tiles: Vec<(i32, i32)> = Vec::new();
    let n = npcs.len();
    let mut i: usize = 0;
    while i < n
        invariant
            n == npcs@.len(),
            i <= n,
            tiles@.len() == i,
            forall|k: int| 0 <= k < i ==> #[trigger] tiles@[k] == (npcs@[k].data.tile_x, npcs@[k].data.tile_y),
        decreases n - i,
    {
        tiles.push((npcs[i].data.tile_x, npcs[i].data.tile_y));
        i = i + 1;
    }
    tiles
}

/// The first character standing on tile `(x, y)`, if any.
pub fn npc_at(npcs: &[NpcInstance], x: i32, y: i32) -> (found: Option<usize>)
    ensures
        match found {
            Some(i) => i < npcs@.len() && npcs@[i as int].data.tile_x == x && npcs@[i as int].data.tile_y == y
                && forall|k: int| 0 <= k < i ==> !(#[trigger] npcs@[k].data.tile_x == x && npcs@[k].data.tile_y == y),
            None => forall|k: int| 0 <= k < npcs@.len() ==> !(#[trigger] npcs@[k].data.tile_x == x && npcs@[k].data.tile_y == y),
        },
{
    let n = npcs.len();
    let mut i: usize = 0;
    while i < n
        invariant
            n == npcs@.len(),
            i <= n,
            forall|k: int| 0 <= k < i ==> !(#[trigger] npcs@[k].data.tile_x == x && npcs@[k].data.tile_y == y),
        decreases n - i,
    {
        if npcs[i].data.tile_x == x && npcs[i].data.tile_y == y {
            return Some(i);
        }
        i = i + 1;
    }
    None
}

/// A passage between two maps: stepping on the trigger tile of `from_map`
/// leads to the spawn tile of `to_map`.
pub struct Warp {
    pub from_map: String,
    pub trigger_x: i32,
    pub trigger_y: i32,
    pub to_map: String,
    pub to_map_path: String,
    pub spawn_x: i32,
    pub spawn_y: i32,
    pub display_name: String,
}

/// The passages of the game: from the town's north exit (5, 0) to the route
/// at (5, 7), and from the route's south exit (5, 8) to the town at (5, 1).
pub fn default_warps() -> (warps: Vec<Warp>)
    ensures
        warps@.len() == 2,
        warps@[0].from_map@ == "town"@,
        warps@[0].trigger_x == 5 && warps@[0].trigger_y == 0,
        warps@[0].to_map@ == "route1"@,
        warps@[0].to_map_path@ == "assets/maps/route1.tmx"@,
        warps@[0].spawn_x == 5 && warps@[0].spawn_y == 7,
        warps@[0].display_name@ == "Wiki Road"@,
        warps@[1].from_map@ == "route1"@,
        warps@[1].trigger_x == 5 && warps@[1].trigger_y == 8,
        warps@[1].to_map@ == "town"@,
        warps@[1].to_map_path@ == "assets/maps/town.tmx"@,
        warps@[1].spawn_x == 5 && warps@[1].spawn_y == 1,
        warps@[1].display_name@ == "Nebular City"@,
{
    let mut warps: Vec<Warp> = Vec::new();
    warps.push(Warp {
        from_map: "town".to_owned(),
        trigger_x: 5,
        trigger_y: 0,
        to_map: "route1".to_owned(),
        to_map_path: "assets/maps/route1.tmx".to_owned(),
        spawn_x: 5,
        spawn_y: 7,
        display_name: "Wiki Road".to_owned(),
    });
    warps.push(Warp {
        from_map: "route1".to_owned(),
        trigger_x: 5,
        trigger_y: 8,
        to_map: "town".to_owned(),
        to_map_path: "assets/maps/town.tmx".to_owned(),
        spawn_x: 5,
        spawn_y: 1,
        display_name: "Nebular City".to_owned(),
    });
    warps
}

/// The warp `w` leaves map `map` from tile `(x, y)`.
pub open spec fn warp_triggers(w: Warp, map: Seq<char>, x: i32, y: i32) -> bool {
    w.from_map@ == map && w.trigger_x == x && w.trigger_y == y
}

/// The first warp that leaves `current_map` from tile `(x, y)`, if any.
pub fn find_warp(warps: &[Warp], current_map: &str, x: i32, y: i32) -> (found: Option<usize>)
    ensures
        match found {
            Some(i) => i < warps@.len() && warp_triggers(warps@[i as int], current_map@, x, y)
                && forall|k: int| 0 <= k < i ==> !#[trigger] warp_triggers(warps@[k], current_map@, x, y),
            None => forall|k: int| 0 <= k < warps@.len() ==> !#[trigger] warp_triggers(warps@[k], current_map@, x, y),
        },
{
    let n = warps.len();
    let mut i: usize = 0;
    while i < n
        invariant
            n == warps@.len(),
            i <= n,
            forall|k: int| 0 <= k < i ==> !#[trigger] warp_triggers(warps@[k], current_map@, x, y),
        decreases n - i,
    {
        if same_text(warps[i].from_map.as_str(), current_map) && x == warps[i].trigger_x && y == warps[i].trigger_y {
            return Some(i);
        }
        i = i + 1;
    }
    None
}


// ── Starting a game ───────────────────────────────────────────────────────

/// The longest player name, in bytes.
pub const MAX_NAME_BYTES: usize = 12;

/// The name being typed after one character: backspace (U+0008) erases the
/// last character, other control characters are ignored, and a character is
/// added while the name is shorter than 12 bytes.
pub fn name_entry_char(buffer: &mut String, c: char)
    ensures
        c == '\u{8}' ==> (if old(buffer)@.len() == 0 { final(buffer)@ == old(buffer)@ } else { final(buffer)@
            == old(buffer)@.drop_last() }),
        c != '\u{8}' && is_control(c) ==> final(buffer)@ == old(buffer)@,
        c != '\u{8}' && !is_control(c) ==> final(buffer)@ == (if (utf8_len(old(buffer)@) as usize) < 12 {
            old(buffer)@.push(c)
        } else {
            old(buffer)@
        }),
{
    if c == '\u{8}' {
        string_pop(buffer);
    } else if char_is_control(c) {
    } else if buffer.as_str().len() < MAX_NAME_BYTES {
        string_push(buffer, c);
    }
}

/// The starting creature's species and level.
pub open spec fn starter_id() -> Seq<char> {
    "bob"@
}

/// A new game for the player named `name`: the profile and the starter, a
/// fresh "bob" at level 5.
pub fn start_new_game(game_data: &GameData, name: &str) -> (r: (PlayerProfile, CreatureInstance))
    requires
        find_creature(game_data.creatures@, starter_id()) matches Some(d) && stats_fit(d, 5),
    ensures
        r.0.name@ == name@,
        is_fresh(r.1, find_creature(game_data.creatures@, starter_id())->0, 5),
{
    let data = game_data.get_creature("bob");
    (PlayerProfile { name: name.to_owned() }, CreatureInstance::from_data(data, 5))
}

// ── Battles ───────────────────────────────────────────────────────────────

/// The species met in the wild: those with wild levels.
pub open spec fn wild_species(creatures: Seq<CreatureData>) -> Seq<CreatureData> {
    creatures.filter(|c: CreatureData| c.wild_levels@.len() > 0)
}

/// The lowest and highest level of a wild species: its first and last wild
/// level, as `u8`.
pub open spec fn wild_min_level(c: CreatureData) -> u8 {
    c.wild_levels@[0] as u8
}

pub open spec fn wild_max_level(c: CreatureData) -> u8 {
    c.wild_levels@.last() as u8
}

/// Every wild species can be met at every level of its range: the range is
/// not empty and the stats fit.
pub open spec fn wild_species_valid(creatures: Seq<CreatureData>) -> bool {
    forall|i: int|
        0 <= i < wild_species(creatures).len() ==> {
            let c = #[trigger] wild_species(creatures)[i];
            &&& wild_min_level(c) <= wild_max_level(c)
            &&& forall|l: u8| wild_min_level(c) <= l <= wild_max_level(c) ==> stats_fit(c, l)
        }
}

/// Whether every wild species can be met at every level of its range; see
/// `wild_species_valid`.
pub fn wild_species_within_bounds(game_data: &GameData) -> (ok: bool)
    ensures
        ok == wild_species_valid(game_data.creatures@),
{
    let wild = wild_candidates(game_data);
    let ghost ws = wild_species(game_data.creatures@);
    proof {
        assert(wild@.map_values(|c: &CreatureData| *c).len() == wild@.len());
    }
    let n = wild.len();
    let mut i: usize = 0;
    while i < n
        invariant
            n == wild@.len(),
            n == ws.len(),
            ws == wild_species(game_data.creatures@),
            wild@.map_values(|c: &CreatureData| *c) == ws,
            i <= n,
            forall|j: int|
                0 <= j < i ==> {
                    let c = #[trigger] ws[j];
                    &&& wild_min_level(c) <= wild_max_level(c)
                    &&& forall|l: u8| wild_min_level(c) <= l <= wild_max_level(c) ==> stats_fit(c, l)
                },
        decreases n - i,
    {
        let cd: &CreatureData = wild[i];
        assert(*cd == ws[i as int]);
        proof {
            game_data.creatures@.lemma_filter_pred(|c: CreatureData| c.wild_levels@.len() > 0, i as int);
        }
        let min_lv = #[verifier::truncate] (cd.wild_levels[0] as u8);
        let max_lv = #[verifier::truncate] (cd.wild_levels[cd.wild_levels.len() - 1] as u8);
        if min_lv > max_lv || !stats_within(cd, max_lv) {
            return false;
        }
        proof {
            assert forall|l: u8| min_lv <= l <= max_lv implies stats_fit(*cd, l) by {
                vstd::arithmetic::mul::lemma_mul_inequality(l as int, max_lv as int, cd.base_hp as int);
                vstd::arithmetic::mul::lemma_mul_inequality(l as int, max_lv as int, cd.base_attack as int);
                vstd::arithmetic::mul::lemma_mul_inequality(l as int, max_lv as int, cd.base_defense as int);
                vstd::arithmetic::mul::lemma_mul_inequality(l as int, max_lv as int, cd.base_speed as int);
                assert(l * cd.base_hp == cd.base_hp * l && max_lv * cd.base_hp == cd.base_hp * max_lv
                    && l * cd.base_attack == cd.base_attack * l && max_lv * cd.base_attack == cd.base_attack * max_lv
                    && l * cd.base_defense == cd.base_defense * l && max_lv * cd.base_defense == cd.base_defense * max_lv
                    && l * cd.base_speed == cd.base_speed * l && max_lv * cd.base_speed == cd.base_speed * max_lv)
                    by (nonlinear_arith);
            }
        }
        i = i + 1;
    }
    true
}

/// The species met in the wild, in the order they are listed.
pub fn wild_candidates(game_data: &GameData) -> (wild: Vec<&CreatureData>)
    ensures
        wild@.map_values(|c: &CreatureData| *c) == wild_species(game_data.creatures@),
{
    let mut wild: Vec<&CreatureData> = Vec::new();
    let n = game_data.creatures.len();
    let mut i: usize = 0;
    while i < n
        invariant
            n == game_data.creatures@.len(),
            i <= n,
            wild@.map_values(|c: &CreatureData| *c) == game_data.creatures@.subrange(0, i as int).filter(
                |c: CreatureData| c.wild_levels@.len() > 0,
            ),
        decreases n - i,
    {
        proof {
            reveal_with_fuel(Seq::<_>::filter, 1);
            assert(game_data.creatures@.subrange(0, i + 1).drop_last() =~= game_data.creatures@.subrange(
                0,
                i as int,
            ));
        }
        if game_data.creatures[i].wild_levels.len() > 0 {
            wild.push(&game_data.creatures[i]);
        }
        assert(wild@.map_values(|c: &CreatureData| *c) =~= game_data.creatures@.subrange(0, i + 1).filter(
            |c: CreatureData| c.wild_levels@.len() > 0,
        ));
        i = i + 1;
    }
    assert(game_data.creatures@.subrange(0, n as int) =~= game_data.creatures@);
    wild
}

/// A wild battle against species number `pick` of the wild species, at its
/// lowest level plus `level_offset`; none when no species lives in the wild.
pub fn start_wild_battle_with(
    game_data: &GameData,
    player: &CreatureInstance,
    pick: usize,
    level_offset: u8,
) -> (combat: Option<CombatState>)
    requires
        wild_species(game_data.creatures@).len() > 0 ==> {
            let c = wild_species(game_data.creatures@)[pick as int];
            &&& pick < wild_species(game_data.creatures@).len()
            &&& wild_min_level(c) + level_offset <= wild_max_level(c)
            &&& stats_fit(c, (wild_min_level(c) + level_offset) as u8)
        },
    ensures
        (combat is Some) == (wild_species(game_data.creatures@).len() > 0),
        combat matches Some(cs) ==> {
            let c = wild_species(game_data.creatures@)[pick as int];
            &&& is_fresh(cs@.enemy, c, (wild_min_level(c) + level_offset) as u8)
            &&& same_creature(cs@.player, *player)
            &&& !cs@.is_trainer_battle
            &&& cs@.trainer_name is None
            &&& cs@.trainer_defeat_quote is None
            &&& cs@.turn == TurnPhase::PlayerChoose
            &&& cs@.log.len() == 0
            &&& cs@.selected_move == 0
        },
{
    let wild = wild_candidates(game_data);
    proof {
        assert(wild@.map_values(|c: &CreatureData| *c).len() == wild@.len());
    }
    if wild.len() == 0 {
        return None;
    }
    let cd: &CreatureData = wild[pick];
    assert(*cd == wild_species(game_data.creatures@)[pick as int]);
    proof {
        game_data.creatures@.lemma_filter_pred(|c: CreatureData| c.wild_levels@.len() > 0, pick as int);
    }
    let min_lv = #[verifier::truncate] (cd.wild_levels[0] as u8);
    let level = min_lv + level_offset;
    let enemy = CreatureInstance::from_data(cd, level);
    Some(CombatState::new(player.duplicate(), enemy, false, None))
}

/// A wild battle against a species drawn at random among the wild species,
/// at a level drawn at random in its range; none when no species lives in
/// the wild.
pub fn start_wild_battle(game_data: &GameData, player: &CreatureInstance) -> (combat: Option<CombatState>)
    requires
        wild_species_valid(game_data.creatures@),
    ensures
        (combat is Some) == (wild_species(game_data.creatures@).len() > 0),
        combat matches Some(cs) ==> exists|pick: int, level: u8|
            0 <= pick < wild_species(game_data.creatures@).len() && wild_min_level(
                wild_species(game_data.creatures@)[pick],
            ) <= level <= wild_max_level(wild_species(game_data.creatures@)[pick]) && #[trigger] is_fresh(
                cs@.enemy,
                wild_species(game_data.creatures@)[pick],
                level,
            ) && same_creature(cs@.player, *player) && !cs@.is_trainer_battle && cs@.trainer_name is None
                && cs@.trainer_defeat_quote is None && cs@.turn == TurnPhase::PlayerChoose && cs@.log.len() == 0
                && cs@.selected_move == 0,
{
    let ghost wild = wild_species(game_data.creatures@);
    let candidates = wild_candidates(game_data);
    proof {
        assert(candidates@.map_values(|c: &CreatureData| *c).len() == candidates@.len());
    }
    let n = candidates.len();
    if n == 0 {
        return start_wild_battle_with(game_data, player, 0, 0);
    }
    let pick = random_below(n as u64) as usize;
    let cd: &CreatureData = candidates[pick];
    assert(*cd == wild[pick as int]);
    proof {
        game_data.creatures@.lemma_filter_pred(|c: CreatureData| c.wild_levels@.len() > 0, pick as int);
    }
    let min_lv = #[verifier::truncate] (cd.wild_levels[0] as u8);
    let max_lv = #[verifier::truncate] (cd.wild_levels[cd.wild_levels.len() - 1] as u8);
    proof {
        assert(wild_min_level(wild[pick as int]) <= wild_max_level(wild[pick as int]));
    }
    let level_offset = random_below((max_lv - min_lv) as u64 + 1) as u8;
    proof {
        let l = (min_lv + level_offset) as u8;
        assert(min_lv <= l <= max_lv);
        assert(stats_fit(wild[pick as int], l));
    }
    let combat = start_wild_battle_with(game_data, player, pick, level_offset);
    proof {
        let l = (min_lv + level_offset) as u8;
        if combat is Some {
            assert(is_fresh(combat->0@.enemy, wild[pick as int], l));
        }
    }
    combat
}

/// The lead creature of a trainer: the first of its team, if any.
pub open spec fn trainer_lead(npc: NpcData) -> Option<(Seq<char>, u8)> {
    match npc.trainer_team {
        Some(team) => if team@.len() > 0 {
            Some((team@[0].creature_id@, team@[0].level))
        } else {
            None
        },
        None => None,
    }
}

/// The trainer's lead creature is a known species whose stats fit at its level.
pub open spec fn trainer_battle_ready(npc: NpcData, creatures: Seq<CreatureData>) -> bool {
    trainer_lead(npc) matches Some((id, level)) ==> find_creature(creatures, id) matches Some(d) && stats_fit(
        d,
        level,
    )
}

/// `cs` opens a battle against trainer `npc`: its lead creature fresh at its
/// level against the player's creature, with the trainer's name and, as the
/// line said on defeat, the first of its after-defeat lines.
pub open spec fn trainer_battle_start(
    cs: CombatView,
    npc: NpcData,
    creatures: Seq<CreatureData>,
    player: CreatureInstance,
) -> bool {
    let (id, level) = trainer_lead(npc)->0;
    &&& is_fresh(cs.enemy, find_creature(creatures, id)->0, level)
    &&& same_creature(cs.player, player)
    &&& cs.is_trainer_battle
    &&& cs.trainer_name == Some(npc.name@)
    &&& cs.trainer_defeat_quote == (match npc.dialogue_defeated {
        Some(dl) => if dl@.len() > 0 {
            Some(dl@[0]@)
        } else {
            None::<Seq<char>>
        },
        None => None,
    })
    &&& cs.turn == TurnPhase::PlayerChoose
    &&& cs.log.len() == 0
    &&& cs.selected_move == 0
}

/// A battle against trainer `npc`'s lead creature; see `trainer_battle_start`.
/// None when the trainer has no team.
pub fn start_trainer_battle(npc: &NpcData, game_data: &GameData, player: &CreatureInstance) -> (combat: Option<
    CombatState,
>)
    requires
        trainer_battle_ready(*npc, game_data.creatures@),
    ensures
        (combat is Some) == (trainer_lead(*npc) is Some),
        combat matches Some(cs) ==> trainer_battle_start(cs@, *npc, game_data.creatures@, *player),
{
    let defeat_quote: Option<String> = match &npc.dialogue_defeated {
        Some(dl) => if dl.len() > 0 {
            Some(dl[0].clone())
        } else {
            None
        },
        None => None,
    };
    match &npc.trainer_team {
        Some(team) => {
            if team.len() == 0 {
                return None;
            }
            let tc = &team[0];
            let cd = game_data.get_creature(tc.creature_id.as_str());
            let enemy = CreatureInstance::from_data(cd, tc.level);
            let mut combat = CombatState::new(player.duplicate(), enemy, true, Some(npc.name.clone()));
            combat.trainer_defeat_quote = defeat_quote;
            Some(combat)
        },
        None => None,
    }
}

/// The banner shown after beating a trainer.
pub open spec fn msg_beaten(name: Seq<char>) -> Seq<char> {
    "Tu as battu "@ + name + " !"@
}

fn text_beaten(name: &str) -> (m: String)
    ensures
        m@ == msg_beaten(name@),
{
    let mut m = "Tu as battu ".to_owned();
    m.append(name);
    m.append(" !");
    m
}

/// The first character whose id is `id`, if any.
pub fn npc_with_id(npcs: &[NpcInstance], id: &str) -> (found: Option<usize>)
    ensures
        match found {
            Some(i) => i < npcs@.len() && npcs@[i as int].data.id@ == id@ && forall|k: int|
                0 <= k < i ==> #[trigger] npcs@[k].data.id@ != id@,
            None => forall|k: int| 0 <= k < npcs@.len() ==> #[trigger] npcs@[k].data.id@ != id@,
        },
{
    let n = npcs.len();
    let mut i: usize = 0;
    while i < n
        invariant
            n == npcs@.len(),
            i <= n,
            forall|k: int| 0 <= k < i ==> #[trigger] npcs@[k].data.id@ != id@,
        decreases n - i,
    {
        if same_text(npcs[i].data.id.as_str(), id) {
            return Some(i);
        }
        i = i + 1;
    }
    None
}

/// Back from a battle: the player's creature keeps the HP the battle left
/// it. A victory over a trainer records the trainer as defeated, marks its
/// character (the first with its id) as defeated and returns the banner
/// "Tu as battu <name> !". A defeat restores the creature's full HP (the
/// game then shows the game-over screen).
pub fn after_battle(
    player: &mut CreatureInstance,
    final_player_hp: u32,
    victory: bool,
    trainer_id: Option<&str>,
    defeated_trainers: &mut Vec<String>,
    npcs: &mut Vec<NpcInstance>,
) -> (banner: Option<String>)
    ensures
        final(player).current_hp == (if victory { final_player_hp } else { old(player).max_hp }),
        same_creature(*final(player), CreatureInstance { current_hp: final(player).current_hp, ..*old(player) }),
        final(defeated_trainers)@.map_values(|s: String| s@) == (match trainer_id {
            Some(tid) => if victory {
                old(defeated_trainers)@.map_values(|s: String| s@).push(tid@)
            } else {
                old(defeated_trainers)@.map_values(|s: String| s@)
            },
            None => old(defeated_trainers)@.map_values(|s: String| s@),
        }),
        final(npcs)@.len() == old(npcs)@.len(),
        forall|i: int|
            0 <= i < old(npcs)@.len() ==> {
                &&& #[trigger] final(npcs)@[i].data == old(npcs)@[i].data
                &&& final(npcs)@[i].dialogue_index == old(npcs)@[i].dialogue_index
                &&& final(npcs)@[i].is_talking == old(npcs)@[i].is_talking
            },
        victory && trainer_id is Some ==> match banner {
            Some(b) => exists|i: int|
                0 <= i < old(npcs)@.len() && old(npcs)@[i].data.id@ == trainer_id->0@ && (forall|k: int|
                    0 <= k < i ==> #[trigger] old(npcs)@[k].data.id@ != trainer_id->0@) && b@ == msg_beaten(
                    old(npcs)@[i].data.name@,
                ) && #[trigger] final(npcs)@[i].defeated && forall|k: int|
                    0 <= k < old(npcs)@.len() && k != i ==> #[trigger] final(npcs)@[k].defeated == old(npcs)@[k].defeated,
            None => forall|k: int|
                0 <= k < old(npcs)@.len() ==> #[trigger] old(npcs)@[k].data.id@ != trainer_id->0@
                    && final(npcs)@[k].defeated == old(npcs)@[k].defeated,
        },
        !(victory && trainer_id is Some) ==> banner is None && forall|k: int|
            0 <= k < old(npcs)@.len() ==> #[trigger] final(npcs)@[k].defeated == old(npcs)@[k].defeated,
{
    player.current_hp = final_player_hp;
    if !victory {
        player.current_hp = player.max_hp;
        return None;
    }
    match trainer_id {
        Some(tid) => {
            let ghost before = defeated_trainers@;
            defeated_trainers.push(tid.to_owned());
            assert(defeated_trainers@.map_values(|s: String| s@) =~= before.map_values(|s: String| s@).push(tid@));
            match npc_with_id(npcs.as_slice(), tid) {
                Some(i) => {
                    let ghost old_npcs = npcs@;
                    npcs[i].defeated = true;
                    let b = text_beaten(npcs[i].data.name.as_str());
                    assert(npcs@[i as int].defeated);
                    assert(forall|k: int| 0 <= k < npcs@.len() && k != i ==> npcs@[k] == old_npcs[k]);
                    Some(b)
                },
                None => None,
            }
        },
        None => None,
    }
}


// ── Menus ─────────────────────────────────────────────────────────────────

/// The keys of a list menu pressed during one frame.
#[derive(Clone, Copy, Debug)]
pub struct MenuKeys {
    pub up: bool,
    pub down: bool,
    pub confirm: bool,
}

/// The selection of a list of `count` entries after the arrows: down, then up.
pub open spec fn menu_nav(selected: usize, keys: MenuKeys, count: int) -> usize {
    let s1 = if keys.down && selected + 1 < count { (selected + 1) as usize } else { selected };
    if keys.up && s1 > 0 { (s1 - 1) as usize } else { s1 }
}

/// The bag menu outside battle, after the arrows and the confirm key of one
/// frame: confirming on a healing item uses one and heals the player's
/// creature (up to its maximum HP); other items do nothing here.
pub open spec fn inventory_menu_result(
    selected: usize,
    keys: MenuKeys,
    inv: Map<Seq<char>, u32>,
    items: Seq<ItemData>,
    player: Option<CreatureInstance>,
) -> (usize, Map<Seq<char>, u32>, Option<CreatureInstance>) {
    let ids = present_items(inv);
    let sel = menu_nav(selected, keys, ids.len() as int);
    if keys.confirm && ids.len() > 0 {
        let id = ids[sel as int];
        if item_effect(items, id) == "heal"@ && count_of(inv, id) > 0 {
            let inv2 = inv.insert(id, (inv[id] - 1) as u32);
            match player {
                Some(c) => (
                    sel,
                    inv2,
                    Some(CreatureInstance { current_hp: healed_hp(c, item_value(items, id)), ..c }),
                ),
                None => (sel, inv2, player),
            }
        } else {
            (sel, inv, player)
        }
    } else {
        (sel, inv, player)
    }
}

/// The bag menu step can be computed: the selection is on the list and a
/// heal does not overflow.
pub open spec fn inventory_menu_fits(
    selected: usize,
    keys: MenuKeys,
    inv: Map<Seq<char>, u32>,
    items: Seq<ItemData>,
    player: Option<CreatureInstance>,
) -> bool {
    let ids = present_items(inv);
    let sel = menu_nav(selected, keys, ids.len() as int);
    keys.confirm && ids.len() > 0 ==> sel < ids.len() && (item_effect(items, ids[sel as int]) == "heal"@
        && player is Some ==> player->0.current_hp + (item_value(items, ids[sel as int]) as u32) <= u32::MAX)
}

/// Whether the bag menu step can be computed; see `inventory_menu_fits`.
pub fn inventory_menu_within_bounds(
    selected: usize,
    keys: MenuKeys,
    inventory: &Inventory,
    items: &[ItemData],
    player: &Option<CreatureInstance>,
) -> (ok: bool)
    ensures
        ok == inventory_menu_fits(selected, keys, inventory.items@, items@, *player),
{
    let ids = inventory.ordered_ids();
    let n = ids.len();
    proof {
        assert(ids@.map_values(|s: &str| s@).len() == ids@.len());
    }
    let mut sel = selected;
    if keys.down && n >= 1 && sel < n - 1 {
        sel = sel + 1;
    }
    if keys.up && sel > 0 {
        sel = sel - 1;
    }
    if !(keys.confirm && n > 0) {
        return true;
    }
    if sel >= n {
        return false;
    }
    let item_id: &str = ids[sel];
    assert(item_id@ == present_items(inventory.items@)[sel as int]);
    let data = lookup_item(items, item_id);
    let effect: &str = match data {
        Some(d) => d.effect.as_str(),
        None => "",
    };
    let val: i32 = match data {
        Some(d) => d.value,
        None => 0,
    };
    if same_text(effect, "heal") {
        match player {
            Some(pc) => #[verifier::truncate] (val as u32) <= u32::MAX - pc.current_hp,
            None => true,
        }
    } else {
        true
    }
}

/// One frame of the bag menu outside battle; returns the new selection.
pub fn inventory_menu_step(
    selected: usize,
    keys: MenuKeys,
    inventory: &mut Inventory,
    items: &[ItemData],
    player: &mut Option<CreatureInstance>,
) -> (sel: usize)
    requires
        inventory_menu_fits(selected, keys, old(inventory).items@, items@, *old(player)),
    ensures
        (sel, final(inventory).items@, *final(player)) == inventory_menu_result(
            selected,
            keys,
            old(inventory).items@,
            items@,
            *old(player),
        ),
{
    let ids = inventory.ordered_ids();
    let n = ids.len();
    proof {
        assert(ids@.map_values(|s: &str| s@).len() == ids@.len());
    }
    let mut sel = selected;
    if keys.down && n >= 1 && sel < n - 1 {
        sel = sel + 1;
    }
    if keys.up && sel > 0 {
        sel = sel - 1;
    }
    if keys.confirm && n > 0 {
        let item_id: &str = ids[sel];
        assert(item_id@ == present_items(old(inventory).items@)[sel as int]);
        let data = lookup_item(items, item_id);
        let effect: &str = match data {
            Some(d) => d.effect.as_str(),
            None => "",
        };
        let val: i32 = match data {
            Some(d) => d.value,
            None => 0,
        };
        if same_text(effect, "heal") && inventory.use_item(item_id) {
            match player {
                Some(pc) => {
                    let raw = pc.current_hp + #[verifier::truncate] (val as u32);
                    pc.current_hp = if raw < pc.max_hp { raw } else { pc.max_hp };
                },
                None => {},
            }
        }
    }
    sel
}

/// The keys of the pause menu pressed during one frame (`up`: Up or Z,
/// `down`: Down or S, `confirm`: Enter or Space).
#[derive(Clone, Copy, Debug)]
pub struct PauseKeys {
    pub escape: bool,
    pub up: bool,
    pub down: bool,
    pub confirm: bool,
}

/// What the pause menu leads to.
#[derive(Clone, Copy, Debug, PartialEq, Eq, Structural)]
pub enum PauseAction {
    Stay { selected: usize },
    Close,
    OpenInventory,
    OpenCharacter,
    OpenMap,
    Save,
    OpenSettings,
}

/// The number of entries of the pause menu: inventory, character, map, save, settings.
pub const PAUSE_ENTRIES: usize = 5;

/// One frame of the pause menu: Escape closes it; otherwise one of up, down
/// or confirm (in that order of precedence) moves the selection or opens the
/// selected entry.
pub fn pause_menu_step(selected: usize, keys: PauseKeys) -> (action: PauseAction)
    ensures
        keys.escape ==> action == PauseAction::Close,
        !keys.escape && keys.up ==> action == (PauseAction::Stay {
            selected: if selected > 0 { (selected - 1) as usize } else { selected },
        }),
        !keys.escape && !keys.up && keys.down ==> action == (PauseAction::Stay {
            selected: if selected + 1 < 5 { (selected + 1) as usize } else { selected },
        }),
        !keys.escape && !keys.up && !keys.down && keys.confirm ==> action == (if selected == 0 {
            PauseAction::OpenInventory
        } else if selected == 1 {
            PauseAction::OpenCharacter
        } else if selected == 2 {
            PauseAction::OpenMap
        } else if selected == 3 {
            PauseAction::Save
        } else if selected == 4 {
            PauseAction::OpenSettings
        } else {
            PauseAction::Stay { selected }
        }),
        !keys.escape && !keys.up && !keys.down && !keys.confirm ==> action == (PauseAction::Stay { selected }),
{
    if keys.escape {
        PauseAction::Close
    } else if keys.up {
        PauseAction::Stay { selected: if selected > 0 { selected - 1 } else { selected } }
    } else if keys.down {
        PauseAction::Stay { selected: if selected < PAUSE_ENTRIES - 1 { selected + 1 } else { selected } }
    } else if keys.confirm {
        if selected == 0 {
            PauseAction::OpenInventory
        } else if selected == 1 {
            PauseAction::OpenCharacter
        } else if selected == 2 {
            PauseAction::OpenMap
        } else if selected == 3 {
            PauseAction::Save
        } else if selected == 4 {
            PauseAction::OpenSettings
        } else {
            PauseAction::Stay { selected }
        }
    } else {
        PauseAction::Stay { selected }
    }
}

/// The keys of the settings screen pressed during one frame.
#[derive(Clone, Copy, Debug)]
pub struct SettingsKeys {
    pub enter: bool,
    pub space: bool,
    pub escape: bool,
    pub up: bool,
    pub down: bool,
    pub yes: bool,
    pub no: bool,
}

/// What the settings screen leads to.
#[derive(Clone, Copy, Debug, PartialEq, Eq, Structural)]
pub enum SettingsAction {
    Stay { selected: usize, confirm_delete: bool },
    BackToMenu,
    DeleteSave,
}

/// One frame of the settings screen (entries: controls, delete save). While
/// a deletion is being confirmed, Enter or Y deletes and Escape or N cancels;
/// otherwise Escape goes back, up and down move, and Enter or Space on
/// "delete save" asks for confirmation.
pub fn settings_step(selected: usize, confirm_delete: bool, keys: SettingsKeys) -> (action: SettingsAction)
    ensures
        confirm_delete ==> action == (if keys.enter || keys.yes {
            SettingsAction::DeleteSave
        } else if keys.escape || keys.no {
            SettingsAction::Stay { selected, confirm_delete: false }
        } else {
            SettingsAction::Stay { selected, confirm_delete: true }
        }),
        !confirm_delete ==> action == (if keys.escape {
            SettingsAction::BackToMenu
        } else if keys.up {
            SettingsAction::Stay {
                selected: if selected > 0 { (selected - 1) as usize } else { selected },
                confirm_delete: false,
            }
        } else if keys.down {
            SettingsAction::Stay {
                selected: if selected + 1 < 2 { (selected + 1) as usize } else { selected },
                confirm_delete: false,
            }
        } else {
            SettingsAction::Stay { selected, confirm_delete: (keys.enter || keys.space) && selected == 1 }
        }),
{
    if confirm_delete {
        if keys.enter || keys.yes {
            SettingsAction::DeleteSave
        } else if keys.escape || keys.no {
            SettingsAction::Stay { selected, confirm_delete: false }
        } else {
            SettingsAction::Stay { selected, confirm_delete: true }
        }
    } else if keys.escape {
        SettingsAction::BackToMenu
    } else if keys.up {
        SettingsAction::Stay { selected: if selected > 0 { selected - 1 } else { selected }, confirm_delete: false }
    } else if keys.down {
        SettingsAction::Stay { selected: if selected < 1 { selected + 1 } else { selected }, confirm_delete: false }
    } else {
        SettingsAction::Stay { selected, confirm_delete: (keys.enter || keys.space) && selected == 1 }
    }
}

// ── Screens ───────────────────────────────────────────────────────────────

/// What the title screen leads to.
#[derive(Clone, Copy, Debug, PartialEq, Eq, Structural)]
pub enum TitleAction {
    Stay,
    Quit,
    ResumeSave,
    EnterName,
}

/// One frame of the title screen: Escape quits; Enter resumes the saved game
/// when there is one, else asks for the player's name.
pub fn title_step(has_save: bool, enter: bool, escape: bool) -> (a: TitleAction)
    ensures
        a == (if escape {
            TitleAction::Quit
        } else if enter {
            if has_save {
                TitleAction::ResumeSave
            } else {
                TitleAction::EnterName
            }
        } else {
            TitleAction::Stay
        }),
{
    if escape {
        TitleAction::Quit
    } else if enter {
        if has_save {
            TitleAction::ResumeSave
        } else {
            TitleAction::EnterName
        }
    } else {
        TitleAction::Stay
    }
}

/// The keys of the map screen pressed during one frame (`inventory`: I,
/// `save`: F5, `escape`: Escape, `talk`: Space).
#[derive(Clone, Copy, Debug)]
pub struct ExploreKeys {
    pub inventory: bool,
    pub save: bool,
    pub escape: bool,
    pub talk: bool,
}

/// The screen that follows a frame on the map.
pub enum ExploreScreen {
    Stay,
    WildBattle(CombatState),
    Inventory,
    Pause,
    Dialogue(usize),
}

/// What a frame on the map leads to: the next screen, and whether the game
/// is saved.
pub struct ExploreAction {
    pub next: ExploreScreen,
    pub save: bool,
}

/// One frame on the map, given the character standing in front of the
/// player (if any) and the wild battle that starts this frame (if any).
/// F5 saves. Talking to the character in front wins over Escape (pause),
/// which wins over I (inventory), which wins over the encounter.
pub fn explore_step(keys: ExploreKeys, npc_in_front: Option<usize>, encounter: Option<CombatState>) -> (a:
    ExploreAction)
    ensures
        a.save == keys.save,
        keys.talk && npc_in_front is Some ==> a.next == ExploreScreen::Dialogue(npc_in_front->0),
        !(keys.talk && npc_in_front is Some) && keys.escape ==> a.next is Pause,
        !(keys.talk && npc_in_front is Some) && !keys.escape && keys.inventory ==> a.next is Inventory,
        !(keys.talk && npc_in_front is Some) && !keys.escape && !keys.inventory ==> a.next == (match encounter {
            Some(c) => ExploreScreen::WildBattle(c),
            None => ExploreScreen::Stay,
        }),
{
    let next = if keys.talk && npc_in_front.is_some() {
        match npc_in_front {
            Some(i) => ExploreScreen::Dialogue(i),
            None => ExploreScreen::Stay,
        }
    } else if keys.escape {
        ExploreScreen::Pause
    } else if keys.inventory {
        ExploreScreen::Inventory
    } else {
        match encounter {
            Some(c) => ExploreScreen::WildBattle(c),
            None => ExploreScreen::Stay,
        }
    };
    ExploreAction { next, save: keys.save }
}

/// What a frame of dialogue leads to.
pub enum DialogueAction {
    Stay,
    Close,
    Battle(CombatState),
}

/// Advancing this dialogue now ends it and starts a battle: the current line
/// is the last and the character is an undefeated trainer.
pub open spec fn dialogue_triggers_battle(npc: NpcInstance) -> bool {
    npc.dialogue_index + 1 >= dialogue_lines(npc).len() && npc.data.is_trainer && !npc.defeated
}

/// Whether advancing this dialogue now starts a battle; see `dialogue_triggers_battle`.
pub fn triggers_battle(npc: &NpcInstance) -> (b: bool)
    ensures
        b == dialogue_triggers_battle(*npc),
{
    let n = npc.current_dialogue_lines().len();
    (n == 0 || npc.dialogue_index >= n - 1) && npc.data.is_trainer && !npc.defeated
}

/// Whether trainer `npc` can be fought; see `trainer_battle_ready`.
pub fn trainer_battle_within_bounds(npc: &NpcData, game_data: &GameData) -> (ok: bool)
    ensures
        ok == trainer_battle_ready(*npc, game_data.creatures@),
{
    match &npc.trainer_team {
        Some(team) => {
            if team.len() == 0 {
                return true;
            }
            match lookup_creature(&game_data.creatures, team[0].creature_id.as_str()) {
                Some(d) => stats_within(d, team[0].level),
                None => false,
            }
        },
        None => true,
    }
}

/// One frame of dialogue with `npc`. Escape stops the talk and closes the
/// dialogue. Space moves to the next line; after the last line the dialogue
/// closes, or an undefeated trainer starts a battle against the player's
/// creature (the dialogue stays open when there is no creature or no team).
pub fn dialogue_step(
    npc: &mut NpcInstance,
    escape: bool,
    space: bool,
    game_data: &GameData,
    player: &Option<CreatureInstance>,
) -> (a: DialogueAction)
    requires
        !escape && space && dialogue_triggers_battle(*old(npc)) && player is Some ==> trainer_battle_ready(
            old(npc).data,
            game_data.creatures@,
        ),
    ensures
        final(npc).data == old(npc).data,
        final(npc).defeated == old(npc).defeated,
        escape ==> a is Close && !final(npc).is_talking && final(npc).dialogue_index == old(npc).dialogue_index,
        !escape && !space ==> a is Stay && *final(npc) == *old(npc),
        !escape && space && old(npc).dialogue_index + 1 < dialogue_lines(*old(npc)).len() ==> {
            &&& a is Stay
            &&& final(npc).is_talking == old(npc).is_talking
            &&& final(npc).dialogue_index == old(npc).dialogue_index + 1
        },
        !escape && space && old(npc).dialogue_index + 1 >= dialogue_lines(*old(npc)).len() ==> {
            &&& !final(npc).is_talking
            &&& final(npc).dialogue_index == old(npc).dialogue_index
            &&& !dialogue_triggers_battle(*old(npc)) ==> a is Close
            &&& dialogue_triggers_battle(*old(npc)) ==> match a {
                DialogueAction::Battle(cs) => player is Some && trainer_battle_start(
                    cs@,
                    old(npc).data,
                    game_data.creatures@,
                    player->0,
                ),
                DialogueAction::Stay => player is None || trainer_lead(old(npc).data) is None,
                DialogueAction::Close => false,
            }
        },
{
    if escape {
        npc.is_talking = false;
        return DialogueAction::Close;
    }
    if !space {
        return DialogueAction::Stay;
    }
    match npc.advance_dialogue() {
        DialogueResult::Continue => DialogueAction::Stay,
        DialogueResult::Done => DialogueAction::Close,
        DialogueResult::TriggerBattle => match player {
            Some(pc) => match start_trainer_battle(&npc.data, game_data, pc) {
                Some(cs) => DialogueAction::Battle(cs),
                None => DialogueAction::Stay,
            },
            None => DialogueAction::Stay,
        },
    }
}

/// After a lost battle the player's creature gets its HP back in full and
/// the player starts again in the town, at tile (5, 4). Returns the map and
/// the tile.
pub fn game_over_respawn(c: &mut CreatureInstance) -> (t: (&'static str, i32, i32))
    ensures
        *final(c) == (CreatureInstance { current_hp: old(c).max_hp, ..*old(c) }),
        t.0@ == "town"@,
        t.1 == 5 && t.2 == 4,
{
    c.current_hp = c.max_hp;
    ("town", 5, 4)
}

/// The screens opened from the pause menu.
#[derive(Clone, Copy, Debug, PartialEq, Eq, Structural)]
pub enum PauseScreen {
    Inventory,
    Character,
    WorldMap,
    Settings,
}

/// Escape from a screen opened in the pause menu goes back to the menu with
/// that screen's entry selected.
pub fn pause_screen_back(screen: PauseScreen) -> (selected: usize)
    ensures
        selected == (match screen {
            PauseScreen::Inventory => 0usize,
            PauseScreen::Character => 1usize,
            PauseScreen::WorldMap => 2usize,
            PauseScreen::Settings => 4usize,
        }),
{
    match screen {
        PauseScreen::Inventory => 0,
        PauseScreen::Character => 1,
        PauseScreen::WorldMap => 2,
        PauseScreen::Settings => 4,
    }
}

// ── Laws of starting and ending battles ───────────────────────────────────

proof fn lemma_find_creature_id(creatures: Seq<CreatureData>, id: Seq<char>)
    ensures
        find_creature(creatures, id) matches Some(d) ==> d.id@ == id,
    decreases creatures.len(),
{
    if creatures.len() > 0 && creatures[0].id@ != id {
        lemma_find_creature_id(creatures.drop_first(), id);
    }
}

/// A trainer fights with the first creature of its team, whatever the
/// team's length: a battle is offered exactly when the team is not empty,
/// and its enemy is of the species and level of the team's first entry.
pub proof fn lemma_trainer_fights_with_first_creature(
    cs: CombatView,
    npc: NpcData,
    creatures: Seq<CreatureData>,
    player: CreatureInstance,
)
    ensures
        (trainer_lead(npc) is Some) == (npc.trainer_team matches Some(team) && team@.len() > 0),
        npc.trainer_team matches Some(team) && team@.len() > 0 && find_creature(creatures, team@[0].creature_id@) is Some
            && trainer_battle_start(cs, npc, creatures, player) ==> {
            let first = npc.trainer_team->0@[0];
            &&& cs.enemy.level == first.level
            &&& cs.enemy.data_id@ == first.creature_id@
            &&& is_fresh(cs.enemy, find_creature(creatures, first.creature_id@)->0, first.level)
        },
{
    if let Some(team) = npc.trainer_team {
        if team@.len() > 0 {
            lemma_find_creature_id(creatures, team@[0].creature_id@);
        }
    }
}

/// A Patch from the bag heals up to the maximum: confirming on a healing
/// item of value `v` (no arrow pressed) leaves the player's creature with
/// `hp + v` HP, or its maximum when `hp + v` reaches it, changes nothing else
/// of it, and takes one such item from the bag.
pub proof fn lemma_bag_heal(
    selected: usize,
    keys: MenuKeys,
    inv: Map<Seq<char>, u32>,
    items: Seq<ItemData>,
    c: CreatureInstance,
)
    requires
        keys.confirm && !keys.up && !keys.down,
        selected < present_items(inv).len(),
        item_effect(items, present_items(inv)[selected as int]) == "heal"@,
        item_value(items, present_items(inv)[selected as int]) >= 0,
        c.current_hp + item_value(items, present_items(inv)[selected as int]) <= u32::MAX,
    ensures
        ({
            let r = inventory_menu_result(selected, keys, inv, items, Some(c));
            let id = present_items(inv)[selected as int];
            let raw = c.current_hp + item_value(items, id);
            &&& r.0 == selected
            &&& r.1 == inv.insert(id, (inv[id] - 1) as u32)
            &&& r.2 matches Some(c2) && c2 == CreatureInstance {
                current_hp: (if raw < c.max_hp { raw } else { c.max_hp as int }) as u32,
                ..c
            }
        }),
{
    let pred = |x: Seq<char>| count_of(inv, x) > 0;
    item_order().lemma_filter_pred(pred, selected as int);
}

} // verus!
