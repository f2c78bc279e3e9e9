use vstd::prelude::*;

use crate::creature::clone_prefix;
use crate::text::same_text;

verus! {

/// An attack that a creature can learn.
#[derive(Clone, Debug)]
pub struct AttackData {
    pub id: String,
    pub name: String,
    pub description: String,
    pub power: u32,
    pub accuracy: u32,
    pub pp: u32,
    pub attack_type: String,
    pub category: String,
    pub effect: Option<String>,
    pub effect_value: Option<i32>,
    pub effect_duration: Option<u32>,
}

/// A creature species.
#[derive(Clone, Debug)]
pub struct CreatureData {
    pub id: String,
    pub name: String,
    pub creature_type: Vec<String>,
    pub description: String,
    pub base_hp: u32,
    pub base_attack: u32,
    pub base_defense: u32,
    pub base_speed: u32,
    pub catch_rate: u32,
    pub learnable_moves: Vec<String>,
    pub wild_levels: Vec<u32>,
}

/// An item kind.
#[derive(Clone, Debug)]
pub struct ItemData {
    pub id: String,
    pub name: String,
    pub description: String,
    pub effect: String,
    pub value: i32,
    pub price: u32,
}

/// One creature of a trainer's team.
#[derive(Clone, Debug)]
pub struct TrainerCreature {
    pub creature_id: String,
    pub level: u8,
}

/// A non-player character placed on a map.
#[derive(Clone, Debug)]
pub struct NpcData {
    pub id: String,
    pub name: String,
    pub tile_x: i32,
    pub tile_y: i32,
    pub map: String,
    pub is_trainer: bool,
    pub dialogue: Vec<String>,
    pub dialogue_defeated: Option<Vec<String>>,
    pub trainer_team: Option<Vec<TrainerCreature>>,
}

/// All the game's static data.
pub struct GameData {
    pub attacks: Vec<AttackData>,
    pub creatures: Vec<CreatureData>,
    pub items: Vec<ItemData>,
    pub npcs: Vec<NpcData>,
}

/// Two trainer teams hold the same values.
pub open spec fn same_team(a: Seq<TrainerCreature>, b: Seq<TrainerCreature>) -> bool {
    &&& a.len() == b.len()
    &&& forall|i: int| 0 <= i < a.len() ==> #[trigger] a[i].creature_id@ == b[i].creature_id@ && a[i].level == b[i].level
}

/// Two characters' data hold the same values.
pub open spec fn same_npc_data(a: NpcData, b: NpcData) -> bool {
    &&& a.id@ == b.id@
    &&& a.name@ == b.name@
    &&& a.tile_x == b.tile_x
    &&& a.tile_y == b.tile_y
    &&& a.map@ == b.map@
    &&& a.is_trainer == b.is_trainer
    &&& a.dialogue@ == b.dialogue@
    &&& (a.dialogue_defeated is Some) == (b.dialogue_defeated is Some)
    &&& a.dialogue_defeated is Some ==> a.dialogue_defeated->0@ == b.dialogue_defeated->0@
    &&& (a.trainer_team is Some) == (b.trainer_team is Some)
    &&& a.trainer_team is Some ==> same_team(a.trainer_team->0@, b.trainer_team->0@)
}

impl NpcData {
    /// A copy of this character's data.
    pub fn duplicate(&self) -> (d: NpcData)
        ensures
            same_npc_data(d, *self),
    {
        let dialogue = clone_prefix(self.dialogue.as_slice(), self.dialogue.len());
        assert(self.dialogue@.subrange(0, self.dialogue@.len() as int) =~= self.dialogue@);
        let dialogue_defeated = match &self.dialogue_defeated {
            Some(dl) => {
                assert(dl@.subrange(0, dl@.len() as int) =~= dl@);
                Some(clone_prefix(dl.as_slice(), dl.len()))
            },
            None => None,
        };
        let trainer_team = match &self.trainer_team {
            Some(team) => {
                let mut copy: Vec<TrainerCreature> = Vec::new();
                let n = team.len();
                let mut i: usize = 0;
                while i < n
                    invariant
                        n == team@.len(),
                        i <= n,
                        copy@.len() == i,
                        forall|j: int| 0 <= j < i ==> #[trigger] copy@[j].creature_id@ == team@[j].creature_id@
                            && copy@[j].level == team@[j].level,
                    decreases n - i,
                {
                    copy.push(TrainerCreature { creature_id: team[i].creature_id.clone(), level: team[i].level });
                    i = i + 1;
                }
                Some(copy)
            },
            None => None,
        };
        assert(dialogue_defeated is Some ==> dialogue_defeated->0@ == self.dialogue_defeated->0@);
        assert(trainer_team is Some ==> same_team(trainer_team->0@, self.trainer_team->0@));
        NpcData {
            id: self.id.clone(),
            name: self.name.clone(),
            tile_x: self.tile_x,
            tile_y: self.tile_y,
            map: self.map.clone(),
            is_trainer: self.is_trainer,
            dialogue,
            dialogue_defeated,
            trainer_team,
        }
    }
}

/// The first attack of `attacks` whose id is `id`.
pub open spec fn find_attack(attacks: Seq<AttackData>, id: Seq<char>) -> Option<AttackData>
    decreases attacks.len(),
{
    if attacks.len() == 0 {
        None
    } else if attacks[0].id@ == id {
        Some(attacks[0])
    } else {
        find_attack(attacks.drop_first(), id)
    }
}

/// The first species of `creatures` whose id is `id`.
pub open spec fn find_creature(creatures: Seq<CreatureData>, id: Seq<char>) -> Option<CreatureData>
    decreases creatures.len(),
{
    if creatures.len() == 0 {
        None
    } else if creatures[0].id@ == id {
        Some(creatures[0])
    } else {
        find_creature(creatures.drop_first(), id)
    }
}

/// The first item kind of `items` whose id is `id`.
pub open spec fn find_item(items: Seq<ItemData>, id: Seq<char>) -> Option<ItemData>
    decreases items.len(),
{
    if items.len() == 0 {
        None
    } else if items[0].id@ == id {
        Some(items[0])
    } else {
        find_item(items.drop_first(), id)
    }
}

/// Looks up an attack by id, the first one listed if several share it.
pub fn lookup_attack<'a>(attacks: &'a [AttackData], id: &str) -> (found: Option<&'a AttackData>)
    ensures
        match found {
            Some(a) => find_attack(attacks@, id@) == Some(*a),
            None => find_attack(attacks@, id@) is None,
        },
{
    let n = attacks.len();
    let mut i: usize = 0;
    assert(attacks@.subrange(0, n as int) =~= attacks@);
    while i < n
        invariant
            n == attacks@.len(),
            i <= n,
            find_attack(attacks@, id@) == find_attack(attacks@.subrange(i as int, n as int), id@),
        decreases n - i,
    {
        assert(attacks@.subrange(i as int, n as int).drop_first() =~= attacks@.subrange(
            i + 1,
            n as int,
        ));
        if same_text(attacks[i].id.as_str(), id) {
            return Some(&attacks[i]);
        }
        i = i + 1;
    }
    None
}

/// Looks up a species by id, the first one listed if several share it.
pub fn lookup_creature<'a>(creatures: &'a [CreatureData], id: &str) -> (found: Option<&'a CreatureData>)
    ensures
        match found {
            Some(c) => find_creature(creatures@, id@) == Some(*c),
            None => find_creature(creatures@, id@) is None,
        },
{
    let n = creatures.len();
    let mut i: usize = 0;
    assert(creatures@.subrange(0, n as int) =~= creatures@);
    while i < n
        invariant
            n == creatures@.len(),
            i <= n,
            find_creature(creatures@, id@) == find_creature(creatures@.subrange(i as int, n as int), id@),
        decreases n - i,
    {
        assert(creatures@.subrange(i as int, n as int).drop_first() =~= creatures@.subrange(
            i + 1,
            n as int,
        ));
        if same_text(creatures[i].id.as_str(), id) {
            return Some(&creatures[i]);
        }
        i = i + 1;
    }
    None
}

/// Looks up an item kind by id, the first one listed if several share it.
pub fn lookup_item<'a>(items: &'a [ItemData], id: &str) -> (found: Option<&'a ItemData>)
    ensures
        match found {
            Some(d) => find_item(items@, id@) == Some(*d),
            None => find_item(items@, id@) is None,
        },
{
    let n = items.len();
    let mut i: usize = 0;
    assert(items@.subrange(0, n as int) =~= items@);
    while i < n
        invariant
            n == items@.len(),
            i <= n,
            find_item(items@, id@) == find_item(items@.subrange(i as int, n as int), id@),
        decreases n - i,
    {
        assert(items@.subrange(i as int, n as int).drop_first() =~= items@.subrange(
            i + 1,
            n as int,
        ));
        if same_text(items[i].id.as_str(), id) {
            return Some(&items[i]);
        }
        i = i + 1;
    }
    None
}

impl GameData {
    /// The species with the given id. The id must be known: the game panics on an unknown one.
    pub fn get_creature(&self, id: &str) -> (c: &CreatureData)
        requires
            find_creature(self.creatures@, id@) is Some,
        ensures
            find_creature(self.creatures@, id@) == Some(*c),
    {
        let n = self.creatures.len();
        let mut i: usize = 0;
        assert(self.creatures@.subrange(0, n as int) =~= self.creatures@);
        while i < n
            invariant
                n == self.creatures@.len(),
                i <= n,
                find_creature(self.creatures@, id@) == find_creature(
                    self.creatures@.subrange(i as int, n as int),
                    id@,
                ),
            decreases n - i,
        {
            assert(self.creatures@.subrange(i as int, n as int).drop_first()
                =~= self.creatures@.subrange(i + 1, n as int));
            if same_text(self.creatures[i].id.as_str(), id) {
                return &self.creatures[i];
            }
            i = i + 1;
        }
        assert(self.creatures@.subrange(n as int, n as int).len() == 0);
        &self.creatures[0]
    }

    /// The attack with the given id. The id must be known: the game panics on an unknown one.
    pub fn get_attack(&self, id: &str) -> (a: &AttackData)
        requires
            find_attack(self.attacks@, id@) is Some,
        ensures
            find_attack(self.attacks@, id@) == Some(*a),
    {
        match lookup_attack(self.attacks.as_slice(), id) {
            Some(a) => a,
            None => {
                assert(false);
                &self.attacks[0]
            },
        }
    }

    /// The characters placed on the map `map_id`, in the order they are listed.
    pub fn get_npcs_for_map(&self, map_id: &str) -> (found: Vec<&NpcData>)
        ensures
            found@.map_values(|n: &NpcData| *n) == self.npcs@.filter(
                |n: NpcData| n.map@ == map_id@,
            ),
    {
        let mut found: Vec<&NpcData> = Vec::new();
        let n = self.npcs.len();
        let mut i: usize = 0;
        while i < n
            invariant
                n == self.npcs@.len(),
                i <= n,
                found@.map_values(|n: &NpcData| *n) == self.npcs@.subrange(0, i as int).filter(
                    |n: NpcData| n.map@ == map_id@,
                ),
            decreases n - i,
        {
            proof {
                reveal_with_fuel(Seq::<_>::filter, 1);
                assert(self.npcs@.subrange(0, i + 1).drop_last() =~= self.npcs@.subrange(
                    0,
                    i as int,
                ));
            }
            if same_text(self.npcs[i].map.as_str(), map_id) {
                found.push(&self.npcs[i]);
                assert(found@.map_values(|n: &NpcData| *n) =~= self.npcs@.subrange(0, i + 1).filter(
                    |n: NpcData| n.map@ == map_id@,
                ));
            } else {
                assert(found@.map_values(|n: &NpcData| *n) =~= self.npcs@.subrange(0, i + 1).filter(
                    |n: NpcData| n.map@ == map_id@,
                ));
            }
            i = i + 1;
        }
        assert(self.npcs@.subrange(0, n as int) =~= self.npcs@);
        found
    }
}

} // verus!
