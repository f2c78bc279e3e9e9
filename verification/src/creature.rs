use vstd::prelude::*;

use crate::data::CreatureData;

verus! {

/// A creature owned by the player or met in battle.
#[derive(Clone, Debug)]
pub struct CreatureInstance {
    pub data_id: String,
    pub name: String,
    pub level: u8,
    pub creature_type: Vec<String>,
    pub current_hp: u32,
    pub max_hp: u32,
    pub attack: u32,
    pub defense: u32,
    pub speed: u32,
    pub moves: Vec<String>,
    pub catch_rate: u32,
    pub defense_boost_turns: u8,
    pub speed_down_turns: u8,
}

/// Maximum HP at a level: `base * level / 50 + level + 10`.
pub open spec fn hp_at_level(base: u32, level: u8) -> int {
    (base * level) / 50 + level + 10
}

/// Attack, defense or speed at a level: `base * level / 50 + 5`.
pub open spec fn stat_at_level(base: u32, level: u8) -> int {
    (base * level) / 50 + 5
}

/// The number of moves a creature keeps from its learnable moves: at most four.
pub open spec fn kept_moves(n: nat) -> int {
    if n < 4 { n as int } else { 4 }
}

/// `c` is a fresh creature of species `data` at `level`: stats from the
/// level formulas, full HP, the first four learnable moves, no status.
pub open spec fn is_fresh(c: CreatureInstance, data: CreatureData, level: u8) -> bool {
    &&& c.data_id@ == data.id@
    &&& c.name@ == data.name@
    &&& c.level == level
    &&& c.creature_type@ == data.creature_type@
    &&& c.max_hp == hp_at_level(data.base_hp, level)
    &&& c.current_hp == c.max_hp
    &&& c.attack == stat_at_level(data.base_attack, level)
    &&& c.defense == stat_at_level(data.base_defense, level)
    &&& c.speed == stat_at_level(data.base_speed, level)
    &&& c.moves@ == data.learnable_moves@.subrange(0, kept_moves(data.learnable_moves@.len()))
    &&& c.catch_rate == data.catch_rate
    &&& c.defense_boost_turns == 0
    &&& c.speed_down_turns == 0
}

/// Machine limit of the stat formulas: the products fit in a `u32`.
pub open spec fn stats_fit(data: CreatureData, level: u8) -> bool {
    &&& data.base_hp * level <= u32::MAX
    &&& data.base_attack * level <= u32::MAX
    &&& data.base_defense * level <= u32::MAX
    &&& data.base_speed * level <= u32::MAX
}

/// Two creatures hold the same values.
pub open spec fn same_creature(a: CreatureInstance, b: CreatureInstance) -> bool {
    &&& a.data_id@ == b.data_id@
    &&& a.name@ == b.name@
    &&& a.level == b.level
    &&& a.creature_type@ == b.creature_type@
    &&& a.current_hp == b.current_hp
    &&& a.max_hp == b.max_hp
    &&& a.attack == b.attack
    &&& a.defense == b.defense
    &&& a.speed == b.speed
    &&& a.moves@ == b.moves@
    &&& a.catch_rate == b.catch_rate
    &&& a.defense_boost_turns == b.defense_boost_turns
    &&& a.speed_down_turns == b.speed_down_turns
}

/// `x * p` fits in a `u32` exactly when `x` is at most `u32::MAX / p`.
pub(crate) proof fn lemma_fits_by_division(x: u32, p: u32)
    requires
        p > 0,
    ensures
        (x <= u32::MAX / p) == (x * p <= u32::MAX),
{
    let q = (u32::MAX / p) as int;
    let r = (u32::MAX % p) as int;
    vstd::arithmetic::div_mod::lemma_fundamental_div_mod(u32::MAX as int, p as int);
    vstd::arithmetic::div_mod::lemma_mod_pos_bound(u32::MAX as int, p as int);
    assert(u32::MAX == p * q + r);
    if x <= q {
        vstd::arithmetic::mul::lemma_mul_inequality(x as int, q, p as int);
        assert(q * p == p * q) by (nonlinear_arith);
    } else {
        vstd::arithmetic::mul::lemma_mul_inequality(q + 1, x as int, p as int);
        assert((q + 1) * p == p * q + p) by (nonlinear_arith);
    }
}

/// Whether the stat formulas of species `data` fit in a `u32` at `level`.
pub fn stats_within(data: &CreatureData, level: u8) -> (ok: bool)
    ensures
        ok == stats_fit(*data, level),
{
    if level == 0 {
        assert(stats_fit(*data, level)) by (nonlinear_arith)
            requires
                level == 0,
        {
        }
        return true;
    }
    let lv = level as u32;
    proof {
        lemma_fits_by_division(data.base_hp, lv);
        lemma_fits_by_division(data.base_attack, lv);
        lemma_fits_by_division(data.base_defense, lv);
        lemma_fits_by_division(data.base_speed, lv);
    }
    data.base_hp <= u32::MAX / lv && data.base_attack <= u32::MAX / lv && data.base_defense <= u32::MAX / lv
        && data.base_speed <= u32::MAX / lv
}

/// Clones a list of strings, keeping its first `count` entries.
pub fn clone_prefix(v: &[String], count: usize) -> (r: Vec<String>)
    requires
        count <= v@.len(),
    ensures
        r@ == v@.subrange(0, count as int),
{
    let mut r: Vec<String> = Vec::new();
    let mut i: usize = 0;
    while i < count
        invariant
            i <= count <= v@.len(),
            r@ == v@.subrange(0, i as int),
        decreases count - i,
    {
        r.push(v[i].clone());
        assert(r@ =~= v@.subrange(0, i + 1));
        i = i + 1;
    }
    r
}

impl CreatureInstance {
    /// A fresh creature of species `data` at `level`: stats from the level
    /// formulas, full HP, the first four learnable moves and no status.
    pub fn from_data(data: &CreatureData, level: u8) -> (c: CreatureInstance)
        requires
            stats_fit(*data, level),
        ensures
            is_fresh(c, *data, level),
    {
        let lv = level as u32;
        let max_hp = (data.base_hp * lv) / 50 + lv + 10;
        let attack = (data.base_attack * lv) / 50 + 5;
        let defense = (data.base_defense * lv) / 50 + 5;
        let speed = (data.base_speed * lv) / 50 + 5;
        let n_moves = data.learnable_moves.len();
        let keep = if n_moves < 4 { n_moves } else { 4 };
        let moves = clone_prefix(data.learnable_moves.as_slice(), keep);
        let creature_type = clone_prefix(data.creature_type.as_slice(), data.creature_type.len());
        assert(data.creature_type@.subrange(0, data.creature_type@.len() as int) =~= data.creature_type@);

        CreatureInstance {
            data_id: data.id.clone(),
            name: data.name.clone(),
            level,
            creature_type,
            current_hp: max_hp,
            max_hp,
            attack,
            defense,
            speed,
            moves,
            catch_rate: data.catch_rate,
            defense_boost_turns: 0,
            speed_down_turns: 0,
        }
    }

    /// A copy of this creature.
    pub fn duplicate(&self) -> (c: CreatureInstance)
        ensures
            same_creature(c, *self),
    {
        assert(self.creature_type@.subrange(0, self.creature_type@.len() as int) =~= self.creature_type@);
        assert(self.moves@.subrange(0, self.moves@.len() as int) =~= self.moves@);
        CreatureInstance {
            data_id: self.data_id.clone(),
            name: self.name.clone(),
            level: self.level,
            creature_type: clone_prefix(self.creature_type.as_slice(), self.creature_type.len()),
            current_hp: self.current_hp,
            max_hp: self.max_hp,
            attack: self.attack,
            defense: self.defense,
            speed: self.speed,
            moves: clone_prefix(self.moves.as_slice(), self.moves.len()),
            catch_rate: self.catch_rate,
            defense_boost_turns: self.defense_boost_turns,
            speed_down_turns: self.speed_down_turns,
        }
    }

    /// A creature is knocked out when its HP reaches zero.
    pub fn is_fainted(&self) -> (fainted: bool)
        ensures
            fainted == (self.current_hp == 0),
    {
        self.current_hp == 0
    }
}

/// The stats of a fresh creature, from its own species' base stats: HP
/// `base_hp * level / 50 + level + 10` (and full), attack, defense and speed
/// each `base * level / 50 + 5` from the matching base stat, the first
/// (at most four) learnable moves.
pub proof fn lemma_fresh_stats(c: CreatureInstance, data: CreatureData, level: u8)
    requires
        is_fresh(c, data, level),
    ensures
        c.max_hp == (data.base_hp * level) / 50 + level + 10,
        c.current_hp == c.max_hp,
        c.attack == (data.base_attack * level) / 50 + 5,
        c.defense == (data.base_defense * level) / 50 + 5,
        c.speed == (data.base_speed * level) / 50 + 5,
        c.moves@.len() == (if data.learnable_moves@.len() < 4 { data.learnable_moves@.len() as int } else { 4 }),
        forall|i: int| 0 <= i < c.moves@.len() ==> #[trigger] c.moves@[i] == data.learnable_moves@[i],
        c.data_id@ == data.id@ && c.name@ == data.name@ && c.level == level,
        c.catch_rate == data.catch_rate,
        c.defense_boost_turns == 0 && c.speed_down_turns == 0,
{
}

/// Each stat of a fresh creature depends on the matching base stat alone:
/// two species with the same base HP (attack, defense, speed) give creatures
/// with the same HP (attack, defense, speed) at a level, and a greater base
/// gives a stat at least as great.
pub proof fn lemma_fresh_stats_follow_their_base(
    c1: CreatureInstance,
    d1: CreatureData,
    c2: CreatureInstance,
    d2: CreatureData,
    level: u8,
)
    requires
        is_fresh(c1, d1, level),
        is_fresh(c2, d2, level),
    ensures
        d1.base_hp <= d2.base_hp ==> c1.max_hp <= c2.max_hp,
        d1.base_attack <= d2.base_attack ==> c1.attack <= c2.attack,
        d1.base_defense <= d2.base_defense ==> c1.defense <= c2.defense,
        d1.base_speed <= d2.base_speed ==> c1.speed <= c2.speed,
        d1.base_hp == d2.base_hp ==> c1.max_hp == c2.max_hp,
        d1.base_attack == d2.base_attack ==> c1.attack == c2.attack,
        d1.base_defense == d2.base_defense ==> c1.defense == c2.defense,
        d1.base_speed == d2.base_speed ==> c1.speed == c2.speed,
{
    lemma_base_order(d1.base_hp, d2.base_hp, level);
    lemma_base_order(d1.base_attack, d2.base_attack, level);
    lemma_base_order(d1.base_defense, d2.base_defense, level);
    lemma_base_order(d1.base_speed, d2.base_speed, level);
}

proof fn lemma_base_order(b1: u32, b2: u32, level: u8)
    ensures
        b1 <= b2 ==> (b1 * level) / 50 <= (b2 * level) / 50,
{
    if b1 <= b2 {
        vstd::arithmetic::mul::lemma_mul_inequality(b1 as int, b2 as int, level as int);
        vstd::arithmetic::div_mod::lemma_div_is_ordered(b1 * level, b2 * level, 50);
    }
}

} // verus!
