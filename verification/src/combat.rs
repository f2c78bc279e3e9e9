use vstd::prelude::*;

use crate::creature::{lemma_fits_by_division, CreatureInstance};
use crate::data::{find_attack, find_item, lookup_attack, lookup_item, AttackData, ItemData};
use crate::dice::random_below;
use crate::inventory::{count_of, item_order, Inventory};
use crate::text::{decimal, push_decimal, push_signed_decimal, same_text, signed_decimal};

verus! {

/// Effective defense used by the damage formula: boosted defense is 130%,
/// rounded down, and never less than 1.
pub open spec fn effective_defense(def: u32, def_boost: bool) -> int {
    let mult: int = if def_boost { 130 } else { 100 };
    let raw = (def * mult) / 100;
    if raw < 1 { 1 } else { raw }
}

/// The damage formula: `(atk * power) / (effective_defense * 2) + 2`, at least 1.
pub open spec fn damage_formula(atk: u32, power: u32, def: u32, def_boost: bool) -> int {
    let d = (atk * power) / (effective_defense(def, def_boost) * 2) + 2;
    if d < 1 { 1 } else { d }
}

/// Machine limit of the damage formula: its products fit in a `u32`.
pub open spec fn damage_fits(atk: u32, power: u32, def: u32, def_boost: bool) -> bool {
    &&& atk * power <= u32::MAX
    &&& def * (if def_boost { 130int } else { 100int }) <= u32::MAX
}

/// Damage dealt by an attack of `power` from an attacker with attack `atk`
/// on a defender with defense `def`; a defense boost multiplies the defense by 1.3.
pub fn calculate_damage(atk: u32, power: u32, def: u32, def_boost: bool) -> (damage: u32)
    requires
        damage_fits(atk, power, def, def_boost),
    ensures
        damage == damage_formula(atk, power, def, def_boost),
        damage >= 2,
{
    let def_mult: u32 = if def_boost { 130 } else { 100 };
    let scaled = def * def_mult;
    let mut eff_defense = scaled / 100;
    if eff_defense < 1 {
        eff_defense = 1;
    }
    assert(eff_defense <= 42949672);
    let product = atk * power;
    proof {
        vstd::arithmetic::div_mod::lemma_div_is_ordered_by_denominator(
            product as int,
            2,
            (eff_defense * 2) as int,
        );
        assert(product as int / 2 <= u32::MAX / 2);
    }
    let mut damage = product / (eff_defense * 2) + 2;
    if damage < 1 {
        damage = 1;
    }
    damage
}

/// A defense boost never increases the damage taken.
pub proof fn lemma_defense_boost_never_increases_damage(atk: u32, power: u32, def: u32)
    ensures
        damage_formula(atk, power, def, true) <= damage_formula(atk, power, def, false),
{
    vstd::arithmetic::div_mod::lemma_div_is_ordered(def * 100int, def * 130int, 100);
    let lo = effective_defense(def, false);
    let hi = effective_defense(def, true);
    assert(lo <= hi);
    vstd::arithmetic::div_mod::lemma_div_is_ordered_by_denominator(
        atk * power,
        lo * 2,
        hi * 2,
    );
}

/// Damage grows with the attacker's attack stat and the attack's power, and
/// shrinks as the defender's defense grows.
pub proof fn lemma_damage_monotonic(
    atk1: u32, atk2: u32, power1: u32, power2: u32, def1: u32, def2: u32, def_boost: bool,
)
    requires
        atk1 <= atk2,
        power1 <= power2,
        def2 <= def1,
    ensures
        damage_formula(atk1, power1, def1, def_boost) <= damage_formula(atk2, power2, def2, def_boost),
{
    let mult: int = if def_boost { 130 } else { 100 };
    vstd::arithmetic::mul::lemma_mul_inequality(def2 as int, def1 as int, mult);
    vstd::arithmetic::div_mod::lemma_div_is_ordered(def2 * mult, def1 * mult, 100);
    let e1 = effective_defense(def1, def_boost);
    let e2 = effective_defense(def2, def_boost);
    assert(e2 <= e1);
    vstd::arithmetic::mul::lemma_mul_inequality(atk1 as int, atk2 as int, power1 as int);
    if atk2 == 0 {
        assert(atk2 * power1 == 0 && atk2 * power2 == 0) by (nonlinear_arith)
            requires atk2 == 0;
    } else {
        vstd::arithmetic::mul::lemma_mul_left_inequality(atk2 as int, power1 as int, power2 as int);
    }
    assert(atk1 * power1 <= atk2 * power2);
    vstd::arithmetic::div_mod::lemma_div_is_ordered(atk1 * power1, atk2 * power2, e1 * 2);
    vstd::arithmetic::div_mod::lemma_div_is_ordered_by_denominator(atk2 * power2, e2 * 2, e1 * 2);
}

// ── Phases, outcomes, input ───────────────────────────────────────────────

/// The phase of a battle turn.
#[derive(Clone, Copy, Debug, PartialEq, Eq, Structural)]
pub enum TurnPhase {
    PlayerChoose,
    ItemMenu { selected: usize },
    ShowResult,
    Victory,
    Defeat,
}

/// What a battle step tells the game.
#[derive(Clone, Debug)]
pub enum CombatOutcome {
    Ongoing,
    Exit { final_player_hp: u32, victory: bool },
    Captured { final_player_hp: u32, captured_name: String },
}

/// A battle outcome with its strings taken as character sequences.
pub enum OutcomeView {
    Ongoing,
    Exit { final_player_hp: u32, victory: bool },
    Captured { final_player_hp: u32, captured_name: Seq<char> },
}

impl View for CombatOutcome {
    type V = OutcomeView;

    open spec fn view(&self) -> OutcomeView {
        match self {
            CombatOutcome::Ongoing => OutcomeView::Ongoing,
            CombatOutcome::Exit { final_player_hp, victory } => OutcomeView::Exit {
                final_player_hp: *final_player_hp,
                victory: *victory,
            },
            CombatOutcome::Captured { final_player_hp, captured_name } => OutcomeView::Captured {
                final_player_hp: *final_player_hp,
                captured_name: captured_name@,
            },
        }
    }
}

/// The keys pressed during one frame of a battle; each stands for the
/// arrow key and its letter alias (`left`: Left or A, `right`: Right or D,
/// `up`: Up or W, `down`: Down or S, `confirm`: Space or Enter, `escape`: Escape).
#[derive(Clone, Copy, Debug)]
pub struct CombatKeys {
    pub left: bool,
    pub right: bool,
    pub up: bool,
    pub down: bool,
    pub confirm: bool,
    pub escape: bool,
}

/// The random draws a battle step may use: the index of the enemy's move
/// and the capture roll (in `0..255`; the capture succeeds when it is below
/// the enemy's catch rate, a chance of catch_rate/255).
#[derive(Clone, Copy, Debug)]
pub struct CombatRolls {
    pub enemy_move: usize,
    pub capture: u32,
}

/// A battle in progress.
pub struct CombatState {
    pub player_creature: CreatureInstance,
    pub enemy_creature: CreatureInstance,
    pub is_trainer_battle: bool,
    pub trainer_name: Option<String>,
    pub trainer_defeat_quote: Option<String>,
    pub turn: TurnPhase,
    pub log: Vec<String>,
    pub selected_move: usize,
}

/// A battle with its strings taken as character sequences.
pub struct CombatView {
    pub player: CreatureInstance,
    pub enemy: CreatureInstance,
    pub is_trainer_battle: bool,
    pub trainer_name: Option<Seq<char>>,
    pub trainer_defeat_quote: Option<Seq<char>>,
    pub turn: TurnPhase,
    pub log: Seq<Seq<char>>,
    pub selected_move: usize,
}

/// The characters of an optional string.
pub open spec fn opt_text(o: Option<String>) -> Option<Seq<char>> {
    match o {
        Some(s) => Some(s@),
        None => None,
    }
}

/// The characters of each string of a list.
pub open spec fn texts(v: Seq<String>) -> Seq<Seq<char>> {
    v.map_values(|s: String| s@)
}

impl View for CombatState {
    type V = CombatView;

    open spec fn view(&self) -> CombatView {
        CombatView {
            player: self.player_creature,
            enemy: self.enemy_creature,
            is_trainer_battle: self.is_trainer_battle,
            trainer_name: opt_text(self.trainer_name),
            trainer_defeat_quote: opt_text(self.trainer_defeat_quote),
            turn: self.turn,
            log: texts(self.log@),
            selected_move: self.selected_move,
        }
    }
}

// ── Battle log messages ───────────────────────────────────────────────────

pub open spec fn msg_uses(attacker: Seq<char>, move_name: Seq<char>) -> Seq<char> {
    attacker + " utilise "@ + move_name + " !"@
}

pub open spec fn msg_loses(defender: Seq<char>, damage: nat) -> Seq<char> {
    defender + " perd "@ + decimal(damage) + " PV !"@
}

pub open spec fn msg_guard(attacker: Seq<char>) -> Seq<char> {
    attacker + " active son Guardrail !"@
}

pub open spec fn msg_slowed(defender: Seq<char>) -> Seq<char> {
    defender + " est ralenti par Trend Effect !"@
}

pub open spec fn msg_ko(name: Seq<char>) -> Seq<char> {
    name + " est K.O. !"@
}

pub open spec fn msg_no_capture() -> Seq<char> {
    "Ça ne fonctionne pas en combat de dresseur !"@
}

pub open spec fn msg_healed(name: Seq<char>, value: i32) -> Seq<char> {
    "Patch appliqué ! "@ + name + " récupère "@ + signed_decimal(value as int) + " HP."@
}

pub open spec fn msg_caught(name: Seq<char>) -> Seq<char> {
    "CTF réussi ! Tu as capturé "@ + name + " !"@
}

pub open spec fn msg_escaped(name: Seq<char>) -> Seq<char> {
    "CTF échoué ! "@ + name + " s'est échappé !"@
}

pub open spec fn msg_out_of(item_name: Seq<char>) -> Seq<char> {
    "Plus de "@ + item_name + " !"@
}

fn text_uses(attacker: &str, move_name: &str) -> (m: String)
    ensures
        m@ == msg_uses(attacker@, move_name@),
{
    let mut m = attacker.to_owned();
    m.append(" utilise ");
    m.append(move_name);
    m.append(" !");
    m
}

fn text_loses(defender: &str, damage: u32) -> (m: String)
    ensures
        m@ == msg_loses(defender@, damage as nat),
{
    let mut m = defender.to_owned();
    m.append(" perd ");
    push_decimal(&mut m, damage);
    m.append(" PV !");
    m
}

fn text_guard(attacker: &str) -> (m: String)
    ensures
        m@ == msg_guard(attacker@),
{
    let mut m = attacker.to_owned();
    m.append(" active son Guardrail !");
    m
}

fn text_slowed(defender: &str) -> (m: String)
    ensures
        m@ == msg_slowed(defender@),
{
    let mut m = defender.to_owned();
    m.append(" est ralenti par Trend Effect !");
    m
}

fn text_ko(name: &str) -> (m: String)
    ensures
        m@ == msg_ko(name@),
{
    let mut m = name.to_owned();
    m.append(" est K.O. !");
    m
}

fn text_no_capture() -> (m: String)
    ensures
        m@ == msg_no_capture(),
{
    "Ça ne fonctionne pas en combat de dresseur !".to_owned()
}

fn text_healed(name: &str, value: i32) -> (m: String)
    ensures
        m@ == msg_healed(name@, value),
{
    let mut m = "Patch appliqué ! ".to_owned();
    m.append(name);
    m.append(" récupère ");
    push_signed_decimal(&mut m, value);
    m.append(" HP.");
    m
}

fn text_caught(name: &str) -> (m: String)
    ensures
        m@ == msg_caught(name@),
{
    let mut m = "CTF réussi ! Tu as capturé ".to_owned();
    m.append(name);
    m.append(" !");
    m
}

fn text_escaped(name: &str) -> (m: String)
    ensures
        m@ == msg_escaped(name@),
{
    let mut m = "CTF échoué ! ".to_owned();
    m.append(name);
    m.append(" s'est échappé !");
    m
}

fn text_out_of(item_name: &str) -> (m: String)
    ensures
        m@ == msg_out_of(item_name@),
{
    let mut m = "Plus de ".to_owned();
    m.append(item_name);
    m.append(" !");
    m
}

// ── One attack ────────────────────────────────────────────────────────────

/// The HP left after losing `damage`, never below zero.
pub open spec fn hp_after(hp: u32, damage: int) -> u32 {
    if hp >= damage { (hp - damage) as u32 } else { 0 }
}

/// The attacker (`by_player`: the player's creature) and the defender.
pub open spec fn attacker_of(v: CombatView, by_player: bool) -> CreatureInstance {
    if by_player { v.player } else { v.enemy }
}

pub open spec fn defender_of(v: CombatView, by_player: bool) -> CreatureInstance {
    if by_player { v.enemy } else { v.player }
}

/// The battle with the defender (of an attack by `by_player`) replaced.
pub open spec fn with_defender(v: CombatView, by_player: bool, c: CreatureInstance) -> CombatView {
    if by_player { CombatView { enemy: c, ..v } } else { CombatView { player: c, ..v } }
}

/// The battle with the attacker (of an attack by `by_player`) replaced.
pub open spec fn with_attacker(v: CombatView, by_player: bool, c: CreatureInstance) -> CombatView {
    if by_player { CombatView { player: c, ..v } } else { CombatView { enemy: c, ..v } }
}

/// How many turns a status effect of `a` lasts: its duration, 3 when unset, as a `u8`.
pub open spec fn effect_turns(a: AttackData) -> u8 {
    (match a.effect_duration {
        Some(d) => d,
        None => 3u32,
    }) as u8
}

/// The status effect of attack `a`: a defense boost on the attacker or a
/// slowdown of the defender, each with a log line; other effects do nothing.
pub open spec fn after_effect(v: CombatView, by_player: bool, a: AttackData) -> CombatView {
    let att = attacker_of(v, by_player);
    let def = defender_of(v, by_player);
    match a.effect {
        Some(e) => if e@ == "defense_boost"@ {
            let w = with_attacker(v, by_player, CreatureInstance { defense_boost_turns: effect_turns(a), ..att });
            CombatView { log: w.log.push(msg_guard(att.name@)), ..w }
        } else if e@ == "speed_down"@ {
            let w = with_defender(v, by_player, CreatureInstance { speed_down_turns: effect_turns(a), ..def });
            CombatView { log: w.log.push(msg_slowed(def.name@)), ..w }
        } else {
            v
        },
        None => v,
    }
}

/// The damage that attack `a` deals in battle `v` when `by_player` attacks.
pub open spec fn attack_damage(v: CombatView, by_player: bool, a: AttackData) -> int {
    let att = attacker_of(v, by_player);
    let def = defender_of(v, by_player);
    damage_formula(att.attack, a.power, def.defense, def.defense_boost_turns > 0)
}

/// The battle after the move `move_id` is used (`by_player`: by the player's
/// creature): the log names the move (by its name when the attack is known,
/// else by its id); a known attack with power deals its damage and logs it;
/// then its status effect applies.
pub open spec fn after_attack(v: CombatView, by_player: bool, move_id: Seq<char>, attacks: Seq<AttackData>) -> CombatView {
    let att = attacker_of(v, by_player);
    let def = defender_of(v, by_player);
    let found = find_attack(attacks, move_id);
    let move_name = match found {
        Some(a) => a.name@,
        None => move_id,
    };
    let v1 = CombatView { log: v.log.push(msg_uses(att.name@, move_name)), ..v };
    match found {
        None => v1,
        Some(a) => {
            let v2 = if a.power > 0 {
                let dmg = attack_damage(v, by_player, a);
                let hit = with_defender(v1, by_player, CreatureInstance { current_hp: hp_after(def.current_hp, dmg), ..def });
                CombatView { log: v1.log.push(msg_loses(def.name@, dmg as nat)), ..hit }
            } else {
                v1
            };
            after_effect(v2, by_player, a)
        },
    }
}

/// The HP of the creature that an attack by `by_player` targets.
pub open spec fn target_hp(v: CombatView, by_player: bool) -> u32 {
    defender_of(v, by_player).current_hp
}

/// The attack can be computed without overflow.
pub open spec fn attack_fits(v: CombatView, by_player: bool, move_id: Seq<char>, attacks: Seq<AttackData>) -> bool {
    match find_attack(attacks, move_id) {
        Some(a) => a.power > 0 ==> damage_fits(
            attacker_of(v, by_player).attack,
            a.power,
            defender_of(v, by_player).defense,
            defender_of(v, by_player).defense_boost_turns > 0,
        ),
        None => true,
    }
}

impl CombatState {
    /// A battle between the player's creature and an enemy, starting at the
    /// move choice with an empty log.
    pub fn new(
        player: CreatureInstance,
        enemy: CreatureInstance,
        is_trainer: bool,
        trainer_name: Option<String>,
    ) -> (c: CombatState)
        ensures
            c@ == (CombatView {
                player,
                enemy,
                is_trainer_battle: is_trainer,
                trainer_name: opt_text(trainer_name),
                trainer_defeat_quote: None,
                turn: TurnPhase::PlayerChoose,
                log: Seq::empty(),
                selected_move: 0,
            }),
    {
        let c = CombatState {
            player_creature: player,
            enemy_creature: enemy,
            is_trainer_battle: is_trainer,
            trainer_name,
            trainer_defeat_quote: None,
            turn: TurnPhase::PlayerChoose,
            log: Vec::new(),
            selected_move: 0,
        };
        assert(c@.log =~= Seq::<Seq<char>>::empty());
        c
    }

    fn push_log(&mut self, m: String)
        ensures
            final(self)@ == (CombatView { log: old(self)@.log.push(m@), ..old(self)@ }),
    {
        self.log.push(m);
        assert(texts(self.log@) =~= texts(old(self).log@).push(m@));
    }

    /// One attack; returns whether its target is knocked out.
    fn apply_attack(&mut self, player_attacks: bool, move_id: &str, attacks: &[AttackData]) -> (ko: bool)
        requires
            attack_fits(old(self)@, player_attacks, move_id@, attacks@),
        ensures
            final(self)@ == after_attack(old(self)@, player_attacks, move_id@, attacks@),
            ko == (target_hp(final(self)@, player_attacks) == 0),
    {
        let ghost v = self@;
        let (atk_name, def_name, atk_stat, def_stat, def_boost) = if player_attacks {
            (
                self.player_creature.name.clone(),
                self.enemy_creature.name.clone(),
                self.player_creature.attack,
                self.enemy_creature.defense,
                self.enemy_creature.defense_boost_turns,
            )
        } else {
            (
                self.enemy_creature.name.clone(),
                self.player_creature.name.clone(),
                self.enemy_creature.attack,
                self.player_creature.defense,
                self.player_creature.defense_boost_turns,
            )
        };
        let atk_data = lookup_attack(attacks, move_id);
        let move_name: &str = match atk_data {
            Some(a) => a.name.as_str(),
            None => move_id,
        };
        self.push_log(text_uses(atk_name.as_str(), move_name));
        let ghost v1 = self@;
        if let Some(atk) = atk_data {
            if atk.power > 0 {
                let damage = calculate_damage(atk_stat, atk.power, def_stat, def_boost > 0);
                if player_attacks {
                    self.enemy_creature.current_hp = self.enemy_creature.current_hp.saturating_sub(damage);
                } else {
                    self.player_creature.current_hp = self.player_creature.current_hp.saturating_sub(damage);
                }
                self.push_log(text_loses(def_name.as_str(), damage));
            }
            let ghost v2 = self@;
            match &atk.effect {
                Some(effect) => {
                    let duration = match atk.effect_duration {
                        Some(d) => d,
                        None => 3,
                    } as u8;
                    if same_text(effect.as_str(), "defense_boost") {
                        if player_attacks {
                            self.player_creature.defense_boost_turns = duration;
                        } else {
                            self.enemy_creature.defense_boost_turns = duration;
                        }
                        self.push_log(text_guard(atk_name.as_str()));
                    } else if same_text(effect.as_str(), "speed_down") {
                        if player_attacks {
                            self.enemy_creature.speed_down_turns = duration;
                        } else {
                            self.player_creature.speed_down_turns = duration;
                        }
                        self.push_log(text_slowed(def_name.as_str()));
                    }
                },
                None => {},
            }
        }
        if player_attacks {
            self.enemy_creature.current_hp == 0
        } else {
            self.player_creature.current_hp == 0
        }
    }
}


// ── A full turn ───────────────────────────────────────────────────────────

/// The battle log gets a knock-out line for the creature that the attack of
/// `by_player` knocked out, and the battle ends in victory or defeat.
pub open spec fn knocked_out(w: CombatView, by_player: bool) -> CombatView {
    CombatView {
        log: w.log.push(msg_ko(defender_of(w, by_player).name@)),
        turn: if by_player { TurnPhase::Victory } else { TurnPhase::Defeat },
        ..w
    }
}

/// A status counter one turn later.
pub open spec fn tick(n: u8) -> u8 {
    if n > 0 { (n - 1) as u8 } else { 0 }
}

/// A creature with both status counters one turn later.
pub open spec fn tick_statuses(c: CreatureInstance) -> CreatureInstance {
    CreatureInstance {
        defense_boost_turns: tick(c.defense_boost_turns),
        speed_down_turns: tick(c.speed_down_turns),
        ..c
    }
}

/// A creature's speed for the initiative: 70% (rounded down) while slowed.
pub open spec fn effective_speed(c: CreatureInstance) -> int {
    if c.speed_down_turns > 0 { (c.speed * 70) / 100 } else { c.speed as int }
}

/// The faster creature strikes first, each side's speed taken while slowed
/// at 70%; on a tie the player's creature strikes first.
pub open spec fn player_first(v: CombatView) -> bool {
    effective_speed(v.player) >= effective_speed(v.enemy)
}

/// A full exchange: the player's selected move and the enemy's move number
/// `pick`, in initiative order. A knock-out ends the turn at once; otherwise
/// all status counters tick down and the result is shown. Nothing happens
/// when either creature has no move.
pub open spec fn turn_result(v: CombatView, attacks: Seq<AttackData>, pick: int) -> CombatView {
    if v.player.moves.len() == 0 || v.enemy.moves.len() == 0 {
        v
    } else {
        let pm = v.player.moves[v.selected_move as int]@;
        let em = v.enemy.moves[pick]@;
        let pf = player_first(v);
        let first = if pf { pm } else { em };
        let second = if pf { em } else { pm };
        let v1 = after_attack(v, pf, first, attacks);
        if target_hp(v1, pf) == 0 {
            knocked_out(v1, pf)
        } else {
            let v2 = after_attack(v1, !pf, second, attacks);
            if target_hp(v2, !pf) == 0 {
                knocked_out(v2, !pf)
            } else {
                CombatView {
                    player: tick_statuses(v2.player),
                    enemy: tick_statuses(v2.enemy),
                    turn: TurnPhase::ShowResult,
                    ..v2
                }
            }
        }
    }
}

/// The exchange can be computed: the moves exist and nothing overflows.
pub open spec fn turn_fits(v: CombatView, attacks: Seq<AttackData>, pick: int) -> bool {
    v.player.moves.len() > 0 && v.enemy.moves.len() > 0 ==> {
        let pm = v.player.moves[v.selected_move as int]@;
        let em = v.enemy.moves[pick]@;
        let pf = player_first(v);
        let first = if pf { pm } else { em };
        let second = if pf { em } else { pm };
        let v1 = after_attack(v, pf, first, attacks);
        &&& v.selected_move < v.player.moves.len()
        &&& 0 <= pick < v.enemy.moves.len()
        &&& v.enemy.speed_down_turns > 0 ==> v.enemy.speed * 70 <= u32::MAX
        &&& v.player.speed_down_turns > 0 ==> v.player.speed * 70 <= u32::MAX
        &&& attack_fits(v, pf, first, attacks)
        &&& target_hp(v1, pf) != 0 ==> attack_fits(v1, !pf, second, attacks)
    }
}

/// The enemy's reply after the player used an item: its move number `pick`,
/// then the result is shown, or the battle is lost on a knock-out.
pub open spec fn counter_result(v: CombatView, attacks: Seq<AttackData>, pick: int) -> CombatView {
    if v.enemy.moves.len() > 0 {
        let v1 = after_attack(v, false, v.enemy.moves[pick]@, attacks);
        if v1.player.current_hp == 0 {
            knocked_out(v1, false)
        } else {
            CombatView { turn: TurnPhase::ShowResult, ..v1 }
        }
    } else {
        CombatView { turn: TurnPhase::ShowResult, ..v }
    }
}

pub open spec fn counter_fits(v: CombatView, attacks: Seq<AttackData>, pick: int) -> bool {
    v.enemy.moves.len() > 0 ==> 0 <= pick < v.enemy.moves.len() && attack_fits(
        v,
        false,
        v.enemy.moves[pick]@,
        attacks,
    )
}


impl CombatState {
    /// The player's creature and the enemy exchange attacks; see `turn_result`.
    fn execute_turn_with(&mut self, attacks: &[AttackData], pick: usize)
        requires
            turn_fits(old(self)@, attacks@, pick as int),
        ensures
            final(self)@ == turn_result(old(self)@, attacks@, pick as int),
    {
        let n_enemy = self.enemy_creature.moves.len();
        if self.player_creature.moves.len() == 0 || n_enemy == 0 {
            return;
        }
        let player_name = self.player_creature.name.clone();
        let enemy_name = self.enemy_creature.name.clone();
        let player_move = self.player_creature.moves[self.selected_move].clone();
        let enemy_move = self.enemy_creature.moves[pick].clone();

        let eff_player_speed = if self.player_creature.speed_down_turns > 0 {
            self.player_creature.speed * 70 / 100
        } else {
            self.player_creature.speed
        };
        let eff_enemy_speed = if self.enemy_creature.speed_down_turns > 0 {
            self.enemy_creature.speed * 70 / 100
        } else {
            self.enemy_creature.speed
        };
        let player_first = eff_player_speed >= eff_enemy_speed;
        let (first_by_player, first_move, second_by_player, second_move) = if player_first {
            (true, player_move.clone(), false, enemy_move.clone())
        } else {
            (false, enemy_move.clone(), true, player_move.clone())
        };

        if self.apply_attack(first_by_player, first_move.as_str(), attacks) {
            let ko = if first_by_player { &enemy_name } else { &player_name };
            self.push_log(text_ko(ko.as_str()));
            self.turn = if first_by_player { TurnPhase::Victory } else { TurnPhase::Defeat };
            return;
        }
        if self.apply_attack(second_by_player, second_move.as_str(), attacks) {
            let ko = if second_by_player { &enemy_name } else { &player_name };
            self.push_log(text_ko(ko.as_str()));
            self.turn = if second_by_player { TurnPhase::Victory } else { TurnPhase::Defeat };
            return;
        }
        if self.player_creature.defense_boost_turns > 0 {
            self.player_creature.defense_boost_turns = self.player_creature.defense_boost_turns - 1;
        }
        if self.player_creature.speed_down_turns > 0 {
            self.player_creature.speed_down_turns = self.player_creature.speed_down_turns - 1;
        }
        if self.enemy_creature.defense_boost_turns > 0 {
            self.enemy_creature.defense_boost_turns = self.enemy_creature.defense_boost_turns - 1;
        }
        if self.enemy_creature.speed_down_turns > 0 {
            self.enemy_creature.speed_down_turns = self.enemy_creature.speed_down_turns - 1;
        }
        self.turn = TurnPhase::ShowResult;
    }

    /// The enemy's reply after an item; see `counter_result`.
    fn enemy_counter(&mut self, attacks: &[AttackData], pick: usize)
        requires
            counter_fits(old(self)@, attacks@, pick as int),
        ensures
            final(self)@ == counter_result(old(self)@, attacks@, pick as int),
    {
        let n_enemy = self.enemy_creature.moves.len();
        if n_enemy > 0 {
            let player_name = self.player_creature.name.clone();
            let emove = self.enemy_creature.moves[pick].clone();
            if self.apply_attack(false, emove.as_str(), attacks) {
                self.push_log(text_ko(player_name.as_str()));
                self.turn = TurnPhase::Defeat;
                return;
            }
        }
        self.turn = TurnPhase::ShowResult;
    }
}


// ── One frame of input ────────────────────────────────────────────────────

/// The ids of the items present in a bag, in display order.
pub open spec fn present_items(inv: Map<Seq<char>, u32>) -> Seq<Seq<char>> {
    item_order().filter(|id: Seq<char>| count_of(inv, id) > 0)
}

/// The effect of item `id` (empty when the item is unknown).
pub open spec fn item_effect(items: Seq<ItemData>, id: Seq<char>) -> Seq<char> {
    match find_item(items, id) {
        Some(d) => d.effect@,
        None => ""@,
    }
}

/// The value of item `id` (zero when the item is unknown).
pub open spec fn item_value(items: Seq<ItemData>, id: Seq<char>) -> i32 {
    match find_item(items, id) {
        Some(d) => d.value,
        None => 0,
    }
}

/// The name of item `id` (its id when the item is unknown).
pub open spec fn item_name(items: Seq<ItemData>, id: Seq<char>) -> Seq<char> {
    match find_item(items, id) {
        Some(d) => d.name@,
        None => id,
    }
}

/// The number of slots of the move grid: the moves, plus the bag when the
/// creature has fewer than four moves.
pub open spec fn slot_count(v: CombatView) -> int {
    if v.player.moves.len() < 4 { v.player.moves.len() + 1 } else { v.player.moves.len() as int }
}

/// The bag slot is shown (right after the last move) when there are fewer than four moves.
pub open spec fn bag_available(v: CombatView) -> bool {
    v.player.moves.len() < 4
}

/// The grid selection after the arrows of one frame, applied in the order
/// right, left, down, up; the grid is two columns wide.
pub open spec fn navigate_moves(sm: usize, keys: CombatKeys, slots: int) -> usize {
    let s1 = if keys.right && sm % 2 == 0 && sm + 1 < slots { (sm + 1) as usize } else { sm };
    let s2 = if keys.left && s1 % 2 == 1 { (s1 - 1) as usize } else { s1 };
    let s3 = if keys.down && s2 + 2 < slots { (s2 + 2) as usize } else { s2 };
    if keys.up && s3 >= 2 { (s3 - 2) as usize } else { s3 }
}

/// The item-menu selection after the arrows of one frame.
pub open spec fn navigate_items(sel: usize, keys: CombatKeys, count: int) -> usize {
    let s1 = if keys.down && sel + 1 < count { (sel + 1) as usize } else { sel };
    if keys.up { if s1 > 0 { (s1 - 1) as usize } else { 0 } } else { s1 }
}

/// HP after a heal of `value`, capped at the maximum.
pub open spec fn healed_hp(c: CreatureInstance, value: i32) -> u32 {
    let raw = c.current_hp + (value as u32);
    if raw < c.max_hp { raw as u32 } else { c.max_hp }
}

/// The item menu: Escape goes back to the moves; the arrows move the
/// selection; confirming uses the selected item. A capture flag cannot be
/// used against a trainer. A patch heals, a capture flag captures when the
/// roll is below the enemy's catch rate; either way the enemy replies unless
/// the capture succeeded.
pub open spec fn item_menu_step(
    v: CombatView,
    selected: usize,
    keys: CombatKeys,
    attacks: Seq<AttackData>,
    items: Seq<ItemData>,
    inv: Map<Seq<char>, u32>,
    rolls: CombatRolls,
) -> (CombatView, Map<Seq<char>, u32>, OutcomeView) {
    let ids = present_items(inv);
    let count = ids.len() as int;
    if keys.escape {
        (CombatView { turn: TurnPhase::PlayerChoose, ..v }, inv, OutcomeView::Ongoing)
    } else {
        let sel = navigate_items(selected, keys, count);
        if !keys.confirm {
            (CombatView { turn: TurnPhase::ItemMenu { selected: sel }, ..v }, inv, OutcomeView::Ongoing)
        } else if count == 0 {
            (CombatView { turn: TurnPhase::PlayerChoose, ..v }, inv, OutcomeView::Ongoing)
        } else {
            let id = ids[sel as int];
            let effect = item_effect(items, id);
            let value = item_value(items, id);
            if effect == "capture"@ && v.is_trainer_battle {
                (
                    CombatView { log: v.log.push(msg_no_capture()), turn: TurnPhase::PlayerChoose, ..v },
                    inv,
                    OutcomeView::Ongoing,
                )
            } else if count_of(inv, id) > 0 {
                let inv2 = inv.insert(id, (inv[id] - 1) as u32);
                if effect == "heal"@ {
                    let v1 = CombatView {
                        player: CreatureInstance { current_hp: healed_hp(v.player, value), ..v.player },
                        log: v.log.push(msg_healed(v.player.name@, value)),
                        ..v
                    };
                    (counter_result(v1, attacks, rolls.enemy_move as int), inv2, OutcomeView::Ongoing)
                } else if effect == "capture"@ {
                    if rolls.capture < v.enemy.catch_rate {
                        (
                            CombatView { log: v.log.push(msg_caught(v.enemy.name@)), ..v },
                            inv2,
                            OutcomeView::Captured {
                                final_player_hp: v.player.current_hp,
                                captured_name: v.enemy.name@,
                            },
                        )
                    } else {
                        let v1 = CombatView { log: v.log.push(msg_escaped(v.enemy.name@)), ..v };
                        (counter_result(v1, attacks, rolls.enemy_move as int), inv2, OutcomeView::Ongoing)
                    }
                } else {
                    (CombatView { turn: TurnPhase::PlayerChoose, ..v }, inv2, OutcomeView::Ongoing)
                }
            } else {
                (
                    CombatView {
                        log: v.log.push(msg_out_of(item_name(items, id))),
                        turn: TurnPhase::PlayerChoose,
                        ..v
                    },
                    inv,
                    OutcomeView::Ongoing,
                )
            }
        }
    }
}

/// The item menu step can be computed: the selection is in the list and
/// the heal and the enemy's reply do not overflow.
pub open spec fn item_menu_fits(
    v: CombatView,
    selected: usize,
    keys: CombatKeys,
    attacks: Seq<AttackData>,
    items: Seq<ItemData>,
    inv: Map<Seq<char>, u32>,
    rolls: CombatRolls,
) -> bool {
    let ids = present_items(inv);
    let count = ids.len() as int;
    let sel = navigate_items(selected, keys, count);
    (!keys.escape && keys.confirm && count > 0) ==> {
        let id = ids[sel as int];
        let effect = item_effect(items, id);
        let value = item_value(items, id);
        &&& sel < count
        &&& !(effect == "capture"@ && v.is_trainer_battle) && count_of(inv, id) > 0 ==> {
            if effect == "heal"@ {
                &&& v.player.current_hp + (value as u32) <= u32::MAX
                &&& counter_fits(
                    CombatView {
                        player: CreatureInstance { current_hp: healed_hp(v.player, value), ..v.player },
                        log: v.log.push(msg_healed(v.player.name@, value)),
                        ..v
                    },
                    attacks,
                    rolls.enemy_move as int,
                )
            } else if effect == "capture"@ {
                rolls.capture >= v.enemy.catch_rate ==> counter_fits(
                    CombatView { log: v.log.push(msg_escaped(v.enemy.name@)), ..v },
                    attacks,
                    rolls.enemy_move as int,
                )
            } else {
                true
            }
        }
    }
}

/// One frame of battle input: the new battle, the new bag and the outcome.
pub open spec fn combat_step(
    v: CombatView,
    keys: CombatKeys,
    attacks: Seq<AttackData>,
    items: Seq<ItemData>,
    inv: Map<Seq<char>, u32>,
    rolls: CombatRolls,
) -> (CombatView, Map<Seq<char>, u32>, OutcomeView) {
    match v.turn {
        TurnPhase::PlayerChoose => {
            let sm = navigate_moves(v.selected_move, keys, slot_count(v));
            let v1 = CombatView { selected_move: sm, ..v };
            if keys.confirm {
                if bag_available(v) && sm == v.player.moves.len() {
                    (CombatView { turn: TurnPhase::ItemMenu { selected: 0 }, ..v1 }, inv, OutcomeView::Ongoing)
                } else {
                    (turn_result(v1, attacks, rolls.enemy_move as int), inv, OutcomeView::Ongoing)
                }
            } else {
                (v1, inv, OutcomeView::Ongoing)
            }
        },
        TurnPhase::ItemMenu { selected } => item_menu_step(v, selected, keys, attacks, items, inv, rolls),
        TurnPhase::ShowResult => {
            if keys.confirm {
                (CombatView { turn: TurnPhase::PlayerChoose, ..v }, inv, OutcomeView::Ongoing)
            } else {
                (v, inv, OutcomeView::Ongoing)
            }
        },
        TurnPhase::Victory => {
            if keys.confirm {
                (v, inv, OutcomeView::Exit { final_player_hp: v.player.current_hp, victory: true })
            } else {
                (v, inv, OutcomeView::Ongoing)
            }
        },
        TurnPhase::Defeat => {
            if keys.confirm {
                (v, inv, OutcomeView::Exit { final_player_hp: v.player.max_hp / 2, victory: false })
            } else {
                (v, inv, OutcomeView::Ongoing)
            }
        },
    }
}

/// The frame can be computed: no index out of range, no overflow.
pub open spec fn combat_step_fits(
    v: CombatView,
    keys: CombatKeys,
    attacks: Seq<AttackData>,
    items: Seq<ItemData>,
    inv: Map<Seq<char>, u32>,
    rolls: CombatRolls,
) -> bool {
    match v.turn {
        TurnPhase::PlayerChoose => {
            let sm = navigate_moves(v.selected_move, keys, slot_count(v));
            let v1 = CombatView { selected_move: sm, ..v };
            keys.confirm && !(bag_available(v) && sm == v.player.moves.len()) ==> turn_fits(
                v1,
                attacks,
                rolls.enemy_move as int,
            )
        },
        TurnPhase::ItemMenu { selected } => item_menu_fits(v, selected, keys, attacks, items, inv, rolls),
        _ => true,
    }
}

/// The random draws are in range: the enemy's move index (when it has
/// moves) and the capture roll in `0..255`.
pub open spec fn rolls_in_range(v: CombatView, rolls: CombatRolls) -> bool {
    &&& v.enemy.moves.len() > 0 ==> rolls.enemy_move < v.enemy.moves.len()
    &&& rolls.capture < 255
}

impl CombatState {
    /// One frame of battle input with the random draws given; see `combat_step`.
    pub fn handle_input_with(
        &mut self,
        keys: CombatKeys,
        attacks: &[AttackData],
        items: &[ItemData],
        inventory: &mut Inventory,
        rolls: CombatRolls,
    ) -> (outcome: CombatOutcome)
        requires
            combat_step_fits(old(self)@, keys, attacks@, items@, old(inventory).items@, rolls),
        ensures
            (final(self)@, final(inventory).items@, outcome@) == combat_step(
                old(self)@,
                keys,
                attacks@,
                items@,
                old(inventory).items@,
                rolls,
            ),
    {
        let n_moves = self.player_creature.moves.len();
        let bag_available = n_moves < 4;
        let effective_n = if bag_available { n_moves + 1 } else { n_moves };
        let bag_slot = n_moves;

        match self.turn {
            TurnPhase::PlayerChoose => {
                let mut sm = self.selected_move;
                if keys.right && sm % 2 == 0 && sm + 1 < effective_n {
                    sm = sm + 1;
                }
                if keys.left && sm % 2 == 1 {
                    sm = sm - 1;
                }
                if keys.down && effective_n >= 2 && sm < effective_n - 2 {
                    sm = sm + 2;
                }
                if keys.up && sm >= 2 {
                    sm = sm - 2;
                }
                self.selected_move = sm;
                if keys.confirm {
                    if bag_available && sm == bag_slot {
                        self.turn = TurnPhase::ItemMenu { selected: 0 };
                    } else {
                        self.execute_turn_with(attacks, rolls.enemy_move);
                    }
                }
                CombatOutcome::Ongoing
            },
            TurnPhase::ItemMenu { selected } => self.item_menu_input(selected, keys, attacks, items, inventory, rolls),
            TurnPhase::ShowResult => {
                if keys.confirm {
                    self.turn = TurnPhase::PlayerChoose;
                }
                CombatOutcome::Ongoing
            },
            TurnPhase::Victory => {
                if keys.confirm {
                    CombatOutcome::Exit { final_player_hp: self.player_creature.current_hp, victory: true }
                } else {
                    CombatOutcome::Ongoing
                }
            },
            TurnPhase::Defeat => {
                if keys.confirm {
                    CombatOutcome::Exit { final_player_hp: self.player_creature.max_hp / 2, victory: false }
                } else {
                    CombatOutcome::Ongoing
                }
            },
        }
    }

    fn item_menu_input(
        &mut self,
        selected: usize,
        keys: CombatKeys,
        attacks: &[AttackData],
        items: &[ItemData],
        inventory: &mut Inventory,
        rolls: CombatRolls,
    ) -> (outcome: CombatOutcome)
        requires
            old(self).turn == (TurnPhase::ItemMenu { selected }),
            item_menu_fits(old(self)@, selected, keys, attacks@, items@, old(inventory).items@, rolls),
        ensures
            (final(self)@, final(inventory).items@, outcome@) == item_menu_step(
                old(self)@,
                selected,
                keys,
                attacks@,
                items@,
                old(inventory).items@,
                rolls,
            ),
    {
        let item_ids = inventory.ordered_ids();
        let item_count = item_ids.len();
        proof {
            assert(item_ids@.map_values(|s: &str| s@).len() == item_ids@.len());
        }
        if keys.escape {
            self.turn = TurnPhase::PlayerChoose;
            return CombatOutcome::Ongoing;
        }
        let mut sel = selected;
        if keys.down && item_count >= 1 && sel < item_count - 1 {
            sel = sel + 1;
        }
        if keys.up {
            sel = if sel > 0 { sel - 1 } else { 0 };
        }
        if keys.confirm {
            if item_count == 0 {
                self.turn = TurnPhase::PlayerChoose;
                return CombatOutcome::Ongoing;
            }
            let item_id: &str = item_ids[sel];
            assert(item_id@ == present_items(old(inventory).items@)[sel as int]);
            let data = lookup_item(items, item_id);
            let effect: &str = match data {
                Some(d) => d.effect.as_str(),
                None => "",
            };
            let val: i32 = match data {
                Some(d) => d.value,
                None => 0,
            };
            let is_capture = same_text(effect, "capture");
            if is_capture && self.is_trainer_battle {
                self.push_log(text_no_capture());
                self.turn = TurnPhase::PlayerChoose;
                return CombatOutcome::Ongoing;
            }
            if inventory.use_item(item_id) {
                if same_text(effect, "heal") {
                    let raw = self.player_creature.current_hp + #[verifier::truncate] (val as u32);
                    let healed = if raw < self.player_creature.max_hp { raw } else { self.player_creature.max_hp };
                    self.player_creature.current_hp = healed;
                    let name = self.player_creature.name.clone();
                    self.push_log(text_healed(name.as_str(), val));
                    self.enemy_counter(attacks, rolls.enemy_move);
                } else if is_capture {
                    let enemy_name = self.enemy_creature.name.clone();
                    if rolls.capture < self.enemy_creature.catch_rate {
                        self.push_log(text_caught(enemy_name.as_str()));
                        return CombatOutcome::Captured {
                            final_player_hp: self.player_creature.current_hp,
                            captured_name: enemy_name,
                        };
                    } else {
                        self.push_log(text_escaped(enemy_name.as_str()));
                        self.enemy_counter(attacks, rolls.enemy_move);
                    }
                } else {
                    self.turn = TurnPhase::PlayerChoose;
                }
            } else {
                let name: &str = match data {
                    Some(d) => d.name.as_str(),
                    None => item_id,
                };
                self.push_log(text_out_of(name));
                self.turn = TurnPhase::PlayerChoose;
            }
            return CombatOutcome::Ongoing;
        }
        self.turn = TurnPhase::ItemMenu { selected: sel };
        CombatOutcome::Ongoing
    }

    /// One frame of battle input, drawing the enemy's move and the capture
    /// roll at random; see `combat_step`, which holds for some draws in range.
    pub fn handle_input(
        &mut self,
        keys: CombatKeys,
        attacks: &[AttackData],
        items: &[ItemData],
        inventory: &mut Inventory,
    ) -> (outcome: CombatOutcome)
        requires
            forall|r: CombatRolls|
                rolls_in_range(old(self)@, r) ==> #[trigger] combat_step_fits(
                    old(self)@,
                    keys,
                    attacks@,
                    items@,
                    old(inventory).items@,
                    r,
                ),
        ensures
            exists|r: CombatRolls|
                rolls_in_range(old(self)@, r) && (final(self)@, final(inventory).items@, outcome@)
                    == #[trigger] combat_step(old(self)@, keys, attacks@, items@, old(inventory).items@, r),
    {
        let n_enemy = self.enemy_creature.moves.len();
        let enemy_move: usize = if n_enemy > 0 {
            random_below(n_enemy as u64) as usize
        } else {
            0
        };
        let capture = random_below(255) as u32;
        let rolls = CombatRolls { enemy_move, capture };
        assert(rolls_in_range(self@, rolls));
        assert(combat_step_fits(self@, keys, attacks@, items@, inventory.items@, rolls));
        self.handle_input_with(keys, attacks, items, inventory, rolls)
    }
}


// ── Laws of battle ────────────────────────────────────────────────────────

/// Both creatures have at most their maximum HP.
pub open spec fn hp_bounded(v: CombatView) -> bool {
    &&& v.player.current_hp <= v.player.max_hp
    &&& v.enemy.current_hp <= v.enemy.max_hp
}

/// What an attack never changes: both creatures keep their identity, stats
/// and moves, and neither gains HP.
pub open spec fn attack_keeps(v: CombatView, w: CombatView) -> bool {
    &&& w.player.current_hp <= v.player.current_hp
    &&& w.enemy.current_hp <= v.enemy.current_hp
    &&& w.player.max_hp == v.player.max_hp
    &&& w.enemy.max_hp == v.enemy.max_hp
    &&& w.player.name == v.player.name
    &&& w.enemy.name == v.enemy.name
    &&& w.player.moves == v.player.moves
    &&& w.enemy.moves == v.enemy.moves
    &&& w.player.catch_rate == v.player.catch_rate
    &&& w.enemy.catch_rate == v.enemy.catch_rate
    &&& w.player.attack == v.player.attack
    &&& w.enemy.attack == v.enemy.attack
    &&& w.player.defense == v.player.defense
    &&& w.enemy.defense == v.enemy.defense
    &&& w.player.speed == v.player.speed
    &&& w.enemy.speed == v.enemy.speed
    &&& w.is_trainer_battle == v.is_trainer_battle
    &&& w.selected_move == v.selected_move
}

/// An attack never restores HP, and changes neither creature's identity,
/// stats nor moves.
pub proof fn lemma_attack_never_heals(v: CombatView, by_player: bool, move_id: Seq<char>, attacks: Seq<AttackData>)
    ensures
        attack_keeps(v, after_attack(v, by_player, move_id, attacks)),
        after_attack(v, by_player, move_id, attacks).turn == v.turn,
{
}

proof fn lemma_turn_keeps(v: CombatView, attacks: Seq<AttackData>, pick: int)
    ensures
        attack_keeps(v, turn_result(v, attacks, pick)),
{
    if v.player.moves.len() > 0 && v.enemy.moves.len() > 0 {
        let pm = v.player.moves[v.selected_move as int]@;
        let em = v.enemy.moves[pick]@;
        let pf = player_first(v);
        let first = if pf { pm } else { em };
        let second = if pf { em } else { pm };
        lemma_attack_never_heals(v, pf, first, attacks);
        let v1 = after_attack(v, pf, first, attacks);
        lemma_attack_never_heals(v1, !pf, second, attacks);
    }
}

proof fn lemma_counter_keeps(v: CombatView, attacks: Seq<AttackData>, pick: int)
    ensures
        attack_keeps(v, counter_result(v, attacks, pick)),
{
    if v.enemy.moves.len() > 0 {
        lemma_attack_never_heals(v, false, v.enemy.moves[pick]@, attacks);
    }
}

/// No battle step lets a creature's HP exceed its maximum: a patch heals up
/// to the maximum and attacks only take HP away.
pub proof fn lemma_step_keeps_hp_bounded(
    v: CombatView,
    keys: CombatKeys,
    attacks: Seq<AttackData>,
    items: Seq<ItemData>,
    inv: Map<Seq<char>, u32>,
    rolls: CombatRolls,
)
    requires
        hp_bounded(v),
    ensures
        hp_bounded(combat_step(v, keys, attacks, items, inv, rolls).0),
{
    match v.turn {
        TurnPhase::PlayerChoose => {
            let sm = navigate_moves(v.selected_move, keys, slot_count(v));
            lemma_turn_keeps(CombatView { selected_move: sm, ..v }, attacks, rolls.enemy_move as int);
        },
        TurnPhase::ItemMenu { selected } => {
            let ids = present_items(inv);
            let sel = navigate_items(selected, keys, ids.len() as int);
            let id = ids[sel as int];
            let value = item_value(items, id);
            let v1 = CombatView {
                player: CreatureInstance { current_hp: healed_hp(v.player, value), ..v.player },
                log: v.log.push(msg_healed(v.player.name@, value)),
                ..v
            };
            lemma_counter_keeps(v1, attacks, rolls.enemy_move as int);
            let v2 = CombatView { log: v.log.push(msg_escaped(v.enemy.name@)), ..v };
            lemma_counter_keeps(v2, attacks, rolls.enemy_move as int);
        },
        _ => {},
    }
}

/// A capture only ever succeeds in a wild battle.
pub proof fn lemma_capture_only_in_wild_battles(
    v: CombatView,
    keys: CombatKeys,
    attacks: Seq<AttackData>,
    items: Seq<ItemData>,
    inv: Map<Seq<char>, u32>,
    rolls: CombatRolls,
)
    ensures
        combat_step(v, keys, attacks, items, inv, rolls).2 is Captured ==> !v.is_trainer_battle,
{
}

/// A battle step uses at most one item: the bag is unchanged, or exactly one
/// present item has one fewer.
pub proof fn lemma_step_uses_at_most_one_item(
    v: CombatView,
    keys: CombatKeys,
    attacks: Seq<AttackData>,
    items: Seq<ItemData>,
    inv: Map<Seq<char>, u32>,
    rolls: CombatRolls,
)
    ensures
        ({
            let inv2 = combat_step(v, keys, attacks, items, inv, rolls).1;
            inv2 == inv || exists|id: Seq<char>|
                count_of(inv, id) > 0 && inv2 == #[trigger] inv.insert(id, (inv[id] - 1) as u32)
        }),
{
    match v.turn {
        TurnPhase::ItemMenu { selected } => {
            let ids = present_items(inv);
            let sel = navigate_items(selected, keys, ids.len() as int);
            let id = ids[sel as int];
            let inv2 = combat_step(v, keys, attacks, items, inv, rolls).1;
            if inv2 != inv {
                assert(count_of(inv, id) > 0 && inv2 == inv.insert(id, (inv[id] - 1) as u32));
            }
        },
        _ => {},
    }
}

/// The move-grid selection stays on a slot of the grid, and a selection
/// that is not the bag names one of the creature's moves.
pub proof fn lemma_step_keeps_selection_in_grid(
    v: CombatView,
    keys: CombatKeys,
    attacks: Seq<AttackData>,
    items: Seq<ItemData>,
    inv: Map<Seq<char>, u32>,
    rolls: CombatRolls,
)
    requires
        v.selected_move < slot_count(v),
    ensures
        ({
            let w = combat_step(v, keys, attacks, items, inv, rolls).0;
            w.selected_move < slot_count(w)
        }),
        ({
            let sm = navigate_moves(v.selected_move, keys, slot_count(v));
            &&& sm < slot_count(v)
            &&& !(bag_available(v) && sm == v.player.moves.len()) ==> sm < v.player.moves.len()
        }),
{
    match v.turn {
        TurnPhase::PlayerChoose => {
            let sm = navigate_moves(v.selected_move, keys, slot_count(v));
            lemma_turn_keeps(CombatView { selected_move: sm, ..v }, attacks, rolls.enemy_move as int);
        },
        TurnPhase::ItemMenu { selected } => {
            let ids = present_items(inv);
            let sel = navigate_items(selected, keys, ids.len() as int);
            let id = ids[sel as int];
            let value = item_value(items, id);
            let v1 = CombatView {
                player: CreatureInstance { current_hp: healed_hp(v.player, value), ..v.player },
                log: v.log.push(msg_healed(v.player.name@, value)),
                ..v
            };
            lemma_counter_keeps(v1, attacks, rolls.enemy_move as int);
            let v2 = CombatView { log: v.log.push(msg_escaped(v.enemy.name@)), ..v };
            lemma_counter_keeps(v2, attacks, rolls.enemy_move as int);
        },
        _ => {},
    }
}


// ── Bounds that keep a battle free of overflow ────────────────────────────

/// Each of creature `c`'s own moves, when it names a known attack, deals
/// damage whose product `attack * power` fits in a `u32`.
pub open spec fn moves_fit(c: CreatureInstance, attacks: Seq<AttackData>) -> bool {
    forall|i: int|
        0 <= i < c.moves.len() ==> ((#[trigger] find_attack(attacks, c.moves[i]@)) matches Some(a) ==> c.attack
            * a.power <= u32::MAX)
}

/// A creature's stats keep the formulas of a battle step within `u32`: its
/// boosted defense, its speed while it is slowed, and its own moves.
pub open spec fn creature_fits(c: CreatureInstance, attacks: Seq<AttackData>) -> bool {
    &&& c.defense * 130 <= u32::MAX
    &&& c.speed_down_turns > 0 ==> c.speed * 70 <= u32::MAX
    &&& moves_fit(c, attacks)
}

/// Healing creature `c` with item `id`, when it is a healing item, fits in a `u32`.
pub open spec fn heal_fits(c: CreatureInstance, items: Seq<ItemData>, id: Seq<char>) -> bool {
    item_effect(items, id) == "heal"@ ==> c.current_hp + (item_value(items, id) as u32) <= u32::MAX
}

/// A battle whose next step cannot overflow or index out of range, whatever
/// the keys and the random draws: both creatures' stats fit, in the item
/// menu a heal with any item of the bag fits, and the selections are on
/// their lists.
pub open spec fn battle_fits(v: CombatView, attacks: Seq<AttackData>, items: Seq<ItemData>, inv: Map<Seq<char>, u32>) -> bool {
    &&& creature_fits(v.player, attacks)
    &&& creature_fits(v.enemy, attacks)
    &&& v.turn is ItemMenu ==> forall|k: int|
        0 <= k < present_items(inv).len() ==> heal_fits(v.player, items, #[trigger] present_items(inv)[k])
    &&& v.selected_move < slot_count(v)
    &&& v.turn matches TurnPhase::ItemMenu { selected } ==> selected == 0 || selected < present_items(inv).len()
}

proof fn lemma_attack_fits(v: CombatView, by_player: bool, i: int, attacks: Seq<AttackData>)
    requires
        moves_fit(attacker_of(v, by_player), attacks),
        defender_of(v, by_player).defense * 130 <= u32::MAX,
        0 <= i < attacker_of(v, by_player).moves.len(),
    ensures
        attack_fits(v, by_player, attacker_of(v, by_player).moves[i]@, attacks),
{
    let att = attacker_of(v, by_player);
    if let Some(a) = find_attack(attacks, att.moves[i]@) {
        assert(att.attack * a.power <= u32::MAX);
        let d = defender_of(v, by_player).defense;
        if d > 0 {
            vstd::arithmetic::mul::lemma_mul_left_inequality(d as int, 100, 130);
        } else {
            assert(d * 100int == 0 && d * 130int == 0) by (nonlinear_arith) requires d == 0;
        }
    }
}

proof fn lemma_counter_fits(v: CombatView, attacks: Seq<AttackData>, pick: int)
    requires
        creature_fits(v.player, attacks),
        creature_fits(v.enemy, attacks),
        v.enemy.moves.len() > 0 ==> 0 <= pick < v.enemy.moves.len(),
    ensures
        counter_fits(v, attacks, pick),
{
    if v.enemy.moves.len() > 0 {
        lemma_attack_fits(v, false, pick, attacks);
    }
}

proof fn lemma_turn_fits(v: CombatView, attacks: Seq<AttackData>, pick: int)
    requires
        creature_fits(v.player, attacks),
        creature_fits(v.enemy, attacks),
        v.player.moves.len() > 0 ==> v.selected_move < v.player.moves.len(),
        v.enemy.moves.len() > 0 ==> 0 <= pick < v.enemy.moves.len(),
    ensures
        turn_fits(v, attacks, pick),
{
    if v.player.moves.len() > 0 && v.enemy.moves.len() > 0 {
        let pm = v.player.moves[v.selected_move as int]@;
        let em = v.enemy.moves[pick]@;
        let pf = player_first(v);
        let first = if pf { pm } else { em };
        let second = if pf { em } else { pm };
        let i1 = if pf { v.selected_move as int } else { pick };
        let i2 = if pf { pick } else { v.selected_move as int };
        lemma_attack_fits(v, pf, i1, attacks);
        lemma_attack_never_heals(v, pf, first, attacks);
        let v1 = after_attack(v, pf, first, attacks);
        let c0 = attacker_of(v, !pf);
        let c1 = attacker_of(v1, !pf);
        assert(c1.moves == c0.moves && c1.attack == c0.attack);
        assert(moves_fit(c1, attacks)) by {
            assert forall|j: int| 0 <= j < c1.moves.len() implies ((#[trigger] find_attack(
                attacks,
                c1.moves[j]@,
            )) matches Some(a) ==> c1.attack * a.power <= u32::MAX) by {
                assert(find_attack(attacks, c0.moves[j]@) == find_attack(attacks, c1.moves[j]@));
            }
        }
        lemma_attack_fits(v1, !pf, i2, attacks);
    }
}

/// In a battle within bounds, every step is computable for every random
/// draw in range.
pub proof fn lemma_battle_fits_step(
    v: CombatView,
    keys: CombatKeys,
    attacks: Seq<AttackData>,
    items: Seq<ItemData>,
    inv: Map<Seq<char>, u32>,
    rolls: CombatRolls,
)
    requires
        battle_fits(v, attacks, items, inv),
        rolls_in_range(v, rolls),
    ensures
        combat_step_fits(v, keys, attacks, items, inv, rolls),
{
    match v.turn {
        TurnPhase::PlayerChoose => {
            let sm = navigate_moves(v.selected_move, keys, slot_count(v));
            let v1 = CombatView { selected_move: sm, ..v };
            assert(sm < slot_count(v));
            if keys.confirm && !(bag_available(v) && sm == v.player.moves.len()) {
                lemma_turn_fits(v1, attacks, rolls.enemy_move as int);
            }
        },
        TurnPhase::ItemMenu { selected } => {
            let ids = present_items(inv);
            let count = ids.len() as int;
            let sel = navigate_items(selected, keys, count);
            if !keys.escape && keys.confirm && count > 0 {
                assert(sel < count);
                let id = ids[sel as int];
                let value = item_value(items, id);
                assert(heal_fits(v.player, items, ids[sel as int]));
                let healed = CombatView {
                    player: CreatureInstance { current_hp: healed_hp(v.player, value), ..v.player },
                    log: v.log.push(msg_healed(v.player.name@, value)),
                    ..v
                };
                lemma_counter_fits(healed, attacks, rolls.enemy_move as int);
                let escaped = CombatView { log: v.log.push(msg_escaped(v.enemy.name@)), ..v };
                lemma_counter_fits(escaped, attacks, rolls.enemy_move as int);
            }
        },
        _ => {},
    }
}

impl CombatState {
    /// Whether the battle is within the bounds of `battle_fits`.
    pub fn within_bounds(&self, attacks: &[AttackData], items: &[ItemData], inventory: &Inventory) -> (ok: bool)
        ensures
            ok == battle_fits(self@, attacks@, items@, inventory.items@),
    {
        let ok_player = creature_within_bounds(&self.player_creature, attacks);
        let ok_enemy = creature_within_bounds(&self.enemy_creature, attacks);
        let n_moves = self.player_creature.moves.len();
        let slots = if n_moves < 4 { n_moves + 1 } else { n_moves };
        let selection_ok = self.selected_move < slots;
        let (menu_ok, heals_fit) = match self.turn {
            TurnPhase::ItemMenu { selected } => {
                let ids = inventory.ordered_ids();
                let ghost present = present_items(inventory.items@);
                proof {
                    assert(ids@.map_values(|s: &str| s@).len() == ids@.len());
                }
                let hp = self.player_creature.current_hp;
                let mut heals_fit = true;
                let n = ids.len();
                let mut k: usize = 0;
                while k < n
                    invariant
                        n == ids@.len(),
                        n == present.len(),
                        ids@.map_values(|s: &str| s@) == present,
                        hp == self.player_creature.current_hp,
                        k <= n,
                        heals_fit == forall|j: int| 0 <= j < k ==> heal_fits(self@.player, items@, #[trigger] present[j]),
                    decreases n - k,
                {
                    let id: &str = ids[k];
                    assert(id@ == present[k as int]);
                    let data = lookup_item(items, id);
                    let fits = match data {
                        Some(d) => {
                            if same_text(d.effect.as_str(), "heal") {
                                (#[verifier::truncate] (d.value as u32)) <= u32::MAX - hp
                            } else {
                                true
                            }
                        },
                        None => true,
                    };
                    proof {
                        reveal_strlit("heal");
                        assert(fits == heal_fits(self@.player, items@, present[k as int]));
                    }
                    heals_fit = heals_fit && fits;
                    k = k + 1;
                }
                (selected == 0 || selected < ids.len(), heals_fit)
            },
            _ => (true, true),
        };
        ok_player && ok_enemy && heals_fit && selection_ok && menu_ok
    }

    /// One frame of battle input, when the battle is within bounds; see
    /// `handle_input`. Returns `None`, changing nothing, when it is not.
    pub fn checked_input(
        &mut self,
        keys: CombatKeys,
        attacks: &[AttackData],
        items: &[ItemData],
        inventory: &mut Inventory,
    ) -> (outcome: Option<CombatOutcome>)
        ensures
            outcome is None <==> !battle_fits(old(self)@, attacks@, items@, old(inventory).items@),
            outcome is None ==> final(self)@ == old(self)@ && final(inventory).items@ == old(inventory).items@,
            outcome matches Some(o) ==> exists|r: CombatRolls|
                rolls_in_range(old(self)@, r) && (final(self)@, final(inventory).items@, o@)
                    == #[trigger] combat_step(old(self)@, keys, attacks@, items@, old(inventory).items@, r),
    {
        if !self.within_bounds(attacks, items, inventory) {
            return None;
        }
        proof {
            assert forall|r: CombatRolls| rolls_in_range(self@, r) implies #[trigger] combat_step_fits(
                self@,
                keys,
                attacks@,
                items@,
                inventory.items@,
                r,
            ) by {
                lemma_battle_fits_step(self@, keys, attacks@, items@, inventory.items@, r);
            }
        }
        Some(self.handle_input(keys, attacks, items, inventory))
    }
}

/// Whether a creature's stats are within the bounds of `creature_fits`.
pub fn creature_within_bounds(c: &CreatureInstance, attacks: &[AttackData]) -> (ok: bool)
    ensures
        ok == creature_fits(*c, attacks@),
{
    proof {
        lemma_fits_by_division(c.defense, 130);
        lemma_fits_by_division(c.speed, 70);
    }
    let mut ok = c.defense <= u32::MAX / 130 && (c.speed_down_turns == 0 || c.speed <= u32::MAX / 70);
    let n = c.moves.len();
    let mut i: usize = 0;
    while i < n
        invariant
            n == c.moves@.len(),
            i <= n,
            ok == (c.defense * 130 <= u32::MAX && (c.speed_down_turns > 0 ==> c.speed * 70 <= u32::MAX)
                && forall|j: int|
                0 <= j < i ==> ((#[trigger] find_attack(attacks@, c.moves@[j]@)) matches Some(a) ==> c.attack
                    * a.power <= u32::MAX)),
        decreases n - i,
    {
        let fits = match lookup_attack(attacks, c.moves[i].as_str()) {
            Some(a) => {
                let p = a.power;
                proof {
                    if p > 0 {
                        lemma_fits_by_division(c.attack, p);
                    } else {
                        assert(c.attack * p == 0) by (nonlinear_arith) requires p == 0;
                    }
                }
                p == 0 || c.attack <= u32::MAX / p
            },
            None => true,
        };
        ok = ok && fits;
        i = i + 1;
    }
    ok
}

// ── Laws of a battle frame, stated over the inputs ─────────────────────────

/// The number of turns a status set this turn by move `id` lasts, when the
/// move's attack has status effect `effect`: the attack's duration (3 when
/// unset), taken as a `u8`.
pub open spec fn status_set_by(attacks: Seq<AttackData>, id: Seq<char>, effect: Seq<char>) -> Option<u8> {
    match find_attack(attacks, id) {
        Some(a) => if a.effect matches Some(e) && e@ == effect {
            Some(
                (match a.effect_duration {
                    Some(d) => d,
                    None => 3u32,
                }) as u8,
            )
        } else {
            None
        },
        None => None,
    }
}

/// A status counter at the end of a turn: the count set this turn (or the
/// count before the turn when none was set), one turn less, never below 0.
pub open spec fn worn_off(before: u8, set: Option<u8>) -> int {
    let n: int = match set {
        Some(d) => d as int,
        None => before as int,
    };
    if n > 0 { n - 1 } else { 0 }
}

/// Status effects wear off: when a turn is played (confirm on a move, no
/// arrow pressed) and ends without a knock-out, each creature's defense boost
/// is one turn shorter than before the turn, or than the boost its own move
/// set; each creature's slowdown is one turn shorter than before the turn, or
/// than the slowdown the other's move set; never below 0.
pub proof fn lemma_statuses_wear_off(
    v: CombatView,
    keys: CombatKeys,
    attacks: Seq<AttackData>,
    items: Seq<ItemData>,
    inv: Map<Seq<char>, u32>,
    rolls: CombatRolls,
)
    requires
        v.turn == TurnPhase::PlayerChoose,
        keys.confirm && !keys.left && !keys.right && !keys.up && !keys.down,
        v.selected_move < v.player.moves.len(),
        rolls.enemy_move < v.enemy.moves.len(),
        combat_step(v, keys, attacks, items, inv, rolls).0.turn == TurnPhase::ShowResult,
    ensures
        ({
            let w = combat_step(v, keys, attacks, items, inv, rolls).0;
            let pm = v.player.moves[v.selected_move as int]@;
            let em = v.enemy.moves[rolls.enemy_move as int]@;
            &&& w.player.defense_boost_turns == worn_off(
                v.player.defense_boost_turns,
                status_set_by(attacks, pm, "defense_boost"@),
            )
            &&& w.enemy.defense_boost_turns == worn_off(
                v.enemy.defense_boost_turns,
                status_set_by(attacks, em, "defense_boost"@),
            )
            &&& w.player.speed_down_turns == worn_off(
                v.player.speed_down_turns,
                status_set_by(attacks, em, "speed_down"@),
            )
            &&& w.enemy.speed_down_turns == worn_off(
                v.enemy.speed_down_turns,
                status_set_by(attacks, pm, "speed_down"@),
            )
        }),
{
    reveal_strlit("defense_boost");
    reveal_strlit("speed_down");
    assert("defense_boost"@.len() != "speed_down"@.len());
    let sm = navigate_moves(v.selected_move, keys, slot_count(v));
    assert(sm == v.selected_move);
    let v1 = CombatView { selected_move: sm, ..v };
    assert(v1 == v);
}

/// Arrow keys in the move grid (two columns, the bag slot after the last
/// move while there are fewer than four): Down moves to `s + 2` when that
/// slot exists, Up to `s - 2` when `s >= 2`, Right to `s + 1` from the left
/// column when that slot exists, Left to `s - 1` from the right column;
/// otherwise the selection stays. Nothing else changes.
pub proof fn lemma_grid_arrows(
    v: CombatView,
    keys: CombatKeys,
    attacks: Seq<AttackData>,
    items: Seq<ItemData>,
    inv: Map<Seq<char>, u32>,
    rolls: CombatRolls,
)
    requires
        v.turn == TurnPhase::PlayerChoose,
        !keys.confirm,
    ensures
        ({
            let w = combat_step(v, keys, attacks, items, inv, rolls);
            let s = v.selected_move as int;
            let n = v.player.moves.len() as int;
            let slots: int = if n < 4 { n + 1 } else { n };
            &&& w.1 == inv
            &&& w.2 == OutcomeView::Ongoing
            &&& w.0 == CombatView { selected_move: w.0.selected_move, ..v }
            &&& (keys.down && !keys.up && !keys.left && !keys.right) ==> w.0.selected_move == (if s + 2 < slots {
                s + 2
            } else {
                s
            })
            &&& (keys.up && !keys.down && !keys.left && !keys.right) ==> w.0.selected_move == (if s >= 2 {
                s - 2
            } else {
                s
            })
            &&& (keys.right && !keys.up && !keys.down && !keys.left) ==> w.0.selected_move == (if s % 2 == 0 && s
                + 1 < slots {
                s + 1
            } else {
                s
            })
            &&& (keys.left && !keys.up && !keys.down && !keys.right) ==> w.0.selected_move == (if s % 2 == 1 {
                s - 1
            } else {
                s
            })
        }),
{
}

/// A Patch in battle heals up to the maximum: with the heal item selected
/// (confirm only, nothing else pressed), the player's creature ends with at
/// most `min(hp + value, max_hp)` HP (the enemy's reply only takes HP away),
/// and exactly that when the enemy has no move to reply with.
pub proof fn lemma_battle_heal(
    v: CombatView,
    keys: CombatKeys,
    attacks: Seq<AttackData>,
    items: Seq<ItemData>,
    inv: Map<Seq<char>, u32>,
    rolls: CombatRolls,
)
    requires
        v.turn matches TurnPhase::ItemMenu { selected } && selected < present_items(inv).len() && item_effect(
            items,
            present_items(inv)[selected as int],
        ) == "heal"@ && item_value(items, present_items(inv)[selected as int]) >= 0 && v.player.current_hp
            + item_value(items, present_items(inv)[selected as int]) <= u32::MAX,
        keys.confirm && !keys.escape && !keys.up && !keys.down,
        v.enemy.moves.len() > 0 ==> rolls.enemy_move < v.enemy.moves.len(),
    ensures
        ({
            let w = combat_step(v, keys, attacks, items, inv, rolls).0;
            let id = present_items(inv)[v.turn->selected as int];
            let raw = v.player.current_hp + item_value(items, id);
            let capped: int = if raw < v.player.max_hp { raw } else { v.player.max_hp as int };
            &&& w.player.current_hp <= capped
            &&& v.enemy.moves.len() == 0 ==> w.player.current_hp == capped
            &&& w.player.max_hp == v.player.max_hp
        }),
{
    reveal_strlit("heal");
    reveal_strlit("capture");
    assert("heal"@.len() != "capture"@.len());
    let selected = v.turn->selected;
    let ids = present_items(inv);
    let sel = navigate_items(selected, keys, ids.len() as int);
    assert(sel == selected);
    let id = ids[sel as int];
    assert(count_of(inv, id) > 0) by {
        let pred = |x: Seq<char>| count_of(inv, x) > 0;
        item_order().lemma_filter_pred(pred, sel as int);
    }
    let value = item_value(items, id);
    let v1 = CombatView {
        player: CreatureInstance { current_hp: healed_hp(v.player, value), ..v.player },
        log: v.log.push(msg_healed(v.player.name@, value)),
        ..v
    };
    if v.enemy.moves.len() > 0 {
        lemma_attack_never_heals(v1, false, v1.enemy.moves[rolls.enemy_move as int]@, attacks);
    }
}

/// The name a move is shown under: its attack's name when the attack is
/// known, else its id.
pub open spec fn move_label(attacks: Seq<AttackData>, id: Seq<char>) -> Seq<char> {
    match find_attack(attacks, id) {
        Some(a) => a.name@,
        None => id,
    }
}

/// The faster creature acts first: on a played turn (confirm on a move, no
/// arrow pressed) the first line logged is the player's creature using its
/// move exactly when its speed (70% while slowed) is at least the enemy's
/// (70% while slowed); otherwise it is the enemy using its move.
pub proof fn lemma_faster_creature_acts_first(
    v: CombatView,
    keys: CombatKeys,
    attacks: Seq<AttackData>,
    items: Seq<ItemData>,
    inv: Map<Seq<char>, u32>,
    rolls: CombatRolls,
)
    requires
        v.turn == TurnPhase::PlayerChoose,
        keys.confirm && !keys.left && !keys.right && !keys.up && !keys.down,
        v.selected_move < v.player.moves.len(),
        rolls.enemy_move < v.enemy.moves.len(),
    ensures
        ({
            let w = combat_step(v, keys, attacks, items, inv, rolls).0;
            let p = v.player;
            let e = v.enemy;
            let p_speed: int = if p.speed_down_turns > 0 { (p.speed * 70) / 100 } else { p.speed as int };
            let e_speed: int = if e.speed_down_turns > 0 { (e.speed * 70) / 100 } else { e.speed as int };
            let pm = p.moves[v.selected_move as int]@;
            let em = e.moves[rolls.enemy_move as int]@;
            &&& w.log.len() > v.log.len()
            &&& w.log[v.log.len() as int] == (if p_speed >= e_speed {
                msg_uses(p.name@, move_label(attacks, pm))
            } else {
                msg_uses(e.name@, move_label(attacks, em))
            })
        }),
{
    let sm = navigate_moves(v.selected_move, keys, slot_count(v));
    assert(sm == v.selected_move);
    let v1 = CombatView { selected_move: sm, ..v };
    assert(v1 == v);
    let pm = v.player.moves[v.selected_move as int]@;
    let em = v.enemy.moves[rolls.enemy_move as int]@;
    let pf = player_first(v);
    let first = if pf { pm } else { em };
    let second = if pf { em } else { pm };
    let a1 = after_attack(v, pf, first, attacks);
    lemma_log_grows(v, pf, first, attacks);
    let a2 = after_attack(a1, !pf, second, attacks);
    lemma_log_grows(a1, !pf, second, attacks);
    assert(a1.log[v.log.len() as int] == a2.log[v.log.len() as int]);
}

proof fn lemma_log_grows(v: CombatView, by_player: bool, move_id: Seq<char>, attacks: Seq<AttackData>)
    ensures
        ({
            let w = after_attack(v, by_player, move_id, attacks);
            &&& w.log.len() > v.log.len()
            &&& forall|i: int| 0 <= i < v.log.len() ==> #[trigger] w.log[i] == v.log[i]
            &&& w.log[v.log.len() as int] == msg_uses(attacker_of(v, by_player).name@, move_label(attacks, move_id))
        }),
{
}

/// An attack with power takes from the defender `(atk * power) / (d * 2) + 2`
/// HP (none below 0), where `atk` is the attacker's attack and `d` the
/// defender's defense, times 1.3 while boosted, rounded down and at least 1;
/// the attacker's HP does not change.
pub proof fn lemma_attack_damage(v: CombatView, by_player: bool, move_id: Seq<char>, attacks: Seq<AttackData>)
    requires
        find_attack(attacks, move_id) matches Some(a) && a.power > 0,
    ensures
        ({
            let w = after_attack(v, by_player, move_id, attacks);
            let a = find_attack(attacks, move_id)->0;
            let att = if by_player { v.player } else { v.enemy };
            let def = if by_player { v.enemy } else { v.player };
            let def_after = if by_player { w.enemy } else { w.player };
            let att_after = if by_player { w.player } else { w.enemy };
            let mult: int = if def.defense_boost_turns > 0 { 130 } else { 100 };
            let d0: int = (def.defense * mult) / 100;
            let d: int = if d0 < 1 { 1 } else { d0 };
            let damage: int = (att.attack * a.power) / (d * 2) + 2;
            &&& def_after.current_hp == (if def.current_hp >= damage { def.current_hp - damage } else { 0 })
            &&& att_after.current_hp == att.current_hp
        }),
{
}

} // verus!
