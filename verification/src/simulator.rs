//! One turn of the battle: move order by speed, switches, and moves that
//! hit the opposing active Pokémon.
//!
//! How much a move deals is computed from a [`DamageFactors`] record by the
//! caller's damage function (floating point); everything that decides which
//! factors apply, who moves first, and what a hit does to the defender is
//! here.
use vstd::prelude::*;
use crate::data::{GameData, MoveData, Effectiveness};
use crate::state::{Action, BattleState, PlayerState, PokemonState};

verus! {

broadcast use vstd::array::group_array_axioms;

/// Speed at level 100 with 31 IVs and 85 EVs: `2 * base + 31 + 85 / 4 + 5`
/// (the quarter of the EVs truncated), capped to what `u16` holds.
pub open spec fn speed_from_base(spe: u16) -> u16 {
    if 2 * spe + 57 > 65535 {
        65535
    } else {
        (2 * spe + 57) as u16
    }
}

/// Attack or defense at level 100 with 31 IVs and 252 EVs:
/// `2 * base + 31 + 63 + 5`.
pub open spec fn stat_from_base(base: u16) -> u32 {
    (2 * base + 99) as u32
}

/// The speed of the active Pokémon of player 1 (when `is_p1`) or player 2:
/// from the base speed of its species, or 100 when the species is unknown.
pub open spec fn spec_calculate_speed(s: BattleState, is_p1: bool, data: GameData) -> u16 {
    match data.spec_species_index(s.player(is_p1).active().species_id) {
        Some(k) => speed_from_base(data.pokedex@[k].1.base_stats.spe),
        None => 100,
    }
}

pub fn calculate_speed(state: &BattleState, is_p1: bool, game_data: &GameData) -> (r: u16)
    requires
        state.player(is_p1).active_in_range(),
    ensures
        r == spec_calculate_speed(*state, is_p1, *game_data),
{
    let p_state = if is_p1 {
        &state.p1
    } else {
        &state.p2
    };
    let active = &p_state.team[p_state.active_pokemon_index as usize];
    match game_data.species_index(active.species_id) {
        Some(k) => {
            let spe = game_data.pokedex[k].1.base_stats.spe as u32;
            let speed = 2 * spe + 57;
            if speed > 65535 {
                65535
            } else {
                speed as u16
            }
        },
        None => 100,
    }
}

/// Whether the active Pokémon of player 1 (when `is_p1`) or player 2 has fainted.
pub fn is_fainted(state: &BattleState, is_p1: bool) -> (r: bool)
    requires
        state.player(is_p1).active_in_range(),
    ensures
        r == state.player(is_p1).active().fainted,
{
    let p_state = if is_p1 {
        &state.p1
    } else {
        &state.p2
    };
    p_state.team[p_state.active_pokemon_index as usize].fainted
}

/// The battle after player 1 (when `is_p1`) or player 2 sends in team member `switch_idx`.
pub open spec fn spec_switch(s: BattleState, is_p1: bool, switch_idx: u8) -> BattleState {
    s.with_player(is_p1, PlayerState { active_pokemon_index: switch_idx, ..s.player(is_p1) })
}

/// Makes team member `switch_idx` the active Pokémon of player 1 (when
/// `is_p1`) or player 2. The index is taken as given.
pub fn execute_switch(state: &mut BattleState, is_p1: bool, switch_idx: u8)
    ensures
        *final(state) == spec_switch(*old(state), is_p1, switch_idx),
{
    if is_p1 {
        state.p1.active_pokemon_index = switch_idx;
    } else {
        state.p2.active_pokemon_index = switch_idx;
    }
}

/// What a move's damage is computed from: the move's base power, the
/// attacker's attacking stat, the defender's defending stat, whether the
/// attacker shares the move's type, and the type multipliers of the
/// defender's types, in the order of those types.
pub struct DamageFactors {
    pub base_power: u16,
    pub atk_stat: u32,
    pub def_stat: u32,
    pub stab: bool,
    pub multipliers: Vec<Effectiveness>,
}

/// [`DamageFactors`] with the multipliers as a sequence.
pub struct DamageFactorsView {
    pub base_power: u16,
    pub atk_stat: u32,
    pub def_stat: u32,
    pub stab: bool,
    pub multipliers: Seq<Effectiveness>,
}

impl View for DamageFactors {
    type V = DamageFactorsView;

    open spec fn view(&self) -> DamageFactorsView {
        DamageFactorsView {
            base_power: self.base_power,
            atk_stat: self.atk_stat,
            def_stat: self.def_stat,
            stab: self.stab,
            multipliers: self.multipliers@,
        }
    }
}

/// Whether some string of `list` reads `text`.
pub open spec fn holds_text(list: Seq<String>, text: Seq<char>) -> bool {
    exists|i: int| 0 <= i < list.len() && #[trigger] list[i]@ == text
}

/// The multipliers that the type chart gives an attack of type `atk_type`
/// against each of `types`, in order, skipping the types it says nothing of.
pub open spec fn spec_multipliers(data: GameData, types: Seq<String>, atk_type: Seq<char>) -> Seq<Effectiveness>
    decreases types.len(),
{
    if types.len() == 0 {
        Seq::empty()
    } else {
        let prev = spec_multipliers(data, types.drop_last(), atk_type);
        match data.spec_effectiveness(types.last()@, atk_type) {
            Some(e) => prev.push(e),
            None => prev,
        }
    }
}

/// The attacking stat: physical moves use Attack, special moves Sp. Atk,
/// of the attacker's species; 100 otherwise or when the species is unknown.
pub open spec fn spec_atk_stat(data: GameData, atk_species: u16, mv: MoveData) -> u32 {
    match data.spec_species_index(atk_species) {
        Some(k) => {
            let b = data.pokedex@[k].1.base_stats;
            if mv.category@ == "Physical"@ {
                stat_from_base(b.atk)
            } else if mv.category@ == "Special"@ {
                stat_from_base(b.spa)
            } else {
                100
            }
        },
        None => 100,
    }
}

/// The defending stat: Defense against physical moves, Sp. Def against
/// special ones; 100 otherwise or when the species is unknown.
pub open spec fn spec_def_stat(data: GameData, def_species: u16, mv: MoveData) -> u32 {
    match data.spec_species_index(def_species) {
        Some(k) => {
            let b = data.pokedex@[k].1.base_stats;
            if mv.category@ == "Physical"@ {
                stat_from_base(b.def)
            } else if mv.category@ == "Special"@ {
                stat_from_base(b.spd)
            } else {
                100
            }
        },
        None => 100,
    }
}

/// The factors of the damage that a Pokémon of species `atk_species` deals
/// with `mv` to one of species `def_species`.
pub open spec fn spec_damage_factors(data: GameData, atk_species: u16, def_species: u16, mv: MoveData) -> DamageFactorsView {
    DamageFactorsView {
        base_power: mv.base_power,
        atk_stat: spec_atk_stat(data, atk_species, mv),
        def_stat: spec_def_stat(data, def_species, mv),
        stab: match data.spec_species_index(atk_species) {
            Some(k) => holds_text(data.pokedex@[k].1.types@, mv.move_type@),
            None => false,
        },
        multipliers: match data.spec_species_index(def_species) {
            Some(k) => spec_multipliers(data, data.pokedex@[k].1.types@, mv.move_type@),
            None => Seq::empty(),
        },
    }
}

/// Whether some string of `list` equals `text`.
pub fn holds(list: &Vec<String>, text: &String) -> (r: bool)
    ensures
        r == holds_text(list@, text@),
{
    let mut i: usize = 0;
    while i < list.len()
        invariant
            0 <= i <= list@.len(),
            forall|j: int| 0 <= j < i ==> list@[j]@ != text@,
        decreases list.len() - i,
    {
        if list[i] == *text {
            return true;
        }
        i += 1;
    }
    false
}

/// The multipliers that the type chart gives an attack of type `atk_type`
/// against each of `types`.
pub fn type_multipliers(data: &GameData, types: &Vec<String>, atk_type: &String) -> (r: Vec<Effectiveness>)
    ensures
        r@ == spec_multipliers(*data, types@, atk_type@),
{
    let mut out: Vec<Effectiveness> = Vec::new();
    let mut i: usize = 0;
    while i < types.len()
        invariant
            0 <= i <= types@.len(),
            out@ == spec_multipliers(*data, types@.take(i as int), atk_type@),
        decreases types.len() - i,
    {
        assert(types@.take(i + 1).drop_last() == types@.take(i as int));
        match data.effectiveness(&types[i], atk_type) {
            Some(e) => out.push(e),
            None => {},
        }
        i += 1;
    }
    assert(types@.take(types@.len() as int) == types@);
    out
}

/// The factors of the damage that a Pokémon of species `atk_species` deals
/// with `move_data` to one of species `def_species`.
pub fn damage_factors(atk_species: u16, def_species: u16, move_data: &MoveData, game_data: &GameData) -> (r: DamageFactors)
    ensures
        r@ == spec_damage_factors(*game_data, atk_species, def_species, *move_data),
{
    let physical = String::from_str("Physical");
    let special = String::from_str("Special");
    let is_physical = move_data.category == physical;
    let is_special = move_data.category == special;
    let mut atk_stat: u32 = 100;
    let mut def_stat: u32 = 100;
    let mut stab = false;
    let mut multipliers: Vec<Effectiveness> = Vec::new();
    match game_data.species_index(atk_species) {
        Some(k) => {
            let p = &game_data.pokedex[k].1;
            stab = holds(&p.types, &move_data.move_type);
            if is_physical {
                atk_stat = 2 * (p.base_stats.atk as u32) + 99;
            } else if is_special {
                atk_stat = 2 * (p.base_stats.spa as u32) + 99;
            }
        },
        None => {},
    }
    match game_data.species_index(def_species) {
        Some(k) => {
            let p = &game_data.pokedex[k].1;
            if is_physical {
                def_stat = 2 * (p.base_stats.def as u32) + 99;
            } else if is_special {
                def_stat = 2 * (p.base_stats.spd as u32) + 99;
            }
            multipliers = type_multipliers(game_data, &p.types, &move_data.move_type);
        },
        None => {},
    }
    DamageFactors { base_power: move_data.base_power, atk_stat, def_stat, stab, multipliers }
}

/// A Pokémon after taking `damage`: at 0 HP and fainted when the damage
/// reaches its HP, else with its HP lowered by the damage.
pub open spec fn spec_take_hit(p: PokemonState, damage: u16) -> PokemonState {
    if damage >= p.hp {
        PokemonState { hp: 0, fainted: true, ..p }
    } else {
        PokemonState { hp: (p.hp - damage) as u16, ..p }
    }
}

/// The battle after the active Pokémon of the opponent of player 1 (when
/// `attacker_is_p1`) or of player 2 takes `damage`.
pub open spec fn spec_apply_damage(s: BattleState, attacker_is_p1: bool, damage: u16) -> BattleState {
    let opp = s.player(!attacker_is_p1);
    let i = opp.active_pokemon_index as int;
    s.with_player(!attacker_is_p1, PlayerState { team: vstd::array::spec_array_update(opp.team, i, spec_take_hit(opp.team[i], damage)), ..opp })
}

/// The opponent's active Pokémon of player 1 (when `attacker_is_p1`) or of
/// player 2 takes `damage`.
pub fn apply_damage(state: &mut BattleState, attacker_is_p1: bool, damage: u16)
    requires
        old(state).player(!attacker_is_p1).active_in_range(),
    ensures
        *final(state) == spec_apply_damage(*old(state), attacker_is_p1, damage),
{
    let opp_state = if attacker_is_p1 {
        &mut state.p2
    } else {
        &mut state.p1
    };
    let i = opp_state.active_pokemon_index as usize;
    let mut defender = opp_state.team[i];
    if damage >= defender.hp {
        defender.hp = 0;
        defender.fainted = true;
    } else {
        defender.hp = defender.hp - damage;
    }
    opp_state.team[i] = defender;
}

/// The factors of the damage that the move in slot `move_idx` of the active
/// Pokémon of player 1 (when `is_p1`) or player 2 deals to the opposing
/// active Pokémon; `None` when the slot is out of range, empty, or holds a
/// move the game data does not know.
pub open spec fn spec_move_factors(s: BattleState, is_p1: bool, move_idx: u8, data: GameData) -> Option<DamageFactorsView> {
    let attacker = s.player(is_p1).active();
    let defender = s.player(!is_p1).active();
    if move_idx >= 4 {
        None
    } else {
        let id = attacker.moves[move_idx as int];
        if id == 0 {
            None
        } else {
            match data.spec_move_index(id) {
                Some(m) => Some(spec_damage_factors(data, attacker.species_id, defender.species_id, data.moves@[m].1)),
                None => None,
            }
        }
    }
}

/// The closure `damage` computes the function `dmg` of the damage factors.
pub open spec fn computes<F: Fn(DamageFactors) -> u16>(damage: F, dmg: spec_fn(DamageFactorsView) -> u16) -> bool {
    forall|f: DamageFactors, d: u16| #[trigger] call_ensures(damage, (f,), d) ==> d == dmg(f@)
}

/// Some type multiplier of the factors makes the defender immune.
pub open spec fn has_immune(f: DamageFactorsView) -> bool {
    exists|i: int| 0 <= i < f.multipliers.len() && f.multipliers[i] == Effectiveness::Immune
}

/// Whether some type multiplier of `f` makes the defender immune.
pub fn has_immunity(f: &DamageFactors) -> (r: bool)
    ensures
        r == has_immune(f@),
{
    let mut i: usize = 0;
    while i < f.multipliers.len()
        invariant
            0 <= i <= f.multipliers@.len(),
            forall|j: int| 0 <= j < i ==> f.multipliers@[j] != Effectiveness::Immune,
        decreases f.multipliers.len() - i,
    {
        if f.multipliers[i] == Effectiveness::Immune {
            return true;
        }
        i += 1;
    }
    false
}

/// The damage of a hit with factors `f`: none against an immune defender,
/// else what `dmg` gives.
pub open spec fn spec_hit_damage(f: DamageFactorsView, dmg: spec_fn(DamageFactorsView) -> u16) -> u16 {
    if has_immune(f) {
        0
    } else {
        dmg(f)
    }
}

/// The battle after player 1 (when `is_p1`) or player 2 uses the move in
/// slot `move_idx`, where `dmg` gives the damage of a hit from its factors.
pub open spec fn spec_execute_move(s: BattleState, is_p1: bool, move_idx: u8, data: GameData, dmg: spec_fn(DamageFactorsView) -> u16) -> BattleState {
    match spec_move_factors(s, is_p1, move_idx, data) {
        Some(f) => spec_apply_damage(s, is_p1, spec_hit_damage(f, dmg)),
        None => s,
    }
}

/// Where the move in slot `move_idx` asks `damage` for a hit's damage (a
/// known move against a defender that is not immune), `dmg` gives a value
/// that `damage` may return for the move's factors.
pub open spec fn answers_move<F: Fn(DamageFactors) -> u16>(damage: F, s: BattleState, is_p1: bool, move_idx: u8, data: GameData, dmg: spec_fn(DamageFactorsView) -> u16) -> bool {
    match spec_move_factors(s, is_p1, move_idx, data) {
        Some(fv) => !has_immune(fv) ==> exists|f: DamageFactors| f@ == fv && #[trigger] call_ensures(damage, (f,), dmg(fv)),
        None => true,
    }
}

/// As [`answers_move`], for an action: only a move asks for damage.
pub open spec fn answers_action<F: Fn(DamageFactors) -> u16>(damage: F, s: BattleState, is_p1: bool, action: Action, data: GameData, dmg: spec_fn(DamageFactorsView) -> u16) -> bool {
    match action {
        Action::Move(move_idx) => answers_move(damage, s, is_p1, move_idx, data, dmg),
        _ => true,
    }
}

/// Player 1 (when `is_p1`) or player 2 uses the move in slot `move_idx`:
/// when the slot holds a known move, the opposing active Pokémon takes the
/// damage of the hit: none when a type multiplier makes it immune, else
/// what `damage` computes from the move's factors (asked once).
pub fn execute_move<F: Fn(DamageFactors) -> u16>(state: &mut BattleState, is_p1: bool, move_idx: u8, game_data: &GameData, damage: &F)
    requires
        old(state).actives_in_range(),
        forall|f: DamageFactors| damage.requires((f,)),
    ensures
        forall|dmg: spec_fn(DamageFactorsView) -> u16| #[trigger] computes(*damage, dmg)
            ==> *final(state) == spec_execute_move(*old(state), is_p1, move_idx, *game_data, dmg),
        exists|dmg: spec_fn(DamageFactorsView) -> u16| #[trigger] answers_move(*damage, *old(state), is_p1, move_idx, *game_data, dmg)
            && *final(state) == spec_execute_move(*old(state), is_p1, move_idx, *game_data, dmg),
        final(state).p1.active_pokemon_index == old(state).p1.active_pokemon_index,
        final(state).p2.active_pokemon_index == old(state).p2.active_pokemon_index,
{
    let ghost s0 = *state;
    let ghost zero = |x: DamageFactorsView| 0u16;
    let p_state = if is_p1 {
        &state.p1
    } else {
        &state.p2
    };
    let opp_state = if is_p1 {
        &state.p2
    } else {
        &state.p1
    };
    let attacker_species = p_state.team[p_state.active_pokemon_index as usize].species_id;
    let defender_species = opp_state.team[opp_state.active_pokemon_index as usize].species_id;
    if move_idx >= 4 {
        assert(answers_move(*damage, s0, is_p1, move_idx, *game_data, zero));
        return;
    }
    let move_id = p_state.team[p_state.active_pokemon_index as usize].moves[move_idx as usize];
    if move_id == 0 {
        assert(answers_move(*damage, s0, is_p1, move_idx, *game_data, zero));
        return;
    }
    match game_data.move_index(move_id) {
        Some(m) => {
            let factors = damage_factors(attacker_species, defender_species, &game_data.moves[m].1, game_data);
            let ghost fv = factors@;
            if has_immunity(&factors) {
                apply_damage(state, is_p1, 0);
                proof {
                    assert(answers_move(*damage, s0, is_p1, move_idx, *game_data, zero));
                    assert(*state == spec_execute_move(s0, is_p1, move_idx, *game_data, zero));
                }
            } else {
                let ghost fg = factors;
                let d = damage(factors);
                apply_damage(state, is_p1, d);
                proof {
                    let dmg = |x: DamageFactorsView| d;
                    assert(fg@ == fv && call_ensures(*damage, (fg,), dmg(fv)));
                    assert(answers_move(*damage, s0, is_p1, move_idx, *game_data, dmg));
                    assert(*state == spec_execute_move(s0, is_p1, move_idx, *game_data, dmg));
                    assert forall|dmg: spec_fn(DamageFactorsView) -> u16| #[trigger] computes(*damage, dmg)
                        implies *state == spec_execute_move(s0, is_p1, move_idx, *game_data, dmg) by {
                        assert(d == dmg(fv));
                    }
                }
            }
        },
        None => {
            assert(answers_move(*damage, s0, is_p1, move_idx, *game_data, zero));
        },
    }
}

/// The battle after player 1 (when `is_p1`) or player 2 takes `action`.
pub open spec fn spec_execute_action(s: BattleState, is_p1: bool, action: Action, data: GameData, dmg: spec_fn(DamageFactorsView) -> u16) -> BattleState {
    match action {
        Action::Move(move_idx) => spec_execute_move(s, is_p1, move_idx, data, dmg),
        Action::Switch(switch_idx) => spec_switch(s, is_p1, switch_idx),
        Action::Pass => s,
    }
}

/// Player 1 (when `is_p1`) or player 2 takes `action`.
pub fn execute_action<F: Fn(DamageFactors) -> u16>(state: &mut BattleState, is_p1: bool, action: Action, game_data: &GameData, damage: &F)
    requires
        action is Move ==> old(state).actives_in_range(),
        forall|f: DamageFactors| damage.requires((f,)),
    ensures
        forall|dmg: spec_fn(DamageFactorsView) -> u16| #[trigger] computes(*damage, dmg)
            ==> *final(state) == spec_execute_action(*old(state), is_p1, action, *game_data, dmg),
        exists|dmg: spec_fn(DamageFactorsView) -> u16| #[trigger] answers_action(*damage, *old(state), is_p1, action, *game_data, dmg)
            && *final(state) == spec_execute_action(*old(state), is_p1, action, *game_data, dmg),
        action matches Action::Switch(k) ==> *final(state) == spec_switch(*old(state), is_p1, k),
        action is Pass ==> *final(state) == *old(state),
        action is Move ==> final(state).p1.active_pokemon_index == old(state).p1.active_pokemon_index
            && final(state).p2.active_pokemon_index == old(state).p2.active_pokemon_index,
        only_wears_down(*old(state), *final(state)),
        field_unchanged(*old(state), *final(state)),
{
    let ghost s0 = *state;
    let ghost zero = |x: DamageFactorsView| 0u16;
    match action {
        Action::Move(move_idx) => {
            execute_move(state, is_p1, move_idx, game_data, damage);
            proof {
                let dmg = choose|dmg: spec_fn(DamageFactorsView) -> u16| #[trigger] answers_move(*damage, s0, is_p1, move_idx, *game_data, dmg)
                    && *state == spec_execute_move(s0, is_p1, move_idx, *game_data, dmg);
                assert(answers_action(*damage, s0, is_p1, action, *game_data, dmg));
                lemma_action_wears_down(s0, is_p1, action, *game_data, dmg);
            }
        },
        Action::Switch(switch_idx) => {
            execute_switch(state, is_p1, switch_idx);
            proof {
                assert(answers_action(*damage, s0, is_p1, action, *game_data, zero));
                lemma_action_wears_down(s0, is_p1, action, *game_data, zero);
            }
        },
        Action::Pass => {
            proof {
                assert(answers_action(*damage, s0, is_p1, action, *game_data, zero));
                lemma_action_wears_down(s0, is_p1, action, *game_data, zero);
            }
        },
    }
}

/// Whether player 1 moves first: its active Pokémon is at least as fast.
pub open spec fn spec_p1_first(s: BattleState, data: GameData) -> bool {
    spec_calculate_speed(s, true, data) >= spec_calculate_speed(s, false, data)
}

/// The turn would index a team out of range: the first mover switches to a
/// slot past the team and the second mover, still standing, then uses a move.
pub open spec fn spec_step_faults(s: BattleState, p1_action: Action, p2_action: Action, data: GameData) -> bool {
    let first = spec_p1_first(s, data);
    let first_action = if first { p1_action } else { p2_action };
    let second_action = if first { p2_action } else { p1_action };
    &&& first_action matches Action::Switch(k) && k >= 6
    &&& second_action is Move
    &&& !s.player(!first).active().fainted
}

/// The battle after one turn in which the first mover's hit (if any) deals
/// what `dmg1` gives and the second mover's what `dmg2` gives.
pub open spec fn spec_step_with(s: BattleState, p1_action: Action, p2_action: Action, data: GameData, dmg1: spec_fn(DamageFactorsView) -> u16, dmg2: spec_fn(DamageFactorsView) -> u16) -> BattleState {
    let first = spec_p1_first(s, data);
    let first_action = if first { p1_action } else { p2_action };
    let second_action = if first { p2_action } else { p1_action };
    let mid = spec_execute_action(s, first, first_action, data, dmg1);
    if !mid.player(!first).active().fainted {
        spec_execute_action(mid, !first, second_action, data, dmg2)
    } else {
        mid
    }
}

/// The battle after one turn: the faster side (player 1 on a tie) acts
/// first; the other acts next unless its active Pokémon has fainted.
pub open spec fn spec_step(s: BattleState, p1_action: Action, p2_action: Action, data: GameData, dmg: spec_fn(DamageFactorsView) -> u16) -> BattleState {
    spec_step_with(s, p1_action, p2_action, data, dmg, dmg)
}

/// `dmg1` and `dmg2` give, for each hit of the turn that asks `damage`, a
/// value that `damage` may return for its factors.
pub open spec fn step_answered<F: Fn(DamageFactors) -> u16>(damage: F, s: BattleState, p1_action: Action, p2_action: Action, data: GameData, dmg1: spec_fn(DamageFactorsView) -> u16, dmg2: spec_fn(DamageFactorsView) -> u16) -> bool {
    let first = spec_p1_first(s, data);
    let first_action = if first { p1_action } else { p2_action };
    let second_action = if first { p2_action } else { p1_action };
    let mid = spec_execute_action(s, first, first_action, data, dmg1);
    &&& answers_action(damage, s, first, first_action, data, dmg1)
    &&& !mid.player(!first).active().fainted ==> answers_action(damage, mid, !first, second_action, data, dmg2)
}

/// Whether playing this turn would index a team out of range (see
/// [`spec_step_faults`]); `step` requires that it would not.
pub fn step_faults(state: &BattleState, p1_action: Action, p2_action: Action, game_data: &GameData) -> (r: bool)
    requires
        state.actives_in_range(),
    ensures
        r == spec_step_faults(*state, p1_action, p2_action, *game_data),
{
    let first = calculate_speed(state, true, game_data) >= calculate_speed(state, false, game_data);
    let (first_action, second_action) = if first {
        (p1_action, p2_action)
    } else {
        (p2_action, p1_action)
    };
    let switches_out = match first_action {
        Action::Switch(k) => k >= 6,
        _ => false,
    };
    let second_moves = match second_action {
        Action::Move(_) => true,
        _ => false,
    };
    switches_out && second_moves && !is_fainted(state, !first)
}

/// Plays one turn: the side whose active Pokémon is faster (player 1 on a
/// tie) acts first, then the other side acts unless its active Pokémon has
/// fainted. `damage` computes a hit's damage from its factors.
pub fn step<F: Fn(DamageFactors) -> u16>(state: &mut BattleState, p1_action: Action, p2_action: Action, game_data: &GameData, damage: &F)
    requires
        old(state).actives_in_range(),
        !spec_step_faults(*old(state), p1_action, p2_action, *game_data),
        forall|f: DamageFactors| damage.requires((f,)),
    ensures
        forall|dmg: spec_fn(DamageFactorsView) -> u16| #[trigger] computes(*damage, dmg)
            ==> *final(state) == spec_step(*old(state), p1_action, p2_action, *game_data, dmg),
        exists|dmg1: spec_fn(DamageFactorsView) -> u16, dmg2: spec_fn(DamageFactorsView) -> u16|
            #[trigger] step_answered(*damage, *old(state), p1_action, p2_action, *game_data, dmg1, dmg2)
            && *final(state) == spec_step_with(*old(state), p1_action, p2_action, *game_data, dmg1, dmg2),
        only_wears_down(*old(state), *final(state)),
        field_unchanged(*old(state), *final(state)),
{
    let p1_speed = calculate_speed(state, true, game_data);
    let p2_speed = calculate_speed(state, false, game_data);
    let (first_player, first_action, second_player, second_action) = if p1_speed >= p2_speed {
        (true, p1_action, false, p2_action)
    } else {
        (false, p2_action, true, p1_action)
    };
    let ghost s0 = *state;
    execute_action(state, first_player, first_action, game_data, damage);
    let ghost s1 = *state;
    let ghost dmg1 = choose|dmg: spec_fn(DamageFactorsView) -> u16| #[trigger] answers_action(*damage, s0, first_player, first_action, *game_data, dmg)
        && s1 == spec_execute_action(s0, first_player, first_action, *game_data, dmg);
    assert(s1.player(second_player).active_in_range());
    if !is_fainted(state, second_player) {
        assert(second_action is Move ==> s1.actives_in_range());
        execute_action(state, second_player, second_action, game_data, damage);
        proof {
            lemma_wears_down_trans(s0, s1, *state);
            lemma_field_unchanged_trans(s0, s1, *state);
            let dmg2 = choose|dmg: spec_fn(DamageFactorsView) -> u16| #[trigger] answers_action(*damage, s1, second_player, second_action, *game_data, dmg)
                && *state == spec_execute_action(s1, second_player, second_action, *game_data, dmg);
            assert(step_answered(*damage, s0, p1_action, p2_action, *game_data, dmg1, dmg2));
            assert(*state == spec_step_with(s0, p1_action, p2_action, *game_data, dmg1, dmg2));
        }
    } else {
        proof {
            assert(step_answered(*damage, s0, p1_action, p2_action, *game_data, dmg1, dmg1));
            assert(*state == spec_step_with(s0, p1_action, p2_action, *game_data, dmg1, dmg1));
        }
    }
}

proof fn lemma_field_unchanged_trans(a: BattleState, b: BattleState, c: BattleState)
    requires
        field_unchanged(a, b),
        field_unchanged(b, c),
    ensures
        field_unchanged(a, c),
{
    assert forall|side: bool| #![trigger c.player(side)] {
        let before = a.player(side);
        let after = c.player(side);
        after == PlayerState { team: after.team, active_pokemon_index: after.active_pokemon_index, ..before }
    } by {
        let _ = b.player(side);
    }
}

/// From `a` to `b` nothing changed of the field and of each side but the
/// teams and the active indices.
pub open spec fn field_unchanged(a: BattleState, b: BattleState) -> bool {
    &&& b.weather_terrain == a.weather_terrain
    &&& b.weather_turns == a.weather_turns
    &&& b.terrain_turns == a.terrain_turns
    &&& b.trick_room_turns == a.trick_room_turns
    &&& b.turn == a.turn
    &&& forall|side: bool| #![trigger b.player(side)] {
        let before = a.player(side);
        let after = b.player(side);
        after == PlayerState { team: after.team, active_pokemon_index: after.active_pokemon_index, ..before }
    }
}

/// From `a` to `b` no team member gained HP or recovered from fainting, and
/// nothing of a team member but its HP and fainted mark changed.
pub open spec fn only_wears_down(a: BattleState, b: BattleState) -> bool {
    forall|side: bool, i: int| 0 <= i < 6 ==> {
        let before = #[trigger] a.player(side).team[i];
        let after = b.player(side).team[i];
        &&& after == PokemonState { hp: after.hp, fainted: after.fainted, ..before }
        &&& after.hp <= before.hp
        &&& before.fainted ==> after.fainted
    }
}

proof fn lemma_action_wears_down(s: BattleState, is_p1: bool, action: Action, data: GameData, dmg: spec_fn(DamageFactorsView) -> u16)
    requires
        action is Move ==> s.actives_in_range(),
    ensures
        only_wears_down(s, spec_execute_action(s, is_p1, action, data, dmg)),
        field_unchanged(s, spec_execute_action(s, is_p1, action, data, dmg)),
        spec_execute_action(s, is_p1, action, data, dmg).player(!is_p1).active_pokemon_index == s.player(!is_p1).active_pokemon_index,
        action is Move ==> spec_execute_action(s, is_p1, action, data, dmg).player(is_p1).active_pokemon_index == s.player(is_p1).active_pokemon_index,
{
    let r = spec_execute_action(s, is_p1, action, data, dmg);
    assert forall|side: bool, i: int| 0 <= i < 6 implies {
        let before = #[trigger] s.player(side).team[i];
        let after = r.player(side).team[i];
        &&& after == PokemonState { hp: after.hp, fainted: after.fainted, ..before }
        &&& after.hp <= before.hp
        &&& before.fainted ==> after.fainted
    } by {
        match action {
            Action::Move(m) => {
                match spec_move_factors(s, is_p1, m, data) {
                    Some(f) => {
                        let opp = s.player(!is_p1);
                        let idx = opp.active_pokemon_index as int;
                        let hit = spec_take_hit(opp.team[idx], dmg(f));
                        assert(vstd::array::spec_array_update(opp.team, idx, hit)@ == opp.team@.update(idx, hit));
                    },
                    None => {},
                }
            },
            _ => {},
        }
    }
}

proof fn lemma_wears_down_trans(a: BattleState, b: BattleState, c: BattleState)
    requires
        only_wears_down(a, b),
        only_wears_down(b, c),
    ensures
        only_wears_down(a, c),
{
    assert forall|side: bool, i: int| 0 <= i < 6 implies {
        let before = #[trigger] a.player(side).team[i];
        let after = c.player(side).team[i];
        &&& after == PokemonState { hp: after.hp, fainted: after.fainted, ..before }
        &&& after.hp <= before.hp
        &&& before.fainted ==> after.fainted
    } by {
        let _ = b.player(side).team[i];
    }
}

/// A turn only wears Pokémon down: no team member gains HP or recovers from
/// fainting, and nothing of a team member but its HP and fainted mark
/// changes. Whatever the damage function.
pub proof fn lemma_step_only_wears_down(s: BattleState, p1_action: Action, p2_action: Action, data: GameData, dmg: spec_fn(DamageFactorsView) -> u16)
    requires
        s.actives_in_range(),
        !spec_step_faults(s, p1_action, p2_action, data),
    ensures
        only_wears_down(s, spec_step(s, p1_action, p2_action, data, dmg)),
{
    let first = spec_p1_first(s, data);
    let first_action = if first { p1_action } else { p2_action };
    let second_action = if first { p2_action } else { p1_action };
    let mid = spec_execute_action(s, first, first_action, data, dmg);
    lemma_action_wears_down(s, first, first_action, data, dmg);
    if !mid.player(!first).active().fainted {
        let end = spec_execute_action(mid, !first, second_action, data, dmg);
        if mid.actives_in_range() {
            lemma_action_wears_down(mid, !first, second_action, data, dmg);
            lemma_wears_down_trans(s, mid, end);
        } else {
            assert(!(second_action is Move));
            assert(end.p1.team == mid.p1.team && end.p2.team == mid.p2.team);
        }
    }
}

/// A turn in which every switch names a slot of the team leaves both active
/// indices naming slots of their teams.
pub proof fn lemma_step_keeps_actives_in_range(s: BattleState, p1_action: Action, p2_action: Action, data: GameData, dmg: spec_fn(DamageFactorsView) -> u16)
    requires
        s.actives_in_range(),
        p1_action matches Action::Switch(k) ==> k < 6,
        p2_action matches Action::Switch(k) ==> k < 6,
    ensures
        !spec_step_faults(s, p1_action, p2_action, data),
        spec_step(s, p1_action, p2_action, data, dmg).actives_in_range(),
{
    let first = spec_p1_first(s, data);
    let first_action = if first { p1_action } else { p2_action };
    let second_action = if first { p2_action } else { p1_action };
    let mid = spec_execute_action(s, first, first_action, data, dmg);
    lemma_action_wears_down(s, first, first_action, data, dmg);
    assert(mid.actives_in_range());
    lemma_action_wears_down(mid, !first, second_action, data, dmg);
}

/// `a` and `b` are the same battle except, perhaps, for team members that
/// are not on the field: same field, same sides, same active indices and
/// the same active Pokémon.
pub open spec fn same_but_bench(a: BattleState, b: BattleState) -> bool {
    &&& field_unchanged(a, b)
    &&& a.p1.active_pokemon_index == b.p1.active_pokemon_index
    &&& a.p2.active_pokemon_index == b.p2.active_pokemon_index
    &&& a.p1.active() == b.p1.active()
    &&& a.p2.active() == b.p2.active()
}

/// Nothing of a team member that is not on the field changed from `a` to `b`.
pub open spec fn bench_untouched(a: BattleState, b: BattleState) -> bool {
    forall|side: bool, k: int| 0 <= k < 6 && k != a.player(side).active_pokemon_index ==>
        #[trigger] b.player(side).team[k] == a.player(side).team[k]
}

/// A side's speed is read from its active Pokémon alone: two battles whose
/// active Pokémon on that side have the same species give the same speed,
/// whatever the rest of the team and whichever slot is active.
pub proof fn lemma_speed_reads_only_active_species(a: BattleState, b: BattleState, is_p1: bool, data: GameData)
    requires
        a.player(is_p1).team[a.player(is_p1).active_pokemon_index as int].species_id
            == b.player(is_p1).team[b.player(is_p1).active_pokemon_index as int].species_id,
    ensures
        spec_calculate_speed(a, is_p1, data) == spec_calculate_speed(b, is_p1, data),
{
}

/// A species that the data lists gets, at level 100, the speed
/// `2 * base speed + 57` of its entry (capped to `u16`); an unlisted species
/// gets 100. The species is that of the side's active Pokémon,
/// `team[active_pokemon_index]`.
pub proof fn lemma_speed_formula(s: BattleState, is_p1: bool, data: GameData)
    ensures
        ({
            let species = s.player(is_p1).team[s.player(is_p1).active_pokemon_index as int].species_id;
            match data.spec_species_index(species) {
                Some(k) => {
                    let spe = data.pokedex@[k].1.base_stats.spe;
                    &&& spe <= 32739 ==> spec_calculate_speed(s, is_p1, data) == 2 * spe + 57
                    &&& spe > 32739 ==> spec_calculate_speed(s, is_p1, data) == 65535
                },
                None => spec_calculate_speed(s, is_p1, data) == 100,
            }
        }),
{
}

/// The attacking and defending stats of a hit: a physical move pits the
/// attacker's Attack against the defender's Defense, a special move its
/// Sp. Atk against the defender's Sp. Def, each at level 100 as
/// `2 * base + 99` of the species' entry; any other move, or a species the
/// data does not list, uses 100.
pub proof fn lemma_stats_follow_category(data: GameData, atk_species: u16, def_species: u16, mv: MoveData)
    ensures
        ({
            let f = spec_damage_factors(data, atk_species, def_species, mv);
            let physical = mv.category@ == "Physical"@;
            let special = mv.category@ == "Special"@;
            &&& match data.spec_species_index(def_species) {
                Some(k) => {
                    let b = data.pokedex@[k].1.base_stats;
                    &&& physical ==> f.def_stat == 2 * b.def + 99
                    &&& special ==> f.def_stat == 2 * b.spd + 99
                    &&& !physical && !special ==> f.def_stat == 100
                },
                None => f.def_stat == 100,
            }
            &&& match data.spec_species_index(atk_species) {
                Some(k) => {
                    let b = data.pokedex@[k].1.base_stats;
                    &&& physical ==> f.atk_stat == 2 * b.atk + 99
                    &&& special ==> f.atk_stat == 2 * b.spa + 99
                    &&& !physical && !special ==> f.atk_stat == 100
                },
                None => f.atk_stat == 100,
            }
        }),
{
    reveal_strlit("Physical");
    reveal_strlit("Special");
    assert("Physical"@ != "Special"@) by {
        assert("Physical"@[0] != "Special"@[0]);
    }
}

/// A move is resolved against the opposing side's active Pokémon only: in
/// two battles that differ only in team members off the field, it has the
/// same effect on the field, and it never touches a member off the field.
pub proof fn lemma_move_ignores_bench(a: BattleState, b: BattleState, is_p1: bool, move_idx: u8, data: GameData, dmg: spec_fn(DamageFactorsView) -> u16)
    requires
        a.actives_in_range(),
        same_but_bench(a, b),
    ensures
        same_but_bench(spec_execute_move(a, is_p1, move_idx, data, dmg), spec_execute_move(b, is_p1, move_idx, data, dmg)),
        bench_untouched(a, spec_execute_move(a, is_p1, move_idx, data, dmg)),
{
    assert(a.player(is_p1).active() == b.player(is_p1).active());
    assert(a.player(!is_p1).active() == b.player(!is_p1).active());
    assert(spec_move_factors(a, is_p1, move_idx, data) == spec_move_factors(b, is_p1, move_idx, data));
    match spec_move_factors(a, is_p1, move_idx, data) {
        Some(f) => {
            let d = spec_hit_damage(f, dmg);
            lemma_hit_ignores_bench(a, b, is_p1, d);
        },
        None => {
            assert(bench_untouched(a, a));
        },
    }
}

proof fn lemma_hit_ignores_bench(a: BattleState, b: BattleState, is_p1: bool, d: u16)
    requires
        a.actives_in_range(),
        same_but_bench(a, b),
    ensures
        same_but_bench(spec_apply_damage(a, is_p1, d), spec_apply_damage(b, is_p1, d)),
        bench_untouched(a, spec_apply_damage(a, is_p1, d)),
{
    let ra = spec_apply_damage(a, is_p1, d);
    let rb = spec_apply_damage(b, is_p1, d);
    let oa = a.player(!is_p1);
    let ob = b.player(!is_p1);
    let idx = oa.active_pokemon_index as int;
    assert(oa.active() == ob.active());
    let hit = spec_take_hit(oa.team[idx], d);
    assert(vstd::array::spec_array_update(oa.team, idx, hit)@ == oa.team@.update(idx, hit));
    assert(vstd::array::spec_array_update(ob.team, idx, hit)@ == ob.team@.update(idx, hit));
    assert(ra.player(!is_p1).active() == hit);
    assert(rb.player(!is_p1).active() == hit);
    assert(ra.player(is_p1) == a.player(is_p1));
    assert(rb.player(is_p1) == b.player(is_p1));
    assert forall|side: bool| #![trigger rb.player(side)] {
        let before = ra.player(side);
        let after = rb.player(side);
        after == PlayerState { team: after.team, active_pokemon_index: after.active_pokemon_index, ..before }
    } by {
        let _ = a.player(side);
        let _ = b.player(side);
    }
    assert forall|side: bool, k: int| 0 <= k < 6 && k != a.player(side).active_pokemon_index implies
        #[trigger] ra.player(side).team[k] == a.player(side).team[k] by {
        if side != is_p1 {
            assert(ra.player(side).team@ == oa.team@.update(idx, hit));
        }
    }
}

proof fn lemma_action_ignores_bench(a: BattleState, b: BattleState, is_p1: bool, action: Action, data: GameData, dmg: spec_fn(DamageFactorsView) -> u16)
    requires
        a.actives_in_range(),
        same_but_bench(a, b),
        !(action is Switch),
    ensures
        same_but_bench(spec_execute_action(a, is_p1, action, data, dmg), spec_execute_action(b, is_p1, action, data, dmg)),
        bench_untouched(a, spec_execute_action(a, is_p1, action, data, dmg)),
        spec_execute_action(a, is_p1, action, data, dmg).actives_in_range(),
{
    match action {
        Action::Move(m) => {
            lemma_move_ignores_bench(a, b, is_p1, m, data, dmg);
            lemma_action_wears_down(a, is_p1, action, data, dmg);
        },
        _ => {
            assert(bench_untouched(a, a));
        },
    }
}

/// A turn without switches is played on the field alone: in two battles
/// that differ only in team members off the field (their HP, fainted marks,
/// species, anything), the turn goes the same way: the same side moves
/// first, the second mover acts in both or in neither (it acts exactly when
/// its own active Pokémon, `team[active_pokemon_index]`, is still standing),
/// and the active Pokémon end the same. Members off the field are left as
/// they were.
pub proof fn lemma_step_ignores_bench(a: BattleState, b: BattleState, p1_action: Action, p2_action: Action, data: GameData, dmg: spec_fn(DamageFactorsView) -> u16)
    requires
        a.actives_in_range(),
        same_but_bench(a, b),
        !(p1_action is Switch),
        !(p2_action is Switch),
    ensures
        same_but_bench(spec_step(a, p1_action, p2_action, data, dmg), spec_step(b, p1_action, p2_action, data, dmg)),
        bench_untouched(a, spec_step(a, p1_action, p2_action, data, dmg)),
{
    lemma_speed_reads_only_active_species(a, b, true, data);
    lemma_speed_reads_only_active_species(a, b, false, data);
    let first = spec_p1_first(a, data);
    let first_action = if first { p1_action } else { p2_action };
    let second_action = if first { p2_action } else { p1_action };
    lemma_action_ignores_bench(a, b, first, first_action, data, dmg);
    let ma = spec_execute_action(a, first, first_action, data, dmg);
    let mb = spec_execute_action(b, first, first_action, data, dmg);
    assert(ma.player(!first).active() == mb.player(!first).active());
    if !ma.player(!first).active().fainted {
        lemma_action_ignores_bench(ma, mb, !first, second_action, data, dmg);
        let ea = spec_execute_action(ma, !first, second_action, data, dmg);
        assert forall|side: bool, k: int| 0 <= k < 6 && k != a.player(side).active_pokemon_index implies
            #[trigger] ea.player(side).team[k] == a.player(side).team[k] by {
            assert(ma.player(side).active_pokemon_index == a.player(side).active_pokemon_index);
            assert(ma.player(side).team[k] == a.player(side).team[k]);
        }
    }
}

/// When the second mover's active Pokémon is still standing after the first
/// action, the second mover acts: the turn ends as its action leaves the
/// battle after the first one. Members of the second mover's team that are
/// off the field, fainted or not, have no say.
pub proof fn lemma_standing_second_mover_acts(s: BattleState, p1_action: Action, p2_action: Action, data: GameData, dmg: spec_fn(DamageFactorsView) -> u16)
    ensures
        ({
            let first = spec_p1_first(s, data);
            let first_action = if first { p1_action } else { p2_action };
            let second_action = if first { p2_action } else { p1_action };
            let mid = spec_execute_action(s, first, first_action, data, dmg);
            let standing = !mid.player(!first).team[mid.player(!first).active_pokemon_index as int].fainted;
            &&& standing ==> spec_step(s, p1_action, p2_action, data, dmg) == spec_execute_action(mid, !first, second_action, data, dmg)
            &&& !standing ==> spec_step(s, p1_action, p2_action, data, dmg) == mid
        }),
{
}

} // verus!
