//! The battle state: flag sets, per-Pokémon, per-player and whole-battle
//! state, and the action a player chooses for a turn.
use vstd::prelude::*;

verus! {

/// Volatile conditions of a Pokémon, as a set of bits.
#[derive(Debug, Clone, Copy, PartialEq, Eq, Hash, Structural)]
pub struct VolatileStatus {
    bits: u32,
}

impl View for VolatileStatus {
    type V = u32;

    closed spec fn view(&self) -> u32 {
        self.bits
    }
}

impl VolatileStatus {
    pub const NONE: u32 = 0;
    pub const CONFUSION: u32 = 1;
    pub const FLINCH: u32 = 2;
    pub const TAUNT: u32 = 4;
    pub const ENCORE: u32 = 8;
    pub const LEECH_SEED: u32 = 16;
    pub const SUBSTITUTE: u32 = 32;
    pub const PROTECT: u32 = 64;
    pub const ROOST: u32 = 128;

    /// The set whose bits are `bits`, as a specification value.
    pub closed spec fn spec_from_bits(bits: u32) -> Self {
        VolatileStatus { bits }
    }

    /// The set with no condition.
    pub fn empty() -> (r: Self)
        ensures
            r@ == 0,
            r == Self::spec_from_bits(0),
    {
        VolatileStatus { bits: 0 }
    }

    /// The set whose bits are exactly `bits`.
    pub fn from_bits_retain(bits: u32) -> (r: Self)
        ensures
            r@ == bits,
            r == Self::spec_from_bits(bits),
    {
        VolatileStatus { bits }
    }

    /// The raw bits.
    pub fn bits(&self) -> (r: u32)
        ensures
            r == self@,
    {
        self.bits
    }

    /// Whether no bit is set.
    pub fn is_empty(&self) -> (r: bool)
        ensures
            r == (self@ == 0),
    {
        self.bits == 0
    }

    /// Whether every bit of `other` is set in `self`.
    pub fn contains(&self, other: Self) -> (r: bool)
        ensures
            r == (self@ & other@ == other@),
    {
        self.bits & other.bits == other.bits
    }

    /// Sets every bit of `other`.
    pub fn insert(&mut self, other: Self)
        ensures
            final(self)@ == old(self)@ | other@,
    {
        self.bits = self.bits | other.bits;
    }

    /// Clears every bit of `other`.
    pub fn remove(&mut self, other: Self)
        ensures
            final(self)@ == old(self)@ & !other@,
    {
        self.bits = self.bits & !other.bits;
    }
}

/// Entry hazards laid on one side of the field, as a set of bits.
#[derive(Debug, Clone, Copy, PartialEq, Eq, Hash, Structural)]
pub struct FieldHazards {
    bits: u8,
}

impl View for FieldHazards {
    type V = u8;

    closed spec fn view(&self) -> u8 {
        self.bits
    }
}

impl FieldHazards {
    pub const NONE: u8 = 0;
    pub const STEALTH_ROCK: u8 = 1;
    pub const SPIKES_1: u8 = 2;
    pub const SPIKES_2: u8 = 4;
    pub const SPIKES_3: u8 = 8;
    pub const TOXIC_SPIKES_1: u8 = 16;
    pub const TOXIC_SPIKES_2: u8 = 32;
    pub const STICKY_WEB: u8 = 64;

    /// The set whose bits are `bits`, as a specification value.
    pub closed spec fn spec_from_bits(bits: u8) -> Self {
        FieldHazards { bits }
    }

    /// The set with no hazard.
    pub fn empty() -> (r: Self)
        ensures
            r@ == 0,
            r == Self::spec_from_bits(0),
    {
        FieldHazards { bits: 0 }
    }

    /// The set whose bits are exactly `bits`.
    pub fn from_bits_retain(bits: u8) -> (r: Self)
        ensures
            r@ == bits,
            r == Self::spec_from_bits(bits),
    {
        FieldHazards { bits }
    }

    /// The raw bits.
    pub fn bits(&self) -> (r: u8)
        ensures
            r == self@,
    {
        self.bits
    }

    /// Whether no bit is set.
    pub fn is_empty(&self) -> (r: bool)
        ensures
            r == (self@ == 0),
    {
        self.bits == 0
    }

    /// Whether every bit of `other` is set in `self`.
    pub fn contains(&self, other: Self) -> (r: bool)
        ensures
            r == (self@ & other@ == other@),
    {
        self.bits & other.bits == other.bits
    }

    /// Sets every bit of `other`.
    pub fn insert(&mut self, other: Self)
        ensures
            final(self)@ == old(self)@ | other@,
    {
        self.bits = self.bits | other.bits;
    }

    /// Clears every bit of `other`.
    pub fn remove(&mut self, other: Self)
        ensures
            final(self)@ == old(self)@ & !other@,
    {
        self.bits = self.bits & !other.bits;
    }
}

/// Weather and terrain in effect on the field, as a set of bits.
#[derive(Debug, Clone, Copy, PartialEq, Eq, Hash, Structural)]
pub struct WeatherTerrain {
    bits: u8,
}

impl View for WeatherTerrain {
    type V = u8;

    closed spec fn view(&self) -> u8 {
        self.bits
    }
}

impl WeatherTerrain {
    pub const NONE: u8 = 0;
    pub const SUN: u8 = 1;
    pub const RAIN: u8 = 2;
    pub const SAND: u8 = 4;
    pub const SNOW: u8 = 8;
    pub const ELECTRIC_TERRAIN: u8 = 16;
    pub const GRASSY_TERRAIN: u8 = 32;
    pub const MISTY_TERRAIN: u8 = 64;
    pub const PSYCHIC_TERRAIN: u8 = 128;

    /// The set whose bits are `bits`, as a specification value.
    pub closed spec fn spec_from_bits(bits: u8) -> Self {
        WeatherTerrain { bits }
    }

    /// The set with no weather and no terrain.
    pub fn empty() -> (r: Self)
        ensures
            r@ == 0,
            r == Self::spec_from_bits(0),
    {
        WeatherTerrain { bits: 0 }
    }

    /// The set whose bits are exactly `bits`.
    pub fn from_bits_retain(bits: u8) -> (r: Self)
        ensures
            r@ == bits,
            r == Self::spec_from_bits(bits),
    {
        WeatherTerrain { bits }
    }

    /// The raw bits.
    pub fn bits(&self) -> (r: u8)
        ensures
            r == self@,
    {
        self.bits
    }

    /// Whether no bit is set.
    pub fn is_empty(&self) -> (r: bool)
        ensures
            r == (self@ == 0),
    {
        self.bits == 0
    }

    /// Whether every bit of `other` is set in `self`.
    pub fn contains(&self, other: Self) -> (r: bool)
        ensures
            r == (self@ & other@ == other@),
    {
        self.bits & other.bits == other.bits
    }

    /// Sets every bit of `other`.
    pub fn insert(&mut self, other: Self)
        ensures
            final(self)@ == old(self)@ | other@,
    {
        self.bits = self.bits | other.bits;
    }

    /// Clears every bit of `other`.
    pub fn remove(&mut self, other: Self)
        ensures
            final(self)@ == old(self)@ & !other@,
    {
        self.bits = self.bits & !other.bits;
    }
}

/// After `insert(other)`, the set contains `other`; the bits it had stay set.
pub proof fn lemma_hazards_insert_contains(set: FieldHazards, other: FieldHazards)
    ensures
        (set@ | other@) & other@ == other@,
        (set@ | other@) & set@ == set@,
{
    let a = set@;
    let b = other@;
    assert((a | b) & b == b && (a | b) & a == a) by (bit_vector);
}

/// After `remove(other)`, no bit of `other` is left, so the set contains
/// `other` only when `other` is empty.
pub proof fn lemma_hazards_remove_clears(set: FieldHazards, other: FieldHazards)
    ensures
        (set@ & !other@) & other@ == 0,
        ((set@ & !other@) & other@ == other@) <==> other@ == 0,
{
    let a = set@;
    let b = other@;
    assert((a & !b) & b == 0) by (bit_vector);
}

/// Every set contains the empty set and itself.
pub proof fn lemma_hazards_contains_empty_and_self(set: FieldHazards)
    ensures
        set@ & 0u8 == 0u8,
        set@ & set@ == set@,
{
    let a = set@;
    assert(a & 0u8 == 0u8 && a & a == a) by (bit_vector);
}

/// After `insert(other)`, the set contains `other`; the bits it had stay set.
pub proof fn lemma_volatile_insert_contains(set: VolatileStatus, other: VolatileStatus)
    ensures
        (set@ | other@) & other@ == other@,
        (set@ | other@) & set@ == set@,
{
    let a = set@;
    let b = other@;
    assert((a | b) & b == b && (a | b) & a == a) by (bit_vector);
}

/// After `remove(other)`, no bit of `other` is left.
pub proof fn lemma_volatile_remove_clears(set: VolatileStatus, other: VolatileStatus)
    ensures
        (set@ & !other@) & other@ == 0,
        ((set@ & !other@) & other@ == other@) <==> other@ == 0,
{
    let a = set@;
    let b = other@;
    assert((a & !b) & b == 0) by (bit_vector);
}

/// After `insert(other)`, the set contains `other`; the bits it had stay set.
pub proof fn lemma_weather_insert_contains(set: WeatherTerrain, other: WeatherTerrain)
    ensures
        (set@ | other@) & other@ == other@,
        (set@ | other@) & set@ == set@,
{
    let a = set@;
    let b = other@;
    assert((a | b) & b == b && (a | b) & a == a) by (bit_vector);
}

/// After `remove(other)`, no bit of `other` is left.
pub proof fn lemma_weather_remove_clears(set: WeatherTerrain, other: WeatherTerrain)
    ensures
        (set@ & !other@) & other@ == 0,
        ((set@ & !other@) & other@ == other@) <==> other@ == 0,
{
    let a = set@;
    let b = other@;
    assert((a & !b) & b == 0) by (bit_vector);
}

/// One Pokémon of a team.
#[derive(Debug, Clone, Copy, PartialEq, Eq)]
pub struct PokemonState {
    pub species_id: u16,
    pub item_id: u16,
    pub ability_id: u16,
    pub hp: u16,
    pub max_hp: u16,
    /// Major status: 0 none, 1 burn, 2 paralysis, 3 sleep, 4 freeze, 5 poison, 6 toxic.
    pub status: u8,
    pub volatile_status: VolatileStatus,
    pub moves: [u16; 4],
    pub pp: [u8; 4],
    /// Attack, Defense, Sp. Atk, Sp. Def, Speed, Evasion, Accuracy.
    pub stat_boosts: [i8; 7],
    pub types: [u8; 2],
    pub tera_type: u8,
    pub is_terastallized: bool,
    pub active: bool,
    pub fainted: bool,
}

impl PokemonState {
    /// The value `default` returns: an empty slot, all zero, marked fainted.
    pub open spec fn spec_default() -> PokemonState {
        PokemonState {
            species_id: 0,
            item_id: 0,
            ability_id: 0,
            hp: 0,
            max_hp: 0,
            status: 0,
            volatile_status: VolatileStatus::spec_from_bits(0),
            moves: [0u16, 0, 0, 0],
            pp: [0u8, 0, 0, 0],
            stat_boosts: [0i8, 0, 0, 0, 0, 0, 0],
            types: [0u8, 0],
            tera_type: 0,
            is_terastallized: false,
            active: false,
            fainted: true,
        }
    }
}

impl Default for PokemonState {
    fn default() -> (r: Self)
        ensures
            r == PokemonState::spec_default(),
    {
        PokemonState {
            species_id: 0,
            item_id: 0,
            ability_id: 0,
            hp: 0,
            max_hp: 0,
            status: 0,
            volatile_status: VolatileStatus::empty(),
            moves: [0, 0, 0, 0],
            pp: [0, 0, 0, 0],
            stat_boosts: [0, 0, 0, 0, 0, 0, 0],
            types: [0, 0],
            tera_type: 0,
            is_terastallized: false,
            active: false,
            fainted: true,
        }
    }
}

/// One side of the battle.
#[derive(Debug, Clone, Copy, PartialEq, Eq)]
pub struct PlayerState {
    pub team: [PokemonState; 6],
    pub hazards: FieldHazards,
    /// Index into `team` of the Pokémon on the field.
    pub active_pokemon_index: u8,
    pub light_screen_turns: u8,
    pub reflect_turns: u8,
    pub aurora_veil_turns: u8,
    pub tailwind_turns: u8,
    pub can_tera: bool,
}

impl PlayerState {
    /// The value `default` returns: six default slots, no hazard, the first
    /// slot active, no screen, Terastallization still available.
    pub open spec fn spec_default() -> PlayerState {
        let d = PokemonState::spec_default();
        PlayerState {
            team: [d, d, d, d, d, d],
            hazards: FieldHazards::spec_from_bits(0),
            active_pokemon_index: 0,
            light_screen_turns: 0,
            reflect_turns: 0,
            aurora_veil_turns: 0,
            tailwind_turns: 0,
            can_tera: true,
        }
    }

    /// Whether `active_pokemon_index` names a slot of the team.
    pub open spec fn active_in_range(self) -> bool {
        self.active_pokemon_index < 6
    }

    /// The Pokémon on the field.
    pub open spec fn active(self) -> PokemonState {
        self.team[self.active_pokemon_index as int]
    }
}

impl Default for PlayerState {
    fn default() -> (r: Self)
        ensures
            r == PlayerState::spec_default(),
    {
        let d = PokemonState::default();
        PlayerState {
            team: [d, d, d, d, d, d],
            hazards: FieldHazards::empty(),
            active_pokemon_index: 0,
            light_screen_turns: 0,
            reflect_turns: 0,
            aurora_veil_turns: 0,
            tailwind_turns: 0,
            can_tera: true,
        }
    }
}

/// The whole battle.
#[derive(Debug, Clone, Copy, PartialEq, Eq)]
pub struct BattleState {
    pub p1: PlayerState,
    pub p2: PlayerState,
    pub weather_terrain: WeatherTerrain,
    pub weather_turns: u8,
    pub terrain_turns: u8,
    pub trick_room_turns: u8,
    pub turn: u16,
}

impl BattleState {
    /// The value `default` returns: two default players, clear field, turn 0.
    pub open spec fn spec_default() -> BattleState {
        BattleState {
            p1: PlayerState::spec_default(),
            p2: PlayerState::spec_default(),
            weather_terrain: WeatherTerrain::spec_from_bits(0),
            weather_turns: 0,
            terrain_turns: 0,
            trick_room_turns: 0,
            turn: 0,
        }
    }

    /// The side of player 1 when `is_p1`, else that of player 2.
    pub open spec fn player(self, is_p1: bool) -> PlayerState {
        if is_p1 {
            self.p1
        } else {
            self.p2
        }
    }

    /// This battle with the side of player 1 (when `is_p1`) or of player 2
    /// replaced by `p`.
    pub open spec fn with_player(self, is_p1: bool, p: PlayerState) -> BattleState {
        if is_p1 {
            BattleState { p1: p, ..self }
        } else {
            BattleState { p2: p, ..self }
        }
    }

    /// Both active indices name a slot of their team.
    pub open spec fn actives_in_range(self) -> bool {
        self.p1.active_in_range() && self.p2.active_in_range()
    }
}

impl Default for BattleState {
    fn default() -> (r: Self)
        ensures
            r == BattleState::spec_default(),
    {
        BattleState {
            p1: PlayerState::default(),
            p2: PlayerState::default(),
            weather_terrain: WeatherTerrain::empty(),
            weather_turns: 0,
            terrain_turns: 0,
            trick_room_turns: 0,
            turn: 0,
        }
    }
}

/// What a player does in a turn.
#[derive(Debug, Clone, Copy, PartialEq, Eq)]
pub enum Action {
    /// Use the move in this slot (0 to 3) of the active Pokémon.
    Move(u8),
    /// Send in the team member at this index.
    Switch(u8),
    /// Do nothing.
    Pass,
}

} // verus!
