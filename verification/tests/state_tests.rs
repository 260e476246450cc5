use deepblue_engine::state::{Action, BattleState, FieldHazards, PlayerState, PokemonState, VolatileStatus, WeatherTerrain};

#[test]
fn pokemon_default_is_an_empty_fainted_slot() {
    let p = PokemonState::default();
    assert_eq!(p.species_id, 0);
    assert_eq!(p.item_id, 0);
    assert_eq!(p.hp, 0);
    assert_eq!(p.max_hp, 0);
    assert_eq!(p.moves, [0, 0, 0, 0]);
    assert_eq!(p.pp, [0, 0, 0, 0]);
    assert_eq!(p.stat_boosts, [0; 7]);
    assert_eq!(p.types, [0, 0]);
    assert!(p.volatile_status.is_empty());
    assert!(!p.active);
    assert!(!p.is_terastallized);
    assert!(p.fainted);
}

#[test]
fn player_default_has_six_default_slots_and_tera() {
    let p = PlayerState::default();
    for member in p.team.iter() {
        assert_eq!(*member, PokemonState::default());
    }
    assert_eq!(p.active_pokemon_index, 0);
    assert!(p.hazards.is_empty());
    assert_eq!(p.light_screen_turns, 0);
    assert_eq!(p.reflect_turns, 0);
    assert_eq!(p.aurora_veil_turns, 0);
    assert_eq!(p.tailwind_turns, 0);
    assert!(p.can_tera);
}

#[test]
fn battle_default_is_turn_zero_with_clear_field() {
    let b = BattleState::default();
    assert_eq!(b.p1, PlayerState::default());
    assert_eq!(b.p2, PlayerState::default());
    assert_eq!(b.weather_terrain.bits(), WeatherTerrain::NONE);
    assert_eq!(b.weather_turns, 0);
    assert_eq!(b.terrain_turns, 0);
    assert_eq!(b.trick_room_turns, 0);
    assert_eq!(b.turn, 0);
}

#[test]
fn hazards_insert_then_contains() {
    let mut h = FieldHazards::empty();
    let rock = FieldHazards::from_bits_retain(FieldHazards::STEALTH_ROCK);
    let web = FieldHazards::from_bits_retain(FieldHazards::STICKY_WEB);
    assert!(!h.contains(rock));
    h.insert(rock);
    assert!(h.contains(rock));
    assert!(!h.contains(web));
    h.insert(web);
    assert!(h.contains(rock));
    assert!(h.contains(web));
    assert_eq!(h.bits(), 65);
}

#[test]
fn hazards_remove_clears() {
    let mut h = FieldHazards::from_bits_retain(FieldHazards::SPIKES_1 | FieldHazards::SPIKES_2);
    let s1 = FieldHazards::from_bits_retain(FieldHazards::SPIKES_1);
    h.remove(s1);
    assert!(!h.contains(s1));
    assert_eq!(h.bits(), FieldHazards::SPIKES_2);
    assert!(h.contains(FieldHazards::empty()));
    assert!(h.contains(h));
}

#[test]
fn volatile_and_weather_flags() {
    let mut v = VolatileStatus::empty();
    v.insert(VolatileStatus::from_bits_retain(VolatileStatus::TAUNT));
    v.insert(VolatileStatus::from_bits_retain(VolatileStatus::ROOST));
    assert_eq!(v.bits(), 132);
    assert!(v.contains(VolatileStatus::from_bits_retain(VolatileStatus::ROOST)));
    v.remove(VolatileStatus::from_bits_retain(VolatileStatus::ROOST));
    assert_eq!(v.bits(), VolatileStatus::TAUNT);

    let mut w = WeatherTerrain::empty();
    w.insert(WeatherTerrain::from_bits_retain(WeatherTerrain::RAIN));
    assert!(w.contains(WeatherTerrain::from_bits_retain(WeatherTerrain::RAIN)));
    assert!(!w.contains(WeatherTerrain::from_bits_retain(WeatherTerrain::SUN)));
    w.remove(WeatherTerrain::from_bits_retain(WeatherTerrain::RAIN));
    assert!(w.is_empty());
}

#[test]
fn actions_compare() {
    assert_eq!(Action::Move(1), Action::Move(1));
    assert_ne!(Action::Move(1), Action::Switch(1));
    assert_ne!(Action::Pass, Action::Switch(0));
}
