use deepblue_engine::data::{build_typechart, BaseStats, Effectiveness, GameData, MoveData, PokemonData};
use deepblue_engine::simulator::{
    apply_damage, calculate_speed, damage_factors, execute_action, execute_move, execute_switch, is_fainted, step,
    step_faults, DamageFactors,
};
use deepblue_engine::state::{Action, BattleState};

fn species(num: u16, name: &str, types: &[&str], stats: [u16; 6]) -> PokemonData {
    PokemonData {
        num,
        name: name.to_string(),
        types: types.iter().map(|t| t.to_string()).collect(),
        base_stats: BaseStats { hp: stats[0], atk: stats[1], def: stats[2], spa: stats[3], spd: stats[4], spe: stats[5] },
    }
}

fn a_move(num: u16, name: &str, base_power: u16, category: &str, move_type: &str) -> MoveData {
    MoveData {
        num,
        name: name.to_string(),
        base_power,
        accuracy: serde_json::Value::from(100),
        category: category.to_string(),
        move_type: move_type.to_string(),
        priority: 0,
    }
}

fn sample_data() -> GameData {
    let pokedex = vec![
        ("charizard".to_string(), species(6, "Charizard", &["Fire", "Flying"], [78, 84, 78, 109, 85, 100])),
        ("venusaur".to_string(), species(3, "Venusaur", &["Grass", "Poison"], [80, 82, 83, 100, 100, 80])),
        ("shuckle".to_string(), species(213, "Shuckle", &["Bug", "Rock"], [20, 10, 230, 10, 230, 5])),
        ("speedy".to_string(), species(999, "Speedy", &["Normal"], [1, 1, 1, 1, 1, 65535])),
    ];
    let moves = vec![
        ("flamethrower".to_string(), a_move(53, "Flamethrower", 90, "Special", "Fire")),
        ("tackle".to_string(), a_move(33, "Tackle", 40, "Physical", "Normal")),
        ("growl".to_string(), a_move(45, "Growl", 0, "Status", "Normal")),
    ];
    let raw = vec![
        ("Grass".to_string(), Some(vec![("Fire".to_string(), Some(1u64)), ("Water".to_string(), Some(2u64))])),
        ("Poison".to_string(), Some(vec![("Fire".to_string(), Some(0u64))])),
        ("Rock".to_string(), Some(vec![("Normal".to_string(), Some(2u64))])),
    ];
    GameData::new(pokedex, moves, vec![], build_typechart(&raw))
}

fn battle(p1_species: u16, p1_moves: [u16; 4], p2_species: u16, p2_hp: u16) -> BattleState {
    let mut b = BattleState::default();
    b.p1.team[0].species_id = p1_species;
    b.p1.team[0].moves = p1_moves;
    b.p1.team[0].hp = 100;
    b.p1.team[0].max_hp = 100;
    b.p1.team[0].fainted = false;
    b.p2.team[0].species_id = p2_species;
    b.p2.team[0].moves = [33, 0, 0, 0];
    b.p2.team[0].hp = p2_hp;
    b.p2.team[0].max_hp = p2_hp;
    b.p2.team[0].fainted = false;
    b
}

#[test]
fn speed_follows_the_base_stat() {
    let data = sample_data();
    let b = battle(6, [0; 4], 3, 100);
    assert_eq!(calculate_speed(&b, true, &data), 257);
    assert_eq!(calculate_speed(&b, false, &data), 217);
}

#[test]
fn speed_of_an_unknown_species_is_100() {
    let data = sample_data();
    let b = battle(42, [0; 4], 3, 100);
    assert_eq!(calculate_speed(&b, true, &data), 100);
}

#[test]
fn speed_is_capped_to_u16() {
    let data = sample_data();
    let b = battle(999, [0; 4], 3, 100);
    assert_eq!(calculate_speed(&b, true, &data), 65535);
}

#[test]
fn special_move_factors() {
    let data = sample_data();
    let f = damage_factors(6, 3, &data.moves[0].1, &data);
    assert_eq!(f.base_power, 90);
    assert_eq!(f.atk_stat, 2 * 109 + 99);
    assert_eq!(f.def_stat, 2 * 100 + 99);
    assert!(f.stab);
    assert_eq!(f.multipliers, vec![Effectiveness::SuperEffective, Effectiveness::Neutral]);
}

#[test]
fn physical_move_factors() {
    let data = sample_data();
    let f = damage_factors(6, 213, &data.moves[1].1, &data);
    assert_eq!(f.atk_stat, 2 * 84 + 99);
    assert_eq!(f.def_stat, 2 * 230 + 99);
    assert!(!f.stab);
    assert_eq!(f.multipliers, vec![Effectiveness::NotVeryEffective]);
}

#[test]
fn status_move_and_unknown_species_factors() {
    let data = sample_data();
    let f = damage_factors(6, 3, &data.moves[2].1, &data);
    assert_eq!(f.atk_stat, 100);
    assert_eq!(f.def_stat, 100);
    let g = damage_factors(42, 43, &data.moves[0].1, &data);
    assert_eq!(g.atk_stat, 100);
    assert_eq!(g.def_stat, 100);
    assert!(!g.stab);
    assert!(g.multipliers.is_empty());
}

#[test]
fn fainted_reads_the_active_slot() {
    let mut b = battle(6, [0; 4], 3, 100);
    assert!(!is_fainted(&b, true));
    b.p1.active_pokemon_index = 1;
    assert!(is_fainted(&b, true));
    assert!(!is_fainted(&b, false));
}

#[test]
fn switch_sets_the_active_index() {
    let mut b = battle(6, [0; 4], 3, 100);
    execute_switch(&mut b, false, 4);
    assert_eq!(b.p2.active_pokemon_index, 4);
    assert_eq!(b.p1.active_pokemon_index, 0);
    execute_switch(&mut b, true, 9);
    assert_eq!(b.p1.active_pokemon_index, 9);
}

#[test]
fn a_hit_lowers_hp_and_a_big_hit_knocks_out() {
    let mut b = battle(6, [0; 4], 3, 100);
    apply_damage(&mut b, true, 30);
    assert_eq!(b.p2.team[0].hp, 70);
    assert!(!b.p2.team[0].fainted);
    apply_damage(&mut b, true, 70);
    assert_eq!(b.p2.team[0].hp, 0);
    assert!(b.p2.team[0].fainted);
    assert_eq!(b.p1.team[0].hp, 100);
}

#[test]
fn a_move_hits_with_the_computed_damage() {
    let data = sample_data();
    let mut b = battle(6, [53, 0, 0, 0], 3, 100);
    let by_power = |f: DamageFactors| f.base_power / 2;
    execute_move(&mut b, true, 0, &data, &by_power);
    assert_eq!(b.p2.team[0].hp, 55);
}

#[test]
fn empty_out_of_range_and_unknown_move_slots_do_nothing() {
    let data = sample_data();
    let start = battle(6, [0, 77, 53, 0], 3, 100);
    let hit = |_f: DamageFactors| 10u16;
    for idx in [0u8, 1, 4, 200] {
        let mut b = start;
        execute_move(&mut b, true, idx, &data, &hit);
        assert_eq!(b, start);
    }
}

#[test]
fn actions_dispatch() {
    let data = sample_data();
    let hit = |_f: DamageFactors| 10u16;
    let mut b = battle(6, [53, 0, 0, 0], 3, 100);
    execute_action(&mut b, true, Action::Pass, &data, &hit);
    assert_eq!(b, battle(6, [53, 0, 0, 0], 3, 100));
    execute_action(&mut b, true, Action::Move(0), &data, &hit);
    assert_eq!(b.p2.team[0].hp, 90);
    execute_action(&mut b, true, Action::Switch(2), &data, &hit);
    assert_eq!(b.p1.active_pokemon_index, 2);
}

#[test]
fn faster_side_moves_first_and_a_knockout_stops_the_other() {
    let data = sample_data();
    // Charizard (257) outspeeds Venusaur (217) and knocks it out first.
    let mut b = battle(6, [53, 0, 0, 0], 3, 50);
    let big = |_f: DamageFactors| 60u16;
    step(&mut b, Action::Move(0), Action::Move(0), &data, &big);
    assert_eq!(b.p2.team[0].hp, 0);
    assert!(b.p2.team[0].fainted);
    assert_eq!(b.p1.team[0].hp, 100);
}

#[test]
fn slower_side_acts_second_when_standing() {
    let data = sample_data();
    let mut b = battle(6, [53, 0, 0, 0], 3, 200);
    let small = |_f: DamageFactors| 25u16;
    step(&mut b, Action::Move(0), Action::Move(0), &data, &small);
    assert_eq!(b.p2.team[0].hp, 175);
    assert_eq!(b.p1.team[0].hp, 75);
}

#[test]
fn faster_player_two_acts_first() {
    let data = sample_data();
    // Player 1 is Shuckle (67), player 2 Charizard (257).
    let mut b = battle(213, [33, 0, 0, 0], 6, 100);
    b.p1.team[0].hp = 20;
    b.p2.team[0].moves = [53, 0, 0, 0];
    let big = |_f: DamageFactors| 30u16;
    step(&mut b, Action::Move(0), Action::Move(0), &data, &big);
    assert!(b.p1.team[0].fainted);
    assert_eq!(b.p2.team[0].hp, 100);
}

#[test]
fn switch_then_hit_lands_on_the_new_active() {
    let data = sample_data();
    let mut b = battle(6, [53, 0, 0, 0], 3, 100);
    b.p1.team[1].species_id = 3;
    b.p1.team[1].hp = 80;
    b.p1.team[1].fainted = false;
    b.p2.team[0].moves = [33, 0, 0, 0];
    let hit = |_f: DamageFactors| 5u16;
    step(&mut b, Action::Switch(1), Action::Move(0), &data, &hit);
    assert_eq!(b.p1.active_pokemon_index, 1);
    assert_eq!(b.p1.team[1].hp, 75);
    assert_eq!(b.p1.team[0].hp, 100);
}

#[test]
fn faults_are_detected_before_a_turn() {
    let data = sample_data();
    let b = battle(6, [53, 0, 0, 0], 3, 100);
    assert!(step_faults(&b, Action::Switch(6), Action::Move(0), &data));
    assert!(!step_faults(&b, Action::Switch(5), Action::Move(0), &data));
    assert!(!step_faults(&b, Action::Switch(6), Action::Pass, &data));
    assert!(!step_faults(&b, Action::Move(0), Action::Switch(6), &data));
}

#[test]
fn a_turn_only_wears_pokemon_down() {
    let data = sample_data();
    let mut b = battle(6, [53, 33, 0, 0], 3, 120);
    b.p2.team[0].moves = [33, 0, 0, 0];
    let before = b;
    let hit = |f: DamageFactors| f.base_power / 3;
    step(&mut b, Action::Move(0), Action::Move(0), &data, &hit);
    for side in [(&before.p1, &b.p1), (&before.p2, &b.p2)] {
        for i in 0..6 {
            let (old, new) = (side.0.team[i], side.1.team[i]);
            assert!(new.hp <= old.hp);
            assert!(!old.fainted || new.fainted);
            assert_eq!(new.species_id, old.species_id);
            assert_eq!(new.moves, old.moves);
            assert_eq!(new.item_id, old.item_id);
        }
        assert_eq!(side.0.hazards, side.1.hazards);
        assert_eq!(side.0.can_tera, side.1.can_tera);
    }
    assert_eq!(b.turn, before.turn);
    assert_eq!(b.p2.team[0].hp, 90);
    assert_eq!(b.p1.team[0].hp, 87);
}

#[test]
fn in_range_switches_keep_actives_in_range() {
    let data = sample_data();
    let mut b = battle(6, [53, 0, 0, 0], 3, 100);
    let hit = |_f: DamageFactors| 1u16;
    step(&mut b, Action::Switch(5), Action::Switch(3), &data, &hit);
    assert_eq!(b.p1.active_pokemon_index, 5);
    assert_eq!(b.p2.active_pokemon_index, 3);
    assert!(b.p1.active_pokemon_index < 6 && b.p2.active_pokemon_index < 6);
}

#[test]
fn an_immune_defender_takes_no_damage_and_damage_is_not_asked() {
    let pokedex = vec![
        ("tauros".to_string(), species(128, "Tauros", &["Normal"], [75, 100, 95, 40, 70, 110])),
        ("gengar".to_string(), species(94, "Gengar", &["Ghost", "Poison"], [60, 65, 60, 130, 75, 110])),
    ];
    let moves = vec![("tackle".to_string(), a_move(33, "Tackle", 40, "Physical", "Normal"))];
    let raw = vec![("Ghost".to_string(), Some(vec![("Normal".to_string(), Some(3u64))]))];
    let data = GameData::new(pokedex, moves, vec![], build_typechart(&raw));
    let mut b = battle(128, [33, 0, 0, 0], 94, 100);
    let never = |_f: DamageFactors| -> u16 { panic!("damage asked for an immune defender") };
    execute_move(&mut b, true, 0, &data, &never);
    assert_eq!(b.p2.team[0].hp, 100);
    assert!(!b.p2.team[0].fainted);
}
