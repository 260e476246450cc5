use deepblue_engine::data::{
    build_chart_row, build_typechart, chart_keys_are_distinct, index_moves, index_species, keys_are_distinct, read_typechart,
    BaseStats, Effectiveness, GameData, MoveData, PokemonData,
};

fn species(num: u16, name: &str, types: &[&str], stats: [u16; 6]) -> PokemonData {
    PokemonData {
        num,
        name: name.to_string(),
        types: types.iter().map(|t| t.to_string()).collect(),
        base_stats: BaseStats { hp: stats[0], atk: stats[1], def: stats[2], spa: stats[3], spd: stats[4], spe: stats[5] },
    }
}

fn a_move(num: u16, name: &str, base_power: u16, category: &str, move_type: &str) -> MoveData {
    MoveData {
        num,
        name: name.to_string(),
        base_power,
        accuracy: serde_json::Value::from(100),
        category: category.to_string(),
        move_type: move_type.to_string(),
        priority: 0,
    }
}

fn sample_data() -> GameData {
    let pokedex = vec![
        ("charizard".to_string(), species(6, "Charizard", &["Fire", "Flying"], [78, 84, 78, 109, 85, 100])),
        ("venusaur".to_string(), species(3, "Venusaur", &["Grass", "Poison"], [80, 82, 83, 100, 100, 80])),
    ];
    let moves = vec![
        ("flamethrower".to_string(), a_move(53, "Flamethrower", 90, "Special", "Fire")),
        ("tackle".to_string(), a_move(33, "Tackle", 40, "Physical", "Normal")),
    ];
    let raw = vec![
        ("Grass".to_string(), Some(vec![("Fire".to_string(), Some(1u64)), ("Water".to_string(), Some(2u64))])),
        ("Fairy".to_string(), None),
    ];
    GameData::new(pokedex, moves, vec!["venusaur".to_string()], build_typechart(&raw))
}

#[test]
fn codes_map_to_multipliers() {
    assert_eq!(Effectiveness::from_code(0), Effectiveness::Neutral);
    assert_eq!(Effectiveness::from_code(1), Effectiveness::SuperEffective);
    assert_eq!(Effectiveness::from_code(2), Effectiveness::NotVeryEffective);
    assert_eq!(Effectiveness::from_code(3), Effectiveness::Immune);
    assert_eq!(Effectiveness::from_code(4), Effectiveness::Neutral);
    assert_eq!(Effectiveness::from_code(u64::MAX), Effectiveness::Neutral);
}

#[test]
fn chart_row_keeps_entries_with_a_code() {
    let raw = vec![
        ("Fire".to_string(), Some(1u64)),
        ("Bug".to_string(), None),
        ("Ghost".to_string(), Some(3u64)),
    ];
    let row = build_chart_row(&raw);
    assert_eq!(row, vec![("Fire".to_string(), Effectiveness::SuperEffective), ("Ghost".to_string(), Effectiveness::Immune)]);
}

#[test]
fn typechart_keeps_types_with_a_table() {
    let raw = vec![
        ("Grass".to_string(), Some(vec![("Fire".to_string(), Some(1u64))])),
        ("Fairy".to_string(), None),
        ("Normal".to_string(), Some(vec![("Ghost".to_string(), Some(3u64)), ("Bug".to_string(), None)])),
    ];
    let chart = build_typechart(&raw);
    assert_eq!(chart.len(), 2);
    assert_eq!(chart[0].0, "Grass");
    assert_eq!(chart[0].1, vec![("Fire".to_string(), Effectiveness::SuperEffective)]);
    assert_eq!(chart[1].0, "Normal");
    assert_eq!(chart[1].1, vec![("Ghost".to_string(), Effectiveness::Immune)]);
}

#[test]
fn indices_follow_the_tables() {
    let data = sample_data();
    assert_eq!(index_species(&data.pokedex), vec![("charizard".to_string(), 6), ("venusaur".to_string(), 3)]);
    assert_eq!(index_moves(&data.moves), vec![("flamethrower".to_string(), 53), ("tackle".to_string(), 33)]);
    assert_eq!(data.species_to_id, index_species(&data.pokedex));
    assert_eq!(data.move_to_id, index_moves(&data.moves));
}

#[test]
fn lookups_by_number_and_key() {
    let data = sample_data();
    assert_eq!(data.species_index(3), Some(1));
    assert_eq!(data.species_index(6), Some(0));
    assert_eq!(data.species_index(25), None);
    assert_eq!(data.species_key_index(3), Some(1));
    assert_eq!(data.move_index(33), Some(1));
    assert_eq!(data.move_index(1), None);
    assert_eq!(data.move_id(&"flamethrower".to_string()), Some(53));
    assert_eq!(data.move_id(&"surf".to_string()), None);
    assert!(data.has_usage(&"venusaur".to_string()));
    assert!(!data.has_usage(&"charizard".to_string()));
    assert_eq!(data.effectiveness(&"Grass".to_string(), &"Fire".to_string()), Some(Effectiveness::SuperEffective));
    assert_eq!(data.effectiveness(&"Grass".to_string(), &"Water".to_string()), Some(Effectiveness::NotVeryEffective));
    assert_eq!(data.effectiveness(&"Grass".to_string(), &"Ice".to_string()), None);
    assert_eq!(data.effectiveness(&"Fairy".to_string(), &"Fire".to_string()), None);
}

#[test]
fn lookup_takes_the_first_entry_of_a_number() {
    let pokedex = vec![
        ("charizardmegax".to_string(), species(6, "Charizard-Mega-X", &["Fire", "Dragon"], [78, 130, 111, 130, 85, 100])),
        ("charizard".to_string(), species(6, "Charizard", &["Fire", "Flying"], [78, 84, 78, 109, 85, 100])),
    ];
    let data = GameData::new(pokedex, vec![], vec![], vec![]);
    assert_eq!(data.species_index(6), Some(0));
}

#[test]
fn typechart_is_read_from_json_text() {
    let text = r#"{"Grass": {"damageTaken": {"Fire": 1, "Water": 2, "Prankster": "x"}}, "Fairy": {"other": 1}, "Ghost": {"damageTaken": {"Normal": 3}}}"#.to_string();
    let mut chart = read_typechart(&text);
    chart.sort_by(|a, b| a.0.cmp(&b.0));
    assert_eq!(chart.len(), 2);
    assert_eq!(chart[0].0, "Ghost");
    assert_eq!(chart[0].1, vec![("Normal".to_string(), Effectiveness::Immune)]);
    assert_eq!(chart[1].0, "Grass");
    let mut row = chart[1].1.clone();
    row.sort_by(|a, b| a.0.cmp(&b.0));
    assert_eq!(row, vec![("Fire".to_string(), Effectiveness::SuperEffective), ("Water".to_string(), Effectiveness::NotVeryEffective)]);
    assert!(chart_keys_are_distinct(&chart));
}

#[test]
fn unreadable_typechart_is_empty() {
    assert!(read_typechart(&"not json".to_string()).is_empty());
    assert!(read_typechart(&"[1, 2]".to_string()).is_empty());
}

#[test]
fn distinct_keys_are_detected() {
    let a = vec![("x".to_string(), 1u16), ("y".to_string(), 2u16)];
    let b = vec![("x".to_string(), 1u16), ("x".to_string(), 2u16)];
    assert!(keys_are_distinct(&a));
    assert!(!keys_are_distinct(&b));
    let chart = vec![("Grass".to_string(), vec![("Fire".to_string(), Effectiveness::Neutral), ("Fire".to_string(), Effectiveness::Immune)])];
    assert!(!chart_keys_are_distinct(&chart));
}

#[test]
fn typechart_of_a_single_type() {
    let text = r#"{"Ghost":{"damageTaken":{"Normal":3,"Dark":1,"Poison":2,"Water":0}}}"#.to_string();
    let chart = read_typechart(&text);
    assert_eq!(chart.len(), 1);
    assert_eq!(chart[0].0, "Ghost");
    let mut row = chart[0].1.clone();
    row.sort_by(|a, b| a.0.cmp(&b.0));
    assert_eq!(
        row,
        vec![
            ("Dark".to_string(), Effectiveness::SuperEffective),
            ("Normal".to_string(), Effectiveness::Immune),
            ("Poison".to_string(), Effectiveness::NotVeryEffective),
            ("Water".to_string(), Effectiveness::Neutral),
        ]
    );
}

#[test]
fn typechart_drops_codes_that_are_not_unsigned_integers() {
    let text = r#"{"Fire":{"damageTaken":{"Water":"x","Grass":-1,"Ice":2.0,"Rock":7,"Steel":2}},"Bird":{"num":1}}"#.to_string();
    let chart = read_typechart(&text);
    assert_eq!(chart.len(), 1);
    assert_eq!(chart[0].0, "Fire");
    let mut row = chart[0].1.clone();
    row.sort_by(|a, b| a.0.cmp(&b.0));
    assert_eq!(row, vec![("Rock".to_string(), Effectiveness::Neutral), ("Steel".to_string(), Effectiveness::NotVeryEffective)]);
}

#[test]
fn empty_object_gives_an_empty_typechart() {
    assert!(read_typechart(&"{}".to_string()).is_empty());
}
