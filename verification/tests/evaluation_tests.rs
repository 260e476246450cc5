use deepblue_engine::data::{GameData};
use deepblue_engine::engine::move_command;
use deepblue_engine::heuristic::{hazard_penalty_halves, hp_shares};
use deepblue_engine::search::{determinize_member, determinize_state, fill_unknowns, DrawKind, DrawRequest, FALLBACK_ITEM, FALLBACK_MOVE};
use deepblue_engine::state::{BattleState, FieldHazards, PlayerState, PokemonState};

#[test]
fn hazard_penalty_counts_each_hazard() {
    let mut p = PlayerState::default();
    assert_eq!(hazard_penalty_halves(&p), 0);
    p.hazards = FieldHazards::from_bits_retain(FieldHazards::STEALTH_ROCK | FieldHazards::SPIKES_1);
    assert_eq!(hazard_penalty_halves(&p), 3);
    p.hazards = FieldHazards::from_bits_retain(FieldHazards::TOXIC_SPIKES_2 | FieldHazards::SPIKES_3);
    assert_eq!(hazard_penalty_halves(&p), 6);
    p.hazards = FieldHazards::from_bits_retain(127);
    assert_eq!(hazard_penalty_halves(&p), 14);
    p.hazards = FieldHazards::from_bits_retain(128);
    assert_eq!(hazard_penalty_halves(&p), 0);
}

#[test]
fn hp_shares_skip_fainted_and_empty_members() {
    let mut p = PlayerState::default();
    p.team[0].hp = 50;
    p.team[0].max_hp = 100;
    p.team[0].fainted = false;
    p.team[2].hp = 30;
    p.team[2].max_hp = 0;
    p.team[2].fainted = false;
    p.team[3].hp = 10;
    p.team[3].max_hp = 40;
    p.team[3].fainted = true;
    p.team[5].hp = 7;
    p.team[5].max_hp = 9;
    p.team[5].fainted = false;
    assert_eq!(hp_shares(&p), vec![(50, 100), (7, 9)]);
    assert!(hp_shares(&PlayerState::default()).is_empty());
}

#[test]
fn fill_unknowns_uses_draws_and_fallbacks() {
    let mut p = PokemonState::default();
    p.species_id = 3;
    p.item_id = 0;
    p.moves = [0, 0, 0, 99];
    fill_unknowns(&mut p, &[Some(7), None, Some(0), Some(8)]);
    assert_eq!(p.item_id, FALLBACK_ITEM);
    assert_eq!(p.moves, [7, FALLBACK_MOVE, FALLBACK_MOVE, 99]);
    let mut q = PokemonState::default();
    q.item_id = 234;
    fill_unknowns(&mut q, &[None, None, None, None]);
    assert_eq!(q.item_id, 234);
}

fn indexed_data(usage: Vec<String>) -> GameData {
    let mut data = GameData::new(vec![], vec![], usage, vec![]);
    data.species_to_id = vec![("venusaur".to_string(), 3), ("charizard".to_string(), 6)];
    data
}

#[test]
fn determinize_fills_opponent_unknowns() {
    let data = indexed_data(vec!["venusaur".to_string()]);
    let mut b = BattleState::default();
    b.p1.team[0].species_id = 3;
    b.p2.team[0].species_id = 3;
    b.p2.team[0].moves = [0, 76, 0, 0];
    b.p2.team[1].species_id = 6;
    b.p2.team[1].item_id = 40;
    b.p2.team[2].species_id = 25;
    let before = b;
    let draw = |n: usize, r: &DrawRequest| (n + 1, if r.species_key == "venusaur" { Some(202u16) } else { Some(1u16) });
    let draws = determinize_state(&mut b, &data, 0usize, &draw);
    assert_eq!(draws, 4);
    assert_eq!(b.p1, before.p1);
    assert_eq!(b.p2.team[0].item_id, 15);
    assert_eq!(b.p2.team[0].moves, [202, 76, 202, 202]);
    assert_eq!(b.p2.team[1].item_id, 40);
    assert_eq!(b.p2.team[1].moves, [33, 33, 33, 33]);
    assert_eq!(b.p2.team[2], before.p2.team[2]);
    assert_eq!(b.p2.team[3], before.p2.team[3]);
}

#[test]
fn determinize_twice_changes_nothing_more() {
    let data = indexed_data(vec!["venusaur".to_string()]);
    let mut b = BattleState::default();
    b.p2.team[0].species_id = 3;
    let first = |n: usize, _r: &DrawRequest| (n + 1, None);
    assert_eq!(determinize_state(&mut b, &data, 0usize, &first), 5);
    assert_eq!(b.p2.team[0].moves, [33, 33, 33, 33]);
    let once = b;
    let second = |n: usize, _r: &DrawRequest| (n + 1, Some(5u16));
    let asked = determinize_state(&mut b, &data, 0usize, &second);
    assert_eq!(b, once);
    assert_eq!(asked, 0);
}

#[test]
fn draws_are_asked_for_each_unknown_in_order() {
    let data = indexed_data(vec!["venusaur".to_string()]);
    let mut b = BattleState::default();
    b.p2.team[1].species_id = 3;
    b.p2.team[1].moves = [0, 76, 0, 99];
    b.p2.team[2].species_id = 3;
    b.p2.team[2].item_id = 40;
    b.p2.team[2].moves = [11, 12, 13, 0];
    b.p2.team[3].species_id = 6;
    let draw = |mut log: Vec<DrawRequest>, r: &DrawRequest| {
        log.push(r.clone());
        let answer = match r.kind {
            DrawKind::Item => Some(1),
            DrawKind::Move(j) => Some(100 + j as u16),
        };
        (log, answer)
    };
    let log = determinize_state(&mut b, &data, Vec::new(), &draw);
    let key = "venusaur".to_string();
    let expected = vec![
        DrawRequest { member: 1, kind: DrawKind::Item, species_key: key.clone() },
        DrawRequest { member: 1, kind: DrawKind::Move(0), species_key: key.clone() },
        DrawRequest { member: 1, kind: DrawKind::Move(2), species_key: key.clone() },
        DrawRequest { member: 2, kind: DrawKind::Move(3), species_key: key.clone() },
    ];
    assert_eq!(log, expected);
    assert_eq!(b.p2.team[1].item_id, 15);
    assert_eq!(b.p2.team[1].moves, [100, 76, 102, 99]);
    assert_eq!(b.p2.team[2].item_id, 40);
    assert_eq!(b.p2.team[2].moves, [11, 12, 13, 103]);
    assert_eq!(b.p2.team[3].moves, [33, 33, 33, 33]);
    assert_eq!(b.p2.team[3].item_id, 15);
}

#[test]
fn a_member_without_a_listed_species_asks_nothing() {
    let data = indexed_data(vec!["venusaur".to_string()]);
    let mut p = PokemonState::default();
    p.species_id = 25;
    let before = p;
    let draw = |n: usize, _r: &DrawRequest| (n + 1, None);
    let asked = determinize_member(&mut p, 0, &data, 0usize, &draw);
    assert_eq!(p, before);
    assert_eq!(asked, 0);
}

#[test]
fn search_reply_names_the_move() {
    assert_eq!(move_command("1"), "move 1");
    assert_eq!(move_command("struggle"), "move struggle");
    assert_eq!(move_command(""), "move ");
}

#[test]
fn more_hazards_never_cost_less() {
    let mut smaller = PlayerState::default();
    let mut larger = PlayerState::default();
    smaller.hazards = FieldHazards::from_bits_retain(FieldHazards::SPIKES_1);
    larger.hazards = FieldHazards::from_bits_retain(FieldHazards::SPIKES_1 | FieldHazards::STICKY_WEB);
    assert!(hazard_penalty_halves(&smaller) <= hazard_penalty_halves(&larger));
    assert_eq!(hazard_penalty_halves(&larger), 3);
}
