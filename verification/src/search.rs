//! Determinization: before a search iteration, the hidden parts of the
//! opponent's team (unknown item, unknown moves) are filled in.
//!
//! Which move fills an unknown slot is drawn at random from the species'
//! usage statistics by the caller's `draw` function; which draws are asked
//! for, in which order, what is filled with the answers, and with which
//! fallback, is decided here.
use vstd::prelude::*;
use crate::data::GameData;
use crate::state::{BattleState, PokemonState};

verus! {

broadcast use vstd::array::group_array_axioms;

/// Item number of Leftovers, given when the item is unknown.
pub const FALLBACK_ITEM: u16 = 15;

/// Move number of Tackle, given to an unknown move slot when the draw gave
/// no usable move.
pub const FALLBACK_MOVE: u16 = 33;

/// An item after determinization: an unknown item (0) becomes Leftovers.
pub open spec fn spec_fill_item(item: u16) -> u16 {
    if item == 0 {
        FALLBACK_ITEM
    } else {
        item
    }
}

/// A move slot after determinization: a known move stays; an unknown slot
/// (0) takes the drawn move, or Tackle when nothing (or move 0) was drawn.
pub open spec fn spec_fill_move(slot: u16, draw: Option<u16>) -> u16 {
    if slot != 0 {
        slot
    } else {
        match draw {
            Some(id) => if id != 0 {
                id
            } else {
                FALLBACK_MOVE
            },
            None => FALLBACK_MOVE,
        }
    }
}

/// A Pokémon whose unknowns are filled: item as [`spec_fill_item`], each
/// move slot as [`spec_fill_move`] with its draw.
pub open spec fn spec_fill_unknowns(p: PokemonState, draws: [Option<u16>; 4]) -> PokemonState {
    PokemonState {
        item_id: spec_fill_item(p.item_id),
        moves: [
            spec_fill_move(p.moves[0], draws[0]),
            spec_fill_move(p.moves[1], draws[1]),
            spec_fill_move(p.moves[2], draws[2]),
            spec_fill_move(p.moves[3], draws[3]),
        ],
        ..p
    }
}

/// Fills the unknown item and move slots of `poke`, slot `j` from `draws[j]`.
pub fn fill_unknowns(poke: &mut PokemonState, draws: &[Option<u16>; 4])
    ensures
        *final(poke) == spec_fill_unknowns(*old(poke), *draws),
{
    if poke.item_id == 0 {
        poke.item_id = FALLBACK_ITEM;
    }
    let mut moves = poke.moves;
    let mut j: usize = 0;
    while j < 4
        invariant
            0 <= j <= 4,
            forall|k: int| 0 <= k < j ==> moves[k] == spec_fill_move(old(poke).moves[k], draws[k]),
            forall|k: int| j <= k < 4 ==> moves[k] == old(poke).moves[k],
        decreases 4 - j,
    {
        if moves[j] == 0 {
            let picked = match draws[j] {
                Some(id) => id,
                None => 0,
            };
            moves[j] = if picked != 0 {
                picked
            } else {
                FALLBACK_MOVE
            };
        }
        j += 1;
    }
    poke.moves = moves;
    proof {
        broadcast use vstd::array::group_array_axioms;
        assert(poke.moves =~= spec_fill_unknowns(*old(poke), *draws).moves);
    }
}

/// The draws used for a species without usage statistics: none.
pub open spec fn no_draws() -> [Option<u16>; 4] {
    [None, None, None, None]
}

/// A member of the opponent's team after determinization with `draws`:
/// an empty slot (species 0) or a species missing from the species index
/// stays as it is; otherwise its unknowns are filled, from the draws when
/// the species has usage statistics, else with the fallbacks alone.
pub open spec fn spec_determinize_member(data: GameData, p: PokemonState, draws: [Option<u16>; 4]) -> PokemonState {
    if p.species_id == 0 {
        p
    } else {
        match data.spec_species_key_index(p.species_id) {
            Some(k) => if data.spec_has_usage(data.species_to_id@[k].0@) {
                spec_fill_unknowns(p, draws)
            } else {
                spec_fill_unknowns(p, no_draws())
            },
            None => p,
        }
    }
}

/// The key under which the species index lists species `id`.
pub open spec fn species_key_of(data: GameData, id: u16) -> String {
    data.species_to_id@[data.spec_species_key_index(id)->0].0
}

/// What a random draw is asked for.
#[derive(Debug, Clone, Copy, PartialEq, Eq, Structural)]
pub enum DrawKind {
    /// The unknown item (whatever is drawn, the item becomes Leftovers).
    Item,
    /// The unknown move in this slot.
    Move(usize),
}

/// One random draw asked of the caller: for team member `member` (of
/// player 2), of the given kind, from the usage statistics of the species
/// listed under `species_key`.
#[derive(Debug, Clone, PartialEq, Eq)]
pub struct DrawRequest {
    pub member: usize,
    pub kind: DrawKind,
    pub species_key: String,
}

/// The request for one draw.
pub open spec fn request(member: usize, kind: DrawKind, key: String) -> DrawRequest {
    DrawRequest { member, kind, species_key: key }
}

/// Determinization draws for `p`: its species is listed in the species
/// index and has usage statistics.
pub open spec fn draws_for(data: GameData, p: PokemonState) -> bool {
    &&& p.species_id != 0
    &&& data.spec_species_key_index(p.species_id) is Some
    &&& data.spec_has_usage(species_key_of(data, p.species_id)@)
}

/// The item draw asked for member `member`: one when its item is unknown.
pub open spec fn item_requests(member: usize, p: PokemonState, key: String) -> Seq<DrawRequest> {
    if p.item_id == 0 {
        seq![request(member, DrawKind::Item, key)]
    } else {
        Seq::empty()
    }
}

/// The move draws asked for the unknown slots before slot `j`, in slot order.
pub open spec fn move_requests_upto(member: usize, moves: [u16; 4], key: String, j: int) -> Seq<DrawRequest>
    decreases j,
{
    if j <= 0 {
        Seq::empty()
    } else {
        let prev = move_requests_upto(member, moves, key, j - 1);
        if moves[j - 1] == 0 {
            prev.push(request(member, DrawKind::Move((j - 1) as usize), key))
        } else {
            prev
        }
    }
}

/// The number of unknown (0) move slots before slot `j`.
pub open spec fn zeros_before(moves: [u16; 4], j: int) -> int
    decreases j,
{
    if j <= 0 {
        0
    } else {
        zeros_before(moves, j - 1) + if moves[j - 1] == 0 { 1int } else { 0int }
    }
}

/// The draws that determinizing team member `member` asks for, in the
/// order they are asked: when the member draws at all, one for its unknown
/// item, then one for each unknown move slot in slot order; otherwise none.
pub open spec fn spec_member_requests(data: GameData, member: usize, p: PokemonState) -> Seq<DrawRequest> {
    if draws_for(data, p) {
        let key = species_key_of(data, p.species_id);
        item_requests(member, p, key) + move_requests_upto(member, p.moves, key, 4)
    } else {
        Seq::empty()
    }
}

/// How many answers come before those of the move slots: one when the item
/// is unknown.
pub open spec fn item_offset(p: PokemonState) -> int {
    if p.item_id == 0 {
        1
    } else {
        0
    }
}

/// The draw that move slot `j` of `p` gets from `results`: the answer to its
/// request when the slot is unknown, none otherwise.
pub open spec fn slot_draw(p: PokemonState, results: Seq<Option<u16>>, j: int) -> Option<u16> {
    if p.moves[j] == 0 {
        results[item_offset(p) + zeros_before(p.moves, j)]
    } else {
        None
    }
}

/// The draws of the four move slots of `p` from the answers `results`.
pub open spec fn spec_member_draws(p: PokemonState, results: Seq<Option<u16>>) -> [Option<u16>; 4] {
    [slot_draw(p, results, 0), slot_draw(p, results, 1), slot_draw(p, results, 2), slot_draw(p, results, 3)]
}

/// `draw` answered `requests` one for one, in order, with `results`,
/// threading the generator through `gens`: draw `k` took generator
/// `gens[k]` and gave back `gens[k + 1]` with its answer.
pub open spec fn chained<G, F: Fn(G, &DrawRequest) -> (G, Option<u16>)>(draw: F, requests: Seq<DrawRequest>, results: Seq<Option<u16>>, gens: Seq<G>) -> bool {
    &&& results.len() == requests.len()
    &&& gens.len() == requests.len() + 1
    &&& forall|k: int| 0 <= k < requests.len() ==> #[trigger] call_ensures(draw, (gens[k], &requests[k]), (gens[k + 1], results[k]))
}

/// `new_p` is team member `member`, `old_p`, determinized with the answers
/// of exactly one draw for each draw the member asks for, in order, taking
/// the generator from `start` to `end`.
pub open spec fn determinized_by<G, F: Fn(G, &DrawRequest) -> (G, Option<u16>)>(draw: F, data: GameData, member: usize, old_p: PokemonState, new_p: PokemonState, start: G, end: G) -> bool {
    exists|results: Seq<Option<u16>>, gens: Seq<G>|
        #[trigger] chained(draw, spec_member_requests(data, member, old_p), results, gens)
        && gens[0] == start
        && gens.last() == end
        && new_p == spec_determinize_member(data, old_p, spec_member_draws(old_p, results))
}

/// Determinizes team member `member` (of player 2), `poke`: asks `draw` for
/// each draw of [`spec_member_requests`], in order, threading the generator
/// `rng` through them, fills the unknowns with the answers, and gives back
/// the generator as the last draw left it.
pub fn determinize_member<G, F: Fn(G, &DrawRequest) -> (G, Option<u16>)>(poke: &mut PokemonState, member: usize, game_data: &GameData, rng: G, draw: &F) -> (r: G)
    requires
        forall|g: G, q: &DrawRequest| draw.requires((g, q)),
    ensures
        determinized_by(*draw, *game_data, member, *old(poke), *final(poke), rng, r),
{
    let ghost p0 = *poke;
    let ghost none: Seq<Option<u16>> = Seq::empty();
    let ghost mut gens: Seq<G> = seq![rng];
    let mut g = rng;
    if poke.species_id == 0 {
        proof {
            assert(chained(*draw, spec_member_requests(*game_data, member, p0), none, gens));
        }
        return g;
    }
    match game_data.species_key_index(poke.species_id) {
        None => {
            proof {
                assert(chained(*draw, spec_member_requests(*game_data, member, p0), none, gens));
            }
            g
        },
        Some(k) => {
            let key = &game_data.species_to_id[k].0;
            let mut draws: [Option<u16>; 4] = [None, None, None, None];
            let ghost mut results: Seq<Option<u16>> = Seq::empty();
            let usage = game_data.has_usage(key);
            if usage {
                let ghost items = item_requests(member, p0, *key);
                if poke.item_id == 0 {
                    let req = DrawRequest { member, kind: DrawKind::Item, species_key: key.clone() };
                    let (next_g, answer) = draw(g, &req);
                    proof {
                        results = results.push(answer);
                        gens = gens.push(next_g);
                    }
                    g = next_g;
                }
                assert(chained(*draw, items + move_requests_upto(member, p0.moves, *key, 0), results, gens));
                let mut j: usize = 0;
                while j < 4
                    invariant
                        0 <= j <= 4,
                        p0 == *poke,
                        items == item_requests(member, p0, *key),
                        forall|g: G, q: &DrawRequest| draw.requires((g, q)),
                        results.len() == item_offset(p0) + zeros_before(p0.moves, j as int),
                        chained(*draw, items + move_requests_upto(member, p0.moves, *key, j as int), results, gens),
                        gens[0] == rng,
                        gens.last() == g,
                        forall|m: int| 0 <= m < j ==> draws[m] == slot_draw(p0, results, m),
                        forall|m: int| j <= m < 4 ==> draws[m] is None,
                    decreases 4 - j,
                {
                    if poke.moves[j] == 0 {
                        let req = DrawRequest { member, kind: DrawKind::Move(j), species_key: key.clone() };
                        let ghost g_before = g;
                        let ghost gens_before = gens;
                        let (next_g, answer) = draw(g, &req);
                        let ghost before = results;
                        let ghost reqs = items + move_requests_upto(member, p0.moves, *key, j as int);
                        let ghost old_draws = draws;
                        draws[j] = answer;
                        proof {
                            results = results.push(answer);
                            gens = gens.push(next_g);
                            let next = items + move_requests_upto(member, p0.moves, *key, j + 1);
                            assert(next == reqs.push(req));
                            assert forall|k: int| 0 <= k < next.len() implies #[trigger] call_ensures(*draw, (gens[k], &next[k]), (gens[k + 1], results[k])) by {
                                if k < before.len() {
                                    assert(next[k] == reqs[k]);
                                    assert(results[k] == before[k]);
                                    assert(gens[k] == gens_before[k] && gens[k + 1] == gens_before[k + 1]);
                                } else {
                                    assert(gens[k] == g_before);
                                }
                            }
                            assert forall|m: int| 0 <= m < j implies draws[m] == slot_draw(p0, results, m) by {
                                assert(draws[m] == old_draws[m]);
                                assert(old_draws[m] == slot_draw(p0, before, m));
                                if p0.moves[m] == 0 {
                                    lemma_zeros_before_monotone(p0.moves, m + 1, j as int);
                                    lemma_zeros_before_monotone(p0.moves, 0, m);
                                    assert(zeros_before(p0.moves, m + 1) == zeros_before(p0.moves, m) + 1);
                                    let idx = item_offset(p0) + zeros_before(p0.moves, m);
                                    assert(idx < before.len());
                                    assert(before.push(answer)[idx] == before[idx]);
                                }
                            }
                        }
                        g = next_g;
                    } else {
                        proof {
                            assert(move_requests_upto(member, p0.moves, *key, j + 1) == move_requests_upto(member, p0.moves, *key, j as int));
                        }
                    }
                    j += 1;
                }
            }
            fill_unknowns(poke, &draws);
            proof {
                if usage {
                    assert(draws =~= spec_member_draws(p0, results));
                    assert(chained(*draw, spec_member_requests(*game_data, member, p0), results, gens));
                } else {
                    assert(draws =~= no_draws());
                    assert(chained(*draw, spec_member_requests(*game_data, member, p0), results, gens));
                }
            }
            g
        },
    }
}

proof fn lemma_zeros_before_monotone(moves: [u16; 4], a: int, b: int)
    requires
        0 <= a <= b,
    ensures
        zeros_before(moves, a) <= zeros_before(moves, b),
    decreases b - a,
{
    if a < b {
        lemma_zeros_before_monotone(moves, a, b - 1);
    }
}

/// Fills in the hidden parts of the opponent's (player 2's) team, member by
/// member: every member with a species that the species index lists gets
/// Leftovers when its item is unknown, and each unknown move slot gets the
/// move that `draw` answers for it, or Tackle when the answer is no move.
/// `draw` is asked exactly once for each draw of [`spec_member_requests`]
/// (an unknown item or move slot of a listed species with usage
/// statistics), member by member and in order, threading the generator
/// `rng` through the draws, and for nothing else; the generator as the
/// last draw left it is given back. A listed species without usage
/// statistics gets Tackle in each unknown slot. Player 1 and the field are
/// left as they are.
pub fn determinize_state<G, F: Fn(G, &DrawRequest) -> (G, Option<u16>)>(state: &mut BattleState, game_data: &GameData, rng: G, draw: &F) -> (r: G)
    requires
        forall|g: G, q: &DrawRequest| draw.requires((g, q)),
    ensures
        final(state).p1 == old(state).p1,
        final(state).weather_terrain == old(state).weather_terrain,
        final(state).weather_turns == old(state).weather_turns,
        final(state).terrain_turns == old(state).terrain_turns,
        final(state).trick_room_turns == old(state).trick_room_turns,
        final(state).turn == old(state).turn,
        final(state).p2.hazards == old(state).p2.hazards,
        final(state).p2.active_pokemon_index == old(state).p2.active_pokemon_index,
        final(state).p2.light_screen_turns == old(state).p2.light_screen_turns,
        final(state).p2.reflect_turns == old(state).p2.reflect_turns,
        final(state).p2.aurora_veil_turns == old(state).p2.aurora_veil_turns,
        final(state).p2.tailwind_turns == old(state).p2.tailwind_turns,
        final(state).p2.can_tera == old(state).p2.can_tera,
        exists|bounds: Seq<G>| {
            &&& bounds.len() == 7
            &&& bounds[0] == rng
            &&& bounds[6] == r
            &&& forall|i: int| 0 <= i < 6 ==> determinized_by(*draw, *game_data, i as usize, old(state).p2.team[i], #[trigger] final(state).p2.team[i], bounds[i], bounds[i + 1])
        },
{
    let ghost mut bounds: Seq<G> = seq![rng];
    let mut g = rng;
    let mut i: usize = 0;
    while i < 6
        invariant
            0 <= i <= 6,
            forall|g: G, q: &DrawRequest| draw.requires((g, q)),
            state.p1 == old(state).p1,
            state.weather_terrain == old(state).weather_terrain,
            state.weather_turns == old(state).weather_turns,
            state.terrain_turns == old(state).terrain_turns,
            state.trick_room_turns == old(state).trick_room_turns,
            state.turn == old(state).turn,
            state.p2.hazards == old(state).p2.hazards,
            state.p2.active_pokemon_index == old(state).p2.active_pokemon_index,
            state.p2.light_screen_turns == old(state).p2.light_screen_turns,
            state.p2.reflect_turns == old(state).p2.reflect_turns,
            state.p2.aurora_veil_turns == old(state).p2.aurora_veil_turns,
            state.p2.tailwind_turns == old(state).p2.tailwind_turns,
            state.p2.can_tera == old(state).p2.can_tera,
            bounds.len() == i + 1,
            bounds[0] == rng,
            bounds[i as int] == g,
            forall|k: int| i <= k < 6 ==> state.p2.team[k] == old(state).p2.team[k],
            forall|k: int| 0 <= k < i ==> determinized_by(*draw, *game_data, k as usize, old(state).p2.team[k], #[trigger] state.p2.team[k], bounds[k], bounds[k + 1]),
        decreases 6 - i,
    {
        let mut poke = state.p2.team[i];
        let ghost bounds_before = bounds;
        let next_g = determinize_member(&mut poke, i, game_data, g, draw);
        proof {
            bounds = bounds.push(next_g);
            assert forall|k: int| 0 <= k <= i implies #[trigger] bounds[k] == bounds_before[k] by {}
        }
        g = next_g;
        state.p2.team[i] = poke;
        i += 1;
    }
    g
}

/// Determinizing changes only the item and the moves; it keeps a known item
/// and every known move; a member whose species the index lists ends with a
/// known item and four known moves; any other member is left as it is.
pub proof fn lemma_determinize_fills_unknowns(data: GameData, p: PokemonState, draws: [Option<u16>; 4])
    ensures
        ({
            let r = spec_determinize_member(data, p, draws);
            &&& r == PokemonState { item_id: r.item_id, moves: r.moves, ..p }
            &&& p.item_id != 0 ==> r.item_id == p.item_id
            &&& forall|j: int| 0 <= j < 4 && p.moves[j] != 0 ==> r.moves[j] == p.moves[j]
            &&& (p.species_id != 0 && data.spec_species_key_index(p.species_id) is Some) ==> {
                &&& r.item_id != 0
                &&& forall|j: int| 0 <= j < 4 ==> r.moves[j] != 0
            }
            &&& !(p.species_id != 0 && data.spec_species_key_index(p.species_id) is Some) ==> r == p
        }),
{
}

/// Determinizing twice is determinizing once: after a first pass with any
/// draws, a second pass with any draws changes nothing.
pub proof fn lemma_determinize_idempotent(data: GameData, p: PokemonState, first: [Option<u16>; 4], second: [Option<u16>; 4])
    ensures
        spec_determinize_member(data, spec_determinize_member(data, p, first), second)
            == spec_determinize_member(data, p, first),
{
    let q = spec_determinize_member(data, p, first);
    lemma_determinize_fills_unknowns(data, p, first);
    if p.species_id != 0 && data.spec_species_key_index(p.species_id) is Some {
        let k = data.spec_species_key_index(p.species_id)->0;
        let d = if data.spec_has_usage(data.species_to_id@[k].0@) { second } else { no_draws() };
        let r = spec_fill_unknowns(q, d);
        assert(r.moves =~= q.moves);
        assert(r == q);
    }
}

/// Once determinized, a member asks for no draw: a second determinization
/// asks the draw function for nothing (and, by
/// [`lemma_determinize_idempotent`], changes nothing).
pub proof fn lemma_second_pass_draws_nothing(data: GameData, member: usize, p: PokemonState, draws: [Option<u16>; 4])
    ensures
        spec_member_requests(data, member, spec_determinize_member(data, p, draws)).len() == 0,
{
    let q = spec_determinize_member(data, p, draws);
    lemma_determinize_fills_unknowns(data, p, draws);
    if draws_for(data, q) {
        let key = species_key_of(data, q.species_id);
        assert(q.moves[0] != 0 && q.moves[1] != 0 && q.moves[2] != 0 && q.moves[3] != 0);
        assert(move_requests_upto(member, q.moves, key, 0).len() == 0);
        assert(move_requests_upto(member, q.moves, key, 1).len() == 0);
        assert(move_requests_upto(member, q.moves, key, 2).len() == 0);
        assert(move_requests_upto(member, q.moves, key, 3).len() == 0);
        assert(move_requests_upto(member, q.moves, key, 4).len() == 0);
        assert(item_requests(member, q, key).len() == 0);
    }
}

/// A second determinization of a determinized member asks for no draw at
/// all, so the generator comes back as it went in, and changes nothing.
pub proof fn lemma_second_pass_is_noop<G, F: Fn(G, &DrawRequest) -> (G, Option<u16>)>(
    draw: F,
    data: GameData,
    member: usize,
    p: PokemonState,
    q: PokemonState,
    r: PokemonState,
    g0: G,
    g1: G,
    h0: G,
    h1: G,
)
    requires
        determinized_by(draw, data, member, p, q, g0, g1),
        determinized_by(draw, data, member, q, r, h0, h1),
    ensures
        r == q,
        h1 == h0,
{
    let (results1, gens1) = choose|results: Seq<Option<u16>>, gens: Seq<G>|
        #[trigger] chained(draw, spec_member_requests(data, member, p), results, gens)
        && gens[0] == g0
        && gens.last() == g1
        && q == spec_determinize_member(data, p, spec_member_draws(p, results));
    let (results2, gens2) = choose|results: Seq<Option<u16>>, gens: Seq<G>|
        #[trigger] chained(draw, spec_member_requests(data, member, q), results, gens)
        && gens[0] == h0
        && gens.last() == h1
        && r == spec_determinize_member(data, q, spec_member_draws(q, results));
    lemma_second_pass_draws_nothing(data, member, p, spec_member_draws(p, results1));
    lemma_determinize_idempotent(data, p, spec_member_draws(p, results1), spec_member_draws(q, results2));
    assert(gens2.len() == 1);
}

} // verus!
