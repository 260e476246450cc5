//! The integer parts of the position evaluation: the hazard penalty of a
//! side and the HP shares that count toward its score.
use vstd::prelude::*;
use crate::state::{FieldHazards, PlayerState, PokemonState};

verus! {

/// Whether the hazard set `h` holds the hazard `flag`.
pub open spec fn has_hazard(h: u8, flag: u8) -> bool {
    h & flag == flag
}

/// Twice the penalty of the hazards `h` on a side: Stealth Rock 1, first
/// layer of Spikes 0.5, second 1, third 1.5, first layer of Toxic Spikes
/// 0.5, second 1.5, Sticky Web 1; counted in halves so that it is whole.
pub open spec fn spec_hazard_penalty_halves(h: u8) -> nat {
    (if has_hazard(h, 1) { 2nat } else { 0nat })
        + (if has_hazard(h, 2) { 1nat } else { 0nat })
        + (if has_hazard(h, 4) { 2nat } else { 0nat })
        + (if has_hazard(h, 8) { 3nat } else { 0nat })
        + (if has_hazard(h, 16) { 1nat } else { 0nat })
        + (if has_hazard(h, 32) { 3nat } else { 0nat })
        + (if has_hazard(h, 64) { 2nat } else { 0nat })
}

/// Twice the penalty of the hazards on `player`'s side of the field.
pub fn hazard_penalty_halves(player: &PlayerState) -> (r: u32)
    ensures
        r == spec_hazard_penalty_halves(player.hazards@),
        r <= 14,
{
    let h = player.hazards;
    let mut penalty: u32 = 0;
    if h.contains(FieldHazards::from_bits_retain(FieldHazards::STEALTH_ROCK)) {
        penalty += 2;
    }
    if h.contains(FieldHazards::from_bits_retain(FieldHazards::SPIKES_1)) {
        penalty += 1;
    }
    if h.contains(FieldHazards::from_bits_retain(FieldHazards::SPIKES_2)) {
        penalty += 2;
    }
    if h.contains(FieldHazards::from_bits_retain(FieldHazards::SPIKES_3)) {
        penalty += 3;
    }
    if h.contains(FieldHazards::from_bits_retain(FieldHazards::TOXIC_SPIKES_1)) {
        penalty += 1;
    }
    if h.contains(FieldHazards::from_bits_retain(FieldHazards::TOXIC_SPIKES_2)) {
        penalty += 3;
    }
    if h.contains(FieldHazards::from_bits_retain(FieldHazards::STICKY_WEB)) {
        penalty += 2;
    }
    penalty
}

/// More hazards never lower the penalty: when every hazard of `a` is also
/// in `b`, the penalty of `a` is at most that of `b`. No hazard costs
/// nothing.
pub proof fn lemma_hazard_penalty_monotone(a: FieldHazards, b: FieldHazards)
    requires
        a@ & b@ == a@,
    ensures
        spec_hazard_penalty_halves(a@) <= spec_hazard_penalty_halves(b@),
        spec_hazard_penalty_halves(0) == 0,
{
    let x = a@;
    let y = b@;
    assert(
        (x & 1u8 == 1u8 ==> y & 1u8 == 1u8)
        && (x & 2u8 == 2u8 ==> y & 2u8 == 2u8)
        && (x & 4u8 == 4u8 ==> y & 4u8 == 4u8)
        && (x & 8u8 == 8u8 ==> y & 8u8 == 8u8)
        && (x & 16u8 == 16u8 ==> y & 16u8 == 16u8)
        && (x & 32u8 == 32u8 ==> y & 32u8 == 32u8)
        && (x & 64u8 == 64u8 ==> y & 64u8 == 64u8)
    ) by (bit_vector)
        requires
            x & y == x,
    ;
    assert(!has_hazard(0, 1) && !has_hazard(0, 2) && !has_hazard(0, 4) && !has_hazard(0, 8)
        && !has_hazard(0, 16) && !has_hazard(0, 32) && !has_hazard(0, 64)) by (bit_vector);
}

/// Whether a team member's HP share counts toward its side's score: it has
/// not fainted and has a maximum HP.
pub open spec fn counts_hp(p: PokemonState) -> bool {
    !p.fainted && p.max_hp > 0
}

/// The `(hp, max_hp)` pairs of the members of `team` whose share counts, in
/// team order.
pub open spec fn spec_hp_shares(team: Seq<PokemonState>) -> Seq<(u16, u16)>
    decreases team.len(),
{
    if team.len() == 0 {
        Seq::empty()
    } else {
        let prev = spec_hp_shares(team.drop_last());
        if counts_hp(team.last()) {
            prev.push((team.last().hp, team.last().max_hp))
        } else {
            prev
        }
    }
}

/// The `(hp, max_hp)` pairs whose quotients make up the HP score of
/// `player`: those of the team members that have not fainted and have a
/// maximum HP, in team order.
pub fn hp_shares(player: &PlayerState) -> (r: Vec<(u16, u16)>)
    ensures
        r@ == spec_hp_shares(player.team@),
        forall|i: int| 0 <= i < r@.len() ==> 0 < #[trigger] r@[i].1,
{
    let mut out: Vec<(u16, u16)> = Vec::new();
    let mut i: usize = 0;
    while i < 6
        invariant
            0 <= i <= 6,
            player.team@.len() == 6,
            out@ == spec_hp_shares(player.team@.take(i as int)),
        decreases 6 - i,
    {
        assert(player.team@.take(i + 1).drop_last() == player.team@.take(i as int));
        let poke = &player.team[i];
        if !poke.fainted && poke.max_hp > 0 {
            out.push((poke.hp, poke.max_hp));
        }
        i += 1;
    }
    assert(player.team@.take(6) == player.team@);
    proof {
        lemma_hp_shares_positive(player.team@);
    }
    out
}

proof fn lemma_hp_shares_positive(team: Seq<PokemonState>)
    ensures
        forall|i: int| 0 <= i < spec_hp_shares(team).len() ==> 0 < #[trigger] spec_hp_shares(team)[i].1,
    decreases team.len(),
{
    if team.len() > 0 {
        let prev = spec_hp_shares(team.drop_last());
        lemma_hp_shares_positive(team.drop_last());
        assert forall|i: int| 0 <= i < spec_hp_shares(team).len() implies 0 < #[trigger] spec_hp_shares(team)[i].1 by {
            if i < prev.len() {
                assert(spec_hp_shares(team)[i] == prev[i]);
            }
        }
    }
}

/// The number of members of `team` that have not fainted and have a
/// maximum HP.
pub open spec fn standing_with_max_hp(team: Seq<PokemonState>) -> nat
    decreases team.len(),
{
    if team.len() == 0 {
        0
    } else {
        standing_with_max_hp(team.drop_last()) + if !team.last().fainted && team.last().max_hp > 0 { 1nat } else { 0nat }
    }
}

/// `e` is the `(hp, max_hp)` of a member of `team` that has not fainted and
/// has a maximum HP.
pub open spec fn is_share_of_standing(team: Seq<PokemonState>, e: (u16, u16)) -> bool {
    exists|i: int| #![trigger team[i]] 0 <= i < team.len() && !team[i].fainted && team[i].max_hp > 0 && e == (team[i].hp, team[i].max_hp)
}

/// Every team member that has not fainted and has a maximum HP counts
/// toward the HP score with its `(hp, max_hp)`, whatever its HP (a member
/// at full HP counts one whole share), and nothing else counts: there is
/// one share per such member, each share is such a member's.
pub proof fn lemma_hp_shares_count_every_standing_member(team: Seq<PokemonState>)
    ensures
        spec_hp_shares(team).len() == standing_with_max_hp(team),
        forall|i: int| 0 <= i < team.len() && !team[i].fainted && team[i].max_hp > 0 ==>
            exists|j: int| 0 <= j < spec_hp_shares(team).len() && #[trigger] spec_hp_shares(team)[j] == (team[i].hp, team[i].max_hp),
        forall|j: int| 0 <= j < spec_hp_shares(team).len() ==> is_share_of_standing(team, #[trigger] spec_hp_shares(team)[j]),
    decreases team.len(),
{
    if team.len() > 0 {
        let init = team.drop_last();
        let prev = spec_hp_shares(init);
        let out = spec_hp_shares(team);
        lemma_hp_shares_count_every_standing_member(init);
        assert forall|i: int| 0 <= i < team.len() && !team[i].fainted && team[i].max_hp > 0 implies
            exists|j: int| 0 <= j < out.len() && #[trigger] out[j] == (team[i].hp, team[i].max_hp) by {
            if i == team.len() - 1 {
                assert(out[prev.len() as int] == (team[i].hp, team[i].max_hp));
            } else {
                assert(init[i] == team[i]);
                let j = choose|j: int| 0 <= j < prev.len() && #[trigger] prev[j] == (init[i].hp, init[i].max_hp);
                assert(out[j] == prev[j]);
            }
        }
        assert forall|j: int| 0 <= j < out.len() implies is_share_of_standing(team, #[trigger] out[j]) by {
            if j < prev.len() {
                assert(out[j] == prev[j]);
                assert(is_share_of_standing(init, prev[j]));
                let i = choose|i: int| #![trigger init[i]] 0 <= i < init.len() && !init[i].fainted && init[i].max_hp > 0 && prev[j] == (init[i].hp, init[i].max_hp);
                assert(init[i] == team[i]);
            } else {
                let i = team.len() - 1;
                assert(out[j] == (team[i].hp, team[i].max_hp));
                assert(team[i] == team.last());
            }
        }
    }
}

} // verus!
