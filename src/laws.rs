use vstd::prelude::*;
use crate::bird::{bird_step, Bird, MAX_POS, START_POS};
use crate::game::{
    advanced, moved, next, reset, reset_state, spawned_pillar, state_wf, lemma_next_wf, FAIL_POS,
};
use crate::pillar::{hits, hole_in_range, in_column, in_gap, pillar_step, Pillar};

verus! {

/// The state after one tick for each gap centre in `holes`, in order,
/// starting from `s`.
pub open spec fn run(s: (Bird, Seq<Pillar>), holes: Seq<int>) -> (Bird, Seq<Pillar>)
    decreases holes.len(),
{
    if holes.len() == 0 {
        s
    } else {
        next(run(s, holes.drop_last()), holes.last())
    }
}

/// Every gap centre in `holes` is valid.
pub open spec fn holes_in_range(holes: Seq<int>) -> bool {
    forall|i: int| 0 <= i < holes.len() ==> hole_in_range(#[trigger] holes[i])
}

/// Any number of ticks from a valid state leads to a valid state.
pub proof fn lemma_run_wf(s: (Bird, Seq<Pillar>), holes: Seq<int>)
    requires
        state_wf(s),
        holes_in_range(holes),
    ensures
        state_wf(run(s, holes)),
    decreases holes.len(),
{
    if holes.len() > 0 {
        let prefix = holes.drop_last();
        assert(holes_in_range(prefix)) by {
            assert forall|i: int| 0 <= i < prefix.len() implies hole_in_range(#[trigger] prefix[i]) by {
                assert(prefix[i] == holes[i]);
            }
        }
        lemma_run_wf(s, prefix);
        assert(hole_in_range(holes[holes.len() - 1]));
        lemma_next_wf(run(s, prefix), holes.last());
    }
}

/// After any number of ticks from a reset, the player is still on the
/// screen: its position lies in `[0, MAX_POS]`.
pub proof fn lemma_position_on_screen(h0: int, holes: Seq<int>)
    requires
        hole_in_range(h0),
        holes_in_range(holes),
    ensures
        0 <= run(reset_state(h0), holes).0.pos <= MAX_POS,
{
    assert(state_wf(reset_state(h0)));
    lemma_run_wf(reset_state(h0), holes);
}

/// Once at least one tick has run from a valid state, there is always an
/// obstacle.
pub proof fn lemma_obstacles_never_empty(s: (Bird, Seq<Pillar>), holes: Seq<int>)
    requires
        state_wf(s),
        holes_in_range(holes),
        holes.len() >= 1,
    ensures
        run(s, holes).1.len() > 0,
{
}

/// A reset forgets the state it is applied to: two resets in a row give the
/// same state as one, the player at its start, at rest, with a single
/// obstacle at the spawn position.
pub proof fn lemma_reset_idempotent(s: (Bird, Seq<Pillar>), hole: int)
    ensures
        reset(reset(s, hole), hole) == reset(s, hole),
        reset(s, hole).0 == (Bird { pos: START_POS, velocity: 0 }),
        reset(s, hole).1 == seq![spawned_pillar(hole)],
{
}

/// If, after the kinematics of a tick, an obstacle is in the player's column
/// and the player lies strictly outside its gap, the tick ends in the reset
/// state.
pub proof fn lemma_collision_resets(s: (Bird, Seq<Pillar>), hole: int, i: int)
    requires
        state_wf(s),
        0 <= i < s.1.len(),
        in_column(pillar_step(s.1[i]).pos as int),
        bird_step(s.0).pos < s.1[i].holepos - s.1[i].space
            || bird_step(s.0).pos > s.1[i].holepos + s.1[i].space,
    ensures
        next(s, hole) == reset_state(hole),
{
    let ps = moved(s.1);
    assert(ps[i] == pillar_step(s.1[i]));
    assert(hits(ps[i], bird_step(s.0).pos as int));
}

/// If, after the kinematics of a tick, the player lies strictly inside the
/// gap of every obstacle in its column and strictly between the boundaries,
/// the tick does not reset: the player keeps its new state and the obstacles
/// move on, retire and spawn.
pub proof fn lemma_gap_passes(s: (Bird, Seq<Pillar>), hole: int)
    requires
        forall|i: int| 0 <= i < s.1.len() && in_column(#[trigger] pillar_step(s.1[i]).pos as int)
            ==> in_gap(pillar_step(s.1[i]), bird_step(s.0).pos as int),
        0 < bird_step(s.0).pos < FAIL_POS,
    ensures
        next(s, hole) == (bird_step(s.0), advanced(s.1, hole)),
{
    let ps = moved(s.1);
    assert forall|i: int| 0 <= i < ps.len() implies !hits(#[trigger] ps[i], bird_step(s.0).pos as int) by {
        assert(ps[i] == pillar_step(s.1[i]));
    }
}

} // verus!
