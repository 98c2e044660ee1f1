//! The properties the simulation is held to, stated once over the
//! mathematical model and proved for every state they speak of.

use vstd::prelude::*;
use crate::bird::BirdV;
use crate::config::{
    BIRD_HEIGHT_SUB, BIRD_WIDTH_SUB, HEIGHT_SUB, PIPE_SPACING_SUB, PIPE_SPAWN_LINE_SUB,
    PIPE_STEP_SUB, PIPE_WIDTH_SUB, WIDTH_SUB,
};
use crate::game::{lemma_find_pass_in_range, GameState, GameV};
use crate::pipe::PipeV;
use crate::vector2::Vec2V;

verus! {

/// The flyer's box tracks its position: after any advance or flap from a
/// well-formed bird, the box is again exactly the position translated by
/// the fixed bird dimensions.
pub proof fn lemma_box_tracks_position(b: BirdV)
    requires
        b.wf(),
    ensures
        b.stepped().collision_box.min == b.stepped().position,
        b.stepped().collision_box.max == (Vec2V {
            x: b.stepped().position.x + BIRD_WIDTH_SUB as int,
            y: b.stepped().position.y + BIRD_HEIGHT_SUB as int,
        }),
        b.flown().collision_box.min == b.flown().position,
        b.flown().collision_box.max == (Vec2V {
            x: b.flown().position.x + BIRD_WIDTH_SUB as int,
            y: b.flown().position.y + BIRD_HEIGHT_SUB as int,
        }),
{
}

/// How many pipes of the queue have been passed.
pub open spec fn count_passed(pipes: Seq<PipeV>) -> int
    decreases pipes.len(),
{
    if pipes.len() == 0 {
        0
    } else {
        count_passed(pipes.drop_last()) + if pipes.last().passed {
            1int
        } else {
            0int
        }
    }
}

/// Flipping one unpassed pipe's flag raises the passed count by one.
proof fn lemma_count_passed_update(pipes: Seq<PipeV>, k: int)
    requires
        0 <= k < pipes.len(),
        !pipes[k].passed,
    ensures
        count_passed(pipes.update(k, PipeV { passed: true, ..pipes[k] }))
            == count_passed(pipes) + 1,
    decreases pipes.len(),
{
    let upd = pipes.update(k, PipeV { passed: true, ..pipes[k] });
    if k == pipes.len() - 1 {
        assert(upd.drop_last() =~= pipes.drop_last());
        assert(upd.last() == (PipeV { passed: true, ..pipes[k] }));
    } else {
        assert(upd.drop_last() =~= pipes.drop_last().update(
            k,
            PipeV { passed: true, ..pipes.drop_last()[k] },
        ));
        lemma_count_passed_update(pipes.drop_last(), k);
        assert(upd.last() == pipes.last());
    }
}

/// The score never decreases, under ticks and under inputs.
pub proof fn lemma_score_monotonic(g: GameV, gap: int)
    ensures
        g.step(gap).score >= g.score,
        g.after_fly().score == g.score,
{
}

/// One tick raises the score by exactly the number of pipes — zero or one —
/// whose `passed` flag turns true during that tick.
pub proof fn lemma_score_counts_passes(g: GameV, gap: int)
    requires
        g.state == GameState::Playing,
        0 <= g.score < u32::MAX,
    ensures
        ({
            let moved = g.moved_pipes(gap);
            let marked = GameV::mark_pass(moved, g.bird.stepped());
            g.step(gap).score - g.score == count_passed(marked) - count_passed(moved)
        }),
        0 <= g.step(gap).score - g.score <= 1,
{
    let moved = g.moved_pipes(gap);
    let bird = g.bird.stepped();
    lemma_find_pass_in_range(moved, bird, 0);
    match GameV::find_pass(moved, bird, 0) {
        Some(k) => {
            lemma_count_passed_update(moved, k);
        }
        None => {
            assert(GameV::mark_pass(moved, bird) == moved);
        }
    }
}

/// Determinism: equal states fed one and the same drawn gap offset and one
/// and the same input take equal successor states, so two runs given
/// identical draws, ticks and inputs cannot diverge.
pub proof fn lemma_step_deterministic(g1: GameV, g2: GameV, gap: int)
    requires
        g1 == g2,
    ensures
        g1.step(gap) == g2.step(gap),
        g1.after_fly() == g2.after_fly(),
{
}

/// Barrier spacing: whenever the spawn check fires, the newest pipe's left
/// edge has crossed the spawn line by less than one tick of scroll, so the
/// distance between its trailing edge and the freshly spawned pipe is
/// `PIPE_SPACING` pixels, overshot by at most one tick of scroll.
pub proof fn lemma_spawn_spacing(g: GameV)
    requires
        g.wf(),
        GameV::spawn_needed(g.pipes),
    ensures
        PIPE_SPAWN_LINE_SUB - PIPE_STEP_SUB <= g.pipes.last().position.x < PIPE_SPAWN_LINE_SUB,
        PIPE_SPACING_SUB < WIDTH_SUB - (g.pipes.last().position.x + PIPE_WIDTH_SUB)
            <= PIPE_SPACING_SUB + PIPE_STEP_SUB,
{
}

/// Boundary death: the death check uses the open interval `[0, HEIGHT_SUB]`
/// — any position above the top or below the bottom dies, while a bird
/// exactly on either edge survives so long as it touches no pipe.
pub proof fn lemma_boundary_death(bird: BirdV, pipes: Seq<PipeV>)
    ensures
        bird.position.y < 0 ==> GameV::bird_dead(bird, pipes),
        bird.position.y > HEIGHT_SUB ==> GameV::bird_dead(bird, pipes),
        (bird.position.y == 0 || bird.position.y == HEIGHT_SUB) && (forall|i: int|
            0 <= i < pipes.len() ==> !bird.hits_pipe(#[trigger] pipes[i]))
            ==> !GameV::bird_dead(bird, pipes),
{
}

} // verus!

verus! {

/// The outcome of a run: the state after taking one tick per drawn gap
/// offset, in order.
pub open spec fn run(g: GameV, gaps: Seq<int>) -> GameV
    decreases gaps.len(),
{
    if gaps.len() == 0 {
        g
    } else {
        run(g.step(gaps[0]), gaps.drop_first())
    }
}

/// Whether one tick scores: it does exactly when, while playing, the scan
/// over the drifted queue finds an unpassed pipe the bird has cleared.
pub open spec fn step_passes(g: GameV, gap: int) -> int {
    if g.state == GameState::Playing && GameV::find_pass(
        g.moved_pipes(gap),
        g.bird.stepped(),
        0,
    ) is Some {
        1
    } else {
        0
    }
}

/// How many pipes a run turns from unpassed to passed: one per scoring
/// tick, since each such tick flips exactly one flag.
pub open spec fn run_passes(g: GameV, gaps: Seq<int>) -> int
    decreases gaps.len(),
{
    if gaps.len() == 0 {
        0
    } else {
        step_passes(g, gaps[0]) + run_passes(g.step(gaps[0]), gaps.drop_first())
    }
}

/// Runs are deterministic: one start state and one sequence of drawn gap
/// offsets give one outcome.
pub proof fn lemma_run_deterministic(g1: GameV, g2: GameV, gaps1: Seq<int>, gaps2: Seq<int>)
    requires
        g1 == g2,
        gaps1 == gaps2,
    ensures
        run(g1, gaps1) == run(g2, gaps2),
{
}

/// The score never decreases over a whole run.
pub proof fn lemma_run_score_monotonic(g: GameV, gaps: Seq<int>)
    ensures
        run(g, gaps).score >= g.score,
    decreases gaps.len(),
{
    if gaps.len() > 0 {
        lemma_score_monotonic(g, gaps[0]);
        lemma_run_score_monotonic(g.step(gaps[0]), gaps.drop_first());
    }
}

/// Across a whole run the final score is the starting score plus the number
/// of pipes whose `passed` flag turned true, so long as the counter has
/// room for every tick of the run.
pub proof fn lemma_run_score_counts_passes(g: GameV, gaps: Seq<int>)
    requires
        0 <= g.score,
        g.score + gaps.len() <= u32::MAX,
    ensures
        run(g, gaps).score == g.score + run_passes(g, gaps),
        0 <= run_passes(g, gaps) <= gaps.len(),
    decreases gaps.len(),
{
    if gaps.len() > 0 {
        let s1 = g.step(gaps[0]);
        assert(s1.score == g.score + step_passes(g, gaps[0]));
        lemma_run_score_counts_passes(s1, gaps.drop_first());
    }
}

/// A run from a well-formed state stays well formed, whichever gap offsets
/// its spawned pipes draw within the configured range.
pub proof fn lemma_run_preserves_wf(g: GameV, gaps: Seq<int>)
    requires
        g.wf(),
        forall|i: int| 0 <= i < gaps.len() ==> PipeV::gap_in_range(#[trigger] gaps[i]),
    ensures
        run(g, gaps).wf(),
    decreases gaps.len(),
{
    if gaps.len() > 0 {
        crate::game::lemma_step_preserves_wf(g, gaps[0]);
        assert forall|i: int| 0 <= i < gaps.drop_first().len() implies PipeV::gap_in_range(
            #[trigger] gaps.drop_first()[i],
        ) by {
            assert(gaps.drop_first()[i] == gaps[i + 1]);
        }
        lemma_run_preserves_wf(g.step(gaps[0]), gaps.drop_first());
    }
}

} // verus!
