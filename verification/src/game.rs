//! The simulation: per-tick updates, spawn and cull of pipes, pass and
//! collision detection, score accounting, and the game-state machine.

use vstd::prelude::*;
use crate::bird::{bird_start, Bird, BirdV};
use crate::config::{
    BIRD_FLY_SPEED, BIRD_MAX_VEL_Y, BIRD_MAX_Y_SUB, BIRD_MIN_Y_SUB, HEIGHT_SUB,
    PIPE_GAP_BOUND, PIPE_MIN_DISTANCE_SUB, PIPE_SPAWN_LINE_SUB, PIPE_STEP_SUB, PIPE_WIDTH_SUB,
    SEED, WIDTH_SUB,
};
use crate::pipe::{Pipe, PipeV};
use crate::score::Score;

verus! {

/// The top-level state machine: `MainMenu` is initial, `Dead` is terminal
/// until an explicit restart.
#[derive(Clone, Copy, Debug, PartialEq, Eq, Structural)]
pub enum GameState {
    MainMenu,
    Playing,
    Dead,
}

/// The mathematical values of a pipe queue, oldest (leftmost) first.
pub open spec fn pipes_view(s: Seq<Pipe>) -> Seq<PipeV> {
    s.map_values(|p: Pipe| p@)
}

/// Mathematical value of a `Game`: everything but the random source.
pub ghost struct GameV {
    pub state: GameState,
    pub score: int,
    pub bird: BirdV,
    pub pipes: Seq<PipeV>,
}

impl GameV {
    /// Invariant on the pipe queue: it is never empty, every pipe is well
    /// formed and on or near the screen, pipes are spaced at least
    /// `PIPE_MIN_DISTANCE_SUB` apart in spawn order, and the newest pipe has
    /// not drifted more than one tick past the spawn line.
    pub open spec fn pipes_wf(pipes: Seq<PipeV>) -> bool {
        &&& pipes.len() >= 1
        &&& forall|i: int| 0 <= i < pipes.len() ==> (#[trigger] pipes[i]).wf()
        &&& forall|i: int|
            0 <= i < pipes.len() ==> -PIPE_WIDTH_SUB <= (#[trigger] pipes[i]).position.x
                <= WIDTH_SUB
        &&& forall|i: int, j: int|
            0 <= i < j < pipes.len() ==> (#[trigger] pipes[i]).position.x
                + PIPE_MIN_DISTANCE_SUB <= (#[trigger] pipes[j]).position.x
        &&& pipes.last().position.x >= PIPE_SPAWN_LINE_SUB - PIPE_STEP_SUB
    }

    /// Invariant every reachable game satisfies. While playing, the bird is
    /// also known to sit within a pixel of the screen with a bounded fall
    /// speed, which keeps every tick's arithmetic exact.
    pub open spec fn wf(self) -> bool {
        &&& self.bird.wf()
        &&& Self::pipes_wf(self.pipes)
        &&& 0 <= self.score <= u32::MAX
        &&& self.state == GameState::Playing ==> {
            &&& BIRD_MIN_Y_SUB <= self.bird.position.y <= BIRD_MAX_Y_SUB
            &&& -BIRD_FLY_SPEED <= self.bird.velocity.y <= BIRD_MAX_VEL_Y
        }
    }

    /// A new pipe is owed as soon as the newest pipe's left edge has
    /// scrolled past the spawn line.
    pub open spec fn spawn_needed(pipes: Seq<PipeV>) -> bool {
        pipes.last().position.x < PIPE_SPAWN_LINE_SUB
    }

    /// The index of the first pipe at or after `i` that is not yet passed
    /// but that the bird has passed, if any.
    pub open spec fn find_pass(pipes: Seq<PipeV>, bird: BirdV, i: int) -> Option<int>
        decreases pipes.len() - i,
    {
        if i < 0 || i >= pipes.len() {
            None
        } else if !pipes[i].passed && bird.past_pipe(pipes[i]) {
            Some(i)
        } else {
            Self::find_pass(pipes, bird, i + 1)
        }
    }

    /// Marks the first newly passed pipe, if any.
    pub open spec fn mark_pass(pipes: Seq<PipeV>, bird: BirdV) -> Seq<PipeV> {
        match Self::find_pass(pipes, bird, 0) {
            Some(i) => pipes.update(i, PipeV { passed: true, ..pipes[i] }),
            None => pipes,
        }
    }

    /// Removes the oldest pipe once its trailing edge has left the screen.
    pub open spec fn culled(pipes: Seq<PipeV>) -> Seq<PipeV> {
        if pipes.len() >= 1 && pipes[0].position.x + PIPE_WIDTH_SUB < 0 {
            pipes.drop_first()
        } else {
            pipes
        }
    }

    /// The death check: the bird collides with some pipe, or its vertical
    /// position has left `[0, HEIGHT_SUB]` (open-interval convention: the
    /// exact bounds do not kill).
    pub open spec fn bird_dead(bird: BirdV, pipes: Seq<PipeV>) -> bool {
        ||| exists|i: int| 0 <= i < pipes.len() && bird.hits_pipe(#[trigger] pipes[i])
        ||| bird.position.y < 0
        ||| bird.position.y > HEIGHT_SUB
    }

    /// The pipe queue after the spawn check and one tick of drift, given the
    /// gap offset `gap` a spawned pipe would draw.
    pub open spec fn moved_pipes(self, gap: int) -> Seq<PipeV> {
        let ps = if Self::spawn_needed(self.pipes) {
            self.pipes.push(PipeV::spawned(gap))
        } else {
            self.pipes
        };
        ps.map_values(|p: PipeV| p.stepped())
    }

    /// One whole tick from a playing state, in the fixed order: bird
    /// physics, spawn check, pipe drift, pass detection and scoring, cull,
    /// death check. Outside `Playing` a tick does nothing. `gap` is the gap
    /// offset drawn for the pipe spawned this tick, if one is.
    pub open spec fn step(self, gap: int) -> GameV {
        if self.state != GameState::Playing {
            self
        } else {
            let bird = self.bird.stepped();
            let moved = self.moved_pipes(gap);
            let score = if Self::find_pass(moved, bird, 0) is Some && self.score < u32::MAX {
                self.score + 1
            } else {
                self.score
            };
            let pipes = Self::culled(Self::mark_pass(moved, bird));
            let state = if Self::bird_dead(bird, pipes) {
                GameState::Dead
            } else {
                GameState::Playing
            };
            GameV { state, score, bird, pipes }
        }
    }

    /// A flap: while playing it overrides the bird's vertical momentum;
    /// otherwise it does nothing.
    pub open spec fn after_fly(self) -> GameV {
        if self.state == GameState::Playing {
            GameV { bird: self.bird.flown(), ..self }
        } else {
            self
        }
    }

    /// A fresh session: score zero, the bird at its start position, and a
    /// single pipe spawned at the right edge with gap offset `gap`.
    pub open spec fn session(state: GameState, gap: int) -> GameV {
        GameV {
            state,
            score: 0,
            bird: bird_start(),
            pipes: seq![PipeV::spawned(gap)],
        }
    }

    /// The state a new game starts in.
    pub open spec fn initial(gap: int) -> GameV {
        Self::session(GameState::MainMenu, gap)
    }

    /// The state a restart resets to.
    pub open spec fn restarted(gap: int) -> GameV {
        Self::session(GameState::Playing, gap)
    }
}

/// The whole game: state machine, score, bird, pipe queue, and the seeded
/// random source the gap offsets are drawn from.
pub struct Game {
    pub game_state: GameState,
    pub score: Score,
    pub bird: Bird,
    pub pipes: Vec<Pipe>,
    pub rng: rand_pcg::Pcg32,
    pub seed: u64,
}

impl View for Game {
    type V = GameV;

    open spec fn view(&self) -> GameV {
        GameV {
            state: self.game_state,
            score: self.score.score as int,
            bird: self.bird@,
            pipes: pipes_view(self.pipes@),
        }
    }
}

/// A freshly spawned pipe is well formed.
pub proof fn lemma_spawned_wf(gap: int)
    requires
        PipeV::gap_in_range(gap),
    ensures
        PipeV::spawned(gap).wf(),
{
}

/// One tick of drift keeps a pipe well formed.
pub proof fn lemma_pipe_stepped_wf(p: PipeV)
    requires
        p.wf(),
    ensures
        p.stepped().wf(),
        p.stepped().position.x == p.position.x - PIPE_STEP_SUB,
        p.stepped().gap == p.gap,
        p.stepped().passed == p.passed,
{
}

/// A fresh session is well formed, whatever state it starts in.
pub proof fn lemma_session_wf(state: GameState, gap: int)
    requires
        PipeV::gap_in_range(gap),
    ensures
        GameV::session(state, gap).wf(),
{
    lemma_spawned_wf(gap);
}

/// A hit reported by `find_pass` lies at or after `i`, names an unpassed
/// pipe the bird has cleared, and is the first such index.
pub proof fn lemma_find_pass_in_range(pipes: Seq<PipeV>, bird: BirdV, i: int)
    ensures
        match GameV::find_pass(pipes, bird, i) {
            Some(k) => i <= k < pipes.len() && !pipes[k].passed && bird.past_pipe(pipes[k]),
            None => true,
        },
    decreases pipes.len() - i,
{
    if i < 0 || i >= pipes.len() {
    } else if !pipes[i].passed && bird.past_pipe(pipes[i]) {
    } else {
        lemma_find_pass_in_range(pipes, bird, i + 1);
    }
}

/// Marking a pass flips at most one `passed` flag: length, positions, gaps
/// and well-formedness of every pipe are untouched.
pub proof fn lemma_mark_pass_shape(pipes: Seq<PipeV>, bird: BirdV)
    ensures
        GameV::mark_pass(pipes, bird).len() == pipes.len(),
        forall|i: int|
            0 <= i < pipes.len() ==> (#[trigger] GameV::mark_pass(pipes, bird)[i]).position
                == pipes[i].position,
        forall|i: int|
            0 <= i < pipes.len() ==> ((#[trigger] GameV::mark_pass(pipes, bird)[i]).wf()
                <==> pipes[i].wf()),
{
    lemma_find_pass_in_range(pipes, bird, 0);
    match GameV::find_pass(pipes, bird, 0) {
        Some(k) => {
            let marked = GameV::mark_pass(pipes, bird);
            assert forall|i: int| 0 <= i < pipes.len() implies (#[trigger] marked[i]).position
                == pipes[i].position && (marked[i].wf() <==> pipes[i].wf()) by {
                if i == k {
                    assert(marked[i] == (PipeV { passed: true, ..pipes[k] }));
                } else {
                    assert(marked[i] == pipes[i]);
                }
            }
        }
        None => {}
    }
}

/// The central invariance argument: a tick taken from any well-formed state
/// leaves a well-formed state, whichever gap offset was drawn.
pub proof fn lemma_step_preserves_wf(g: GameV, gap: int)
    requires
        g.wf(),
        PipeV::gap_in_range(gap),
    ensures
        g.step(gap).wf(),
{
    if g.state == GameState::Playing {
        let bird = g.bird.stepped();
        let ps0 = if GameV::spawn_needed(g.pipes) {
            g.pipes.push(PipeV::spawned(gap))
        } else {
            g.pipes
        };
        let moved = g.moved_pipes(gap);
        let marked = GameV::mark_pass(moved, bird);
        let pipes = GameV::culled(marked);
        let res = g.step(gap);

        lemma_spawned_wf(gap);
        lemma_mark_pass_shape(moved, bird);

        // The queue before the drift: well formed, on screen, spaced.
        assert(ps0.len() >= 1);
        assert forall|i: int| 0 <= i < ps0.len() implies (#[trigger] ps0[i]).wf()
            && -PIPE_WIDTH_SUB <= ps0[i].position.x <= WIDTH_SUB by {
            if i < g.pipes.len() {
                assert(ps0[i] == g.pipes[i]);
            } else {
                assert(ps0[i] == PipeV::spawned(gap));
            }
        }
        assert forall|i: int, j: int| 0 <= i < j < ps0.len() implies (#[trigger] ps0[i]).position.x
            + PIPE_MIN_DISTANCE_SUB <= (#[trigger] ps0[j]).position.x by {
            let last = g.pipes.len() - 1;
            if j < g.pipes.len() {
                assert(ps0[i] == g.pipes[i] && ps0[j] == g.pipes[j]);
                assert(g.pipes[i].position.x + PIPE_MIN_DISTANCE_SUB <= g.pipes[j].position.x);
            } else {
                // j names the pipe spawned this tick, at the right edge;
                // every older pipe sits at or below the spawn line.
                assert(ps0[j] == PipeV::spawned(gap));
                assert(ps0[i] == g.pipes[i]);
                if i < last {
                    assert(g.pipes[i].position.x + PIPE_MIN_DISTANCE_SUB
                        <= g.pipes[last].position.x);
                }
                assert(g.pipes.last() == g.pipes[last]);
                assert(g.pipes[last].position.x < PIPE_SPAWN_LINE_SUB);
            }
        }

        // After the drift.
        assert(moved.len() == ps0.len());
        assert forall|i: int| 0 <= i < moved.len() implies #[trigger] moved[i]
            == ps0[i].stepped() by {
        }
        assert forall|i: int| 0 <= i < moved.len() implies (#[trigger] moved[i]).wf()
            && moved[i].position.x == ps0[i].position.x - PIPE_STEP_SUB by {
            lemma_pipe_stepped_wf(ps0[i]);
        }

        // After the pass marking: positions and length unchanged.
        assert(marked.len() == moved.len());
        assert forall|i: int| 0 <= i < marked.len() implies (#[trigger] marked[i]).wf()
            && marked[i].position == moved[i].position by {
        }

        // The newest pipe stays within one tick of the spawn line.
        let last = ps0.len() - 1;
        assert(marked[last].position.x >= PIPE_SPAWN_LINE_SUB - PIPE_STEP_SUB) by {
            if GameV::spawn_needed(g.pipes) {
                assert(ps0[last] == PipeV::spawned(gap));
            } else {
                assert(ps0[last] == g.pipes.last());
            }
        }

        // Cull safety: a removal only happens with at least two pipes, and
        // afterwards every pipe is back on or near the screen.
        if marked.len() >= 1 && marked[0].position.x + PIPE_WIDTH_SUB < 0 {
            assert(marked[0].position.x < PIPE_SPAWN_LINE_SUB - PIPE_STEP_SUB);
            assert(marked.len() >= 2);
            assert(pipes == marked.drop_first());
            assert forall|i: int| 0 <= i < pipes.len() implies -PIPE_WIDTH_SUB
                <= (#[trigger] pipes[i]).position.x <= WIDTH_SUB by {
                assert(pipes[i] == marked[i + 1]);
                assert(marked[i + 1].position == moved[i + 1].position);
                assert(moved[i + 1].position.x <= WIDTH_SUB);
                assert(marked[0].position.x + PIPE_MIN_DISTANCE_SUB
                    <= marked[i + 1].position.x);
                assert(marked[0].position == moved[0].position);
                assert(moved[0].position.x >= -PIPE_WIDTH_SUB - PIPE_STEP_SUB);
            }
            assert(pipes.last() == marked[marked.len() - 1]);
        } else {
            assert(pipes == marked);
            assert forall|i: int| 0 <= i < pipes.len() implies -PIPE_WIDTH_SUB
                <= (#[trigger] pipes[i]).position.x <= WIDTH_SUB by {
                assert(marked[i].position == moved[i].position);
                assert(moved[i].position.x <= WIDTH_SUB);
                if i > 0 {
                    assert(marked[0].position.x + PIPE_MIN_DISTANCE_SUB
                        <= marked[i].position.x);
                }
                // The oldest pipe was not culled, so it is still on screen.
                assert(marked[0].position.x >= -PIPE_WIDTH_SUB);
            }
        }

        assert(GameV::pipes_wf(pipes));

        // The bird: structure always, bounds whenever the game stays alive.
        assert(bird.wf());
        if !GameV::bird_dead(bird, pipes) {
            assert(0 <= bird.position.y <= HEIGHT_SUB);
            assert(bird.velocity.y * 5 == bird.position.y - g.bird.position.y);
            assert(res.state == GameState::Playing);
        }
        assert(res.wf());
    }
}

impl Game {
    /// A game over a caller-chosen seed, for deterministic runs.
    pub fn with_seed(seed: u64) -> (g: Game)
        ensures
            g.wf(),
            g.seed == seed,
            exists|gap: int| PipeV::gap_in_range(gap) && g@ == GameV::initial(gap),
    {
        let mut rng = crate::rng::new_rng(seed);
        let mut pipes: Vec<Pipe> = Vec::new();
        // The first pipe starts the spawn loop.
        let first = Pipe::new(&mut rng);
        pipes.push(first);
        let g = Game {
            game_state: GameState::MainMenu,
            score: Score::new(),
            bird: Bird::new(),
            pipes,
            rng,
            seed,
        };
        proof {
            let gap = first@.gap;
            lemma_session_wf(GameState::MainMenu, gap);
            assert(pipes_view(g.pipes@) =~= seq![PipeV::spawned(gap)]);
            assert(PipeV::gap_in_range(gap) && g@ == GameV::initial(gap));
        }
        g
    }

    /// A game over the built-in seed.
    pub fn new() -> (g: Game)
        ensures
            g.wf(),
            g.seed == SEED,
            exists|gap: int| PipeV::gap_in_range(gap) && g@ == GameV::initial(gap),
    {
        Self::with_seed(SEED)
    }

    /// Whether the game is well formed; all operations keep it so.
    pub open spec fn wf(self) -> bool {
        self@.wf()
    }

    /// A flap. Outside `Playing` this does nothing.
    pub fn space_bar_hit(&mut self)
        requires
            old(self).wf(),
        ensures
            final(self).wf(),
            final(self)@ == old(self)@.after_fly(),
            final(self).seed == old(self).seed,
    {
        match self.game_state {
            GameState::Playing => self.bird.fly(),
            _ => {}
        }
    }

    /// Confirm: from a menu this reseeds the random source from the stored
    /// seed and starts a fresh session; during play it does nothing.
    pub fn y_key_hit(&mut self)
        requires
            old(self).wf(),
        ensures
            final(self).wf(),
            final(self).seed == old(self).seed,
            old(self)@.state == GameState::Playing ==> *final(self) == *old(self),
            old(self)@.state != GameState::Playing ==> exists|gap: int|
                PipeV::gap_in_range(gap) && final(self)@ == GameV::restarted(gap),
    {
        match self.game_state {
            GameState::Playing => {}
            _ => {
                self.rng = crate::rng::new_rng(self.seed);
                self.score = Score::new();
                self.bird = Bird::new();
                let mut pipes: Vec<Pipe> = Vec::new();
                let first = Pipe::new(&mut self.rng);
                pipes.push(first);
                self.pipes = pipes;
                self.game_state = GameState::Playing;
                proof {
                    let gap = first@.gap;
                    lemma_session_wf(GameState::Playing, gap);
                    assert(pipes_view(self.pipes@) =~= seq![PipeV::spawned(gap)]);
                    assert(PipeV::gap_in_range(gap) && self@ == GameV::restarted(gap));
                }
            }
        }
    }

    /// Decline: tells the host to leave the process; during play the key
    /// does nothing.
    pub fn n_key_hit(&self) -> (quit: bool)
        ensures
            quit == (self@.state != GameState::Playing),
    {
        match self.game_state {
            GameState::Playing => false,
            _ => true,
        }
    }

    /// One fixed tick. Outside `Playing` it does nothing; while playing it
    /// advances the whole simulation by `GameV::step` with the gap offset
    /// drawn for a pipe spawned this tick, if one was.
    pub fn update(&mut self)
        requires
            old(self).wf(),
        ensures
            final(self).wf(),
            final(self).seed == old(self).seed,
            exists|gap: int|
                PipeV::gap_in_range(gap) && final(self)@ == old(self)@.step(gap),
            old(self)@.state != GameState::Playing ==> *final(self) == *old(self),
    {
        if self.game_state != GameState::Playing {
            proof {
                let gap = PIPE_GAP_BOUND as int;
                assert(PipeV::gap_in_range(gap) && self@ == old(self)@.step(gap));
            }
            return;
        }

        let ghost g0 = self@;

        // 1. Bird physics.
        self.bird.update();
        let ghost bird1 = self.bird@;
        proof {
            assert(bird1 == g0.bird.stepped());
        }

        // 2. Spawn check, keyed off the newest pipe's absolute position.
        let last_idx = self.pipes.len() - 1;
        let ghost mut gap: int = PIPE_GAP_BOUND as int;
        if self.pipes[last_idx].position.x < PIPE_SPAWN_LINE_SUB {
            let p = Pipe::new(&mut self.rng);
            proof {
                gap = p@.gap;
            }
            self.pipes.push(p);
        }
        let ghost ps0 = pipes_view(self.pipes@);
        proof {
            lemma_spawned_wf(gap);
            if GameV::spawn_needed(g0.pipes) {
                assert(ps0 =~= g0.pipes.push(PipeV::spawned(gap)));
            } else {
                assert(ps0 =~= g0.pipes);
            }
            assert forall|j: int| 0 <= j < ps0.len() implies (#[trigger] ps0[j]).wf()
                && -PIPE_WIDTH_SUB <= ps0[j].position.x <= WIDTH_SUB by {
                if j < g0.pipes.len() {
                    assert(ps0[j] == g0.pipes[j]);
                }
            }
        }

        // 3. One tick of drift for every pipe.
        let n = self.pipes.len();
        let mut i: usize = 0;
        while i < n
            invariant
                n == self.pipes.len(),
                i <= n,
                ps0.len() == n,
                forall|j: int| 0 <= j < ps0.len() ==> (#[trigger] ps0[j]).wf()
                    && -PIPE_WIDTH_SUB <= ps0[j].position.x <= WIDTH_SUB,
                forall|j: int| 0 <= j < i ==> pipes_view(self.pipes@)[j] == (#[trigger] ps0[j]).stepped(),
                forall|j: int| i <= j < n ==> pipes_view(self.pipes@)[j] == #[trigger] ps0[j],
                self.bird@ == bird1,
                self.game_state == GameState::Playing,
                self.score.score == g0.score,
                self.seed == old(self).seed,
            decreases n - i,
        {
            let mut p = self.pipes[i];
            proof {
                assert(p@ == ps0[i as int]);
            }
            p.update();
            self.pipes.set(i, p);
            i += 1;
        }
        let ghost ps1 = pipes_view(self.pipes@);
        proof {
            assert(ps1 =~= ps0.map_values(|q: PipeV| q.stepped()));
            assert(ps1 == g0.moved_pipes(gap));
            assert forall|j: int| 0 <= j < ps1.len() implies (#[trigger] ps1[j]).wf()
                && -PIPE_WIDTH_SUB - PIPE_STEP_SUB <= ps1[j].position.x
                <= WIDTH_SUB by {
                lemma_pipe_stepped_wf(ps0[j]);
            }
        }

        // 4. Pass detection: the first unpassed pipe the bird has cleared
        //    scores exactly once.
        let ghost new_score: int = if GameV::find_pass(ps1, bird1, 0) is Some
            && g0.score < u32::MAX {
            g0.score + 1
        } else {
            g0.score
        };
        let mut found = false;
        let mut i: usize = 0;
        while i < n && !found
            invariant
                n == self.pipes.len(),
                i <= n,
                ps1.len() == n,
                forall|j: int| 0 <= j < ps1.len() ==> (#[trigger] ps1[j]).wf()
                    && -PIPE_WIDTH_SUB - PIPE_STEP_SUB <= ps1[j].position.x <= WIDTH_SUB,
                self.bird@ == bird1,
                self.game_state == GameState::Playing,
                self.seed == old(self).seed,
                0 <= g0.score <= u32::MAX,
                new_score == if GameV::find_pass(ps1, bird1, 0) is Some && g0.score < u32::MAX {
                    g0.score + 1
                } else {
                    g0.score
                },
                !found ==> {
                    &&& pipes_view(self.pipes@) == ps1
                    &&& self.score.score == g0.score
                    &&& GameV::find_pass(ps1, bird1, 0) == GameV::find_pass(ps1, bird1, i as int)
                },
                found ==> {
                    &&& pipes_view(self.pipes@) == GameV::mark_pass(ps1, bird1)
                    &&& self.score.score == new_score
                },
            decreases n - i + (if found { 0int } else { 1int }),
        {
            let p = self.pipes[i];
            proof {
                assert(p@ == ps1[i as int]);
            }
            if !p.passed && self.bird.is_passed_pipe(&p) {
                let mut q = p;
                q.passed = true;
                self.pipes.set(i, q);
                if self.score.score < u32::MAX {
                    self.score.increase_score();
                }
                found = true;
                proof {
                    assert(GameV::find_pass(ps1, bird1, i as int) == Some(i as int));
                    assert(GameV::find_pass(ps1, bird1, 0) == Some(i as int));
                    assert(pipes_view(self.pipes@) =~= ps1.update(
                        i as int,
                        PipeV { passed: true, ..ps1[i as int] },
                    ));
                    assert(GameV::mark_pass(ps1, bird1) == ps1.update(
                        i as int,
                        PipeV { passed: true, ..ps1[i as int] },
                    ));
                }
            } else {
                proof {
                    assert(GameV::find_pass(ps1, bird1, i as int) == GameV::find_pass(
                        ps1,
                        bird1,
                        i as int + 1,
                    ));
                }
                i += 1;
            }
        }
        proof {
            if !found {
                assert(GameV::find_pass(ps1, bird1, 0) == GameV::find_pass(ps1, bird1, n as int));
                assert(GameV::find_pass(ps1, bird1, n as int) is None);
            }
            assert(pipes_view(self.pipes@) == GameV::mark_pass(ps1, bird1));
            assert(self.score.score == new_score);
        }
        let ghost ps2 = pipes_view(self.pipes@);
        proof {
            lemma_mark_pass_shape(ps1, bird1);
            assert forall|j: int| 0 <= j < ps2.len() implies -PIPE_WIDTH_SUB - PIPE_STEP_SUB
                <= (#[trigger] ps2[j]).position.x <= WIDTH_SUB by {
                assert(ps2[j].position == ps1[j].position);
            }
        }

        // 5. Cull the oldest pipe once it has fully left the screen.
        let first = self.pipes[0];
        if first.position.x + PIPE_WIDTH_SUB < 0 {
            self.pipes.remove(0);
            proof {
                assert(pipes_view(self.pipes@) =~= ps2.drop_first());
            }
        }
        let ghost ps3 = pipes_view(self.pipes@);
        proof {
            assert(ps3 == GameV::culled(ps2));
        }

        // 6. Death check: any collision, or the bird off the top or bottom.
        let n2 = self.pipes.len();
        let mut dead = false;
        let mut i: usize = 0;
        while i < n2 && !dead
            invariant
                n2 == self.pipes.len(),
                i <= n2,
                pipes_view(self.pipes@) == ps3,
                ps3.len() == n2,
                self.bird@ == bird1,
                self.game_state == GameState::Playing,
                self.score.score == new_score,
                self.seed == old(self).seed,
                !dead ==> forall|j: int| 0 <= j < i ==> !bird1.hits_pipe(#[trigger] ps3[j]),
                dead ==> exists|j: int| 0 <= j < n2 && bird1.hits_pipe(#[trigger] ps3[j]),
            decreases n2 - i + (if dead { 0int } else { 1int }),
        {
            let p = self.pipes[i];
            proof {
                assert(p@ == ps3[i as int]);
            }
            if self.bird.collides_with_pipe(&p) {
                dead = true;
            } else {
                i += 1;
            }
        }
        if self.bird.position.y < 0 || self.bird.position.y > HEIGHT_SUB {
            dead = true;
        }
        proof {
            assert(dead == GameV::bird_dead(bird1, ps3));
        }
        if dead {
            self.game_state = GameState::Dead;
        }

        proof {
            assert(self@ == g0.step(gap));
            lemma_step_preserves_wf(g0, gap);
            assert(PipeV::gap_in_range(gap) && self@ == old(self)@.step(gap));
        }
    }
}

} // verus!

verus! {

/// The menu prompt.
pub open spec fn menu_text() -> Seq<char> {
    ("want to play? (y/n)")@
}

/// The death screen's score line, up to the digits.
pub open spec fn dead_text_prefix() -> Seq<char> {
    ("you got a score of ")@
}

/// The death screen's replay prompt.
pub open spec fn dead_text_replay() -> Seq<char> {
    ("play again? (y/n)")@
}

/// The byte at offset `j` after the menu screen is drawn over `old_frame`.
pub open spec fn menu_frame(old_frame: Seq<u8>, j: int) -> u8 {
    if crate::draw_utils::string_covers(
        old_frame.len() as int,
        menu_text(),
        crate::config::FONT_START_OFFSET as int,
        crate::config::FONT_START_OFFSET as int,
        j,
    ) {
        crate::draw_utils::ui_byte(j)
    } else {
        old_frame[j]
    }
}

/// Whether the death screen — the score line, the final score's digits, the
/// exclamation mark after them, and the replay prompt — covers byte `j`.
pub open spec fn dead_covers(len: int, score: int, j: int) -> bool {
    ||| crate::draw_utils::string_covers(
        len,
        dead_text_prefix(),
        crate::config::FONT_START_OFFSET as int,
        crate::config::FONT_START_OFFSET as int,
        j,
    )
    ||| crate::draw_utils::number_at_covers(
        len,
        score,
        crate::config::DEAD_SCORE_X as int,
        crate::config::FONT_START_OFFSET as int,
        j,
    )
    ||| crate::draw_utils::glyph_covers(
        len,
        crate::draw_utils::glyph_of('!'),
        crate::config::DEAD_SCORE_X as int + crate::draw_utils::num_digits(score)
            * (crate::config::FONT_ADVANCE as int),
        crate::config::FONT_START_OFFSET as int,
        j,
    )
    ||| crate::draw_utils::string_covers(
        len,
        dead_text_replay(),
        crate::config::FONT_START_OFFSET as int,
        crate::config::DEAD_REPLAY_Y as int,
        j,
    )
}

/// The byte at offset `j` after the death screen is drawn over `old_frame`;
/// everything on it is in the text colour.
pub open spec fn dead_frame(score: int, old_frame: Seq<u8>, j: int) -> u8 {
    if dead_covers(old_frame.len() as int, score, j) {
        crate::draw_utils::ui_byte(j)
    } else {
        old_frame[j]
    }
}

/// Whether pipe `k` of the queue covers byte `j` on screen.
pub open spec fn pipe_one_covers(len: int, pipes: Seq<PipeV>, k: int, j: int) -> bool {
    crate::pipe::pipe_covers(len, crate::pipe::pipe_px(pipes[k]), pipes[k].gap, j)
}

/// Whether one of the first `m` pipes of the queue covers byte `j`.
pub open spec fn pipes_cover_upto(len: int, pipes: Seq<PipeV>, m: int, j: int) -> bool {
    exists|k: int| 0 <= k < m && #[trigger] pipe_one_covers(len, pipes, k, j)
}

/// Whether some pipe of the queue covers byte `j`.
pub open spec fn pipes_cover(len: int, pipes: Seq<PipeV>, j: int) -> bool {
    pipes_cover_upto(len, pipes, pipes.len() as int, j)
}

/// The byte at offset `j` after the play screen is drawn over `old_frame`:
/// the bird first, then every pipe oldest first, then the score over
/// everything, so that later layers occlude earlier ones.
pub open spec fn playing_frame(g: GameV, old_frame: Seq<u8>, j: int) -> u8 {
    let len = old_frame.len() as int;
    if crate::draw_utils::number_covers(len, g.score, j) {
        crate::draw_utils::ui_byte(j)
    } else if pipes_cover(len, g.pipes, j) {
        crate::pipe::pipe_byte(j)
    } else if crate::draw_utils::rect_covers(
        len,
        crate::bird::bird_px(g.bird),
        crate::bird::bird_py(g.bird),
        crate::config::BIRD_WIDTH as int,
        crate::config::BIRD_HEIGHT as int,
        j,
    ) {
        crate::bird::bird_byte(j)
    } else {
        old_frame[j]
    }
}

impl Game {
    /// Draws the current screen into the frame: the menu prompt, the play
    /// field, or the death screen, by state.
    pub fn draw(&self, frame: &mut Vec<u8>)
        requires
            self.wf(),
        ensures
            final(frame)@.len() == old(frame)@.len(),
            self@.state == GameState::MainMenu ==> forall|j: int|
                0 <= j < final(frame)@.len() ==> final(frame)@[j] == menu_frame(old(frame)@, j),
            self@.state == GameState::Playing ==> forall|j: int|
                0 <= j < final(frame)@.len() ==> final(frame)@[j] == playing_frame(
                    self@,
                    old(frame)@,
                    j,
                ),
            self@.state == GameState::Dead ==> forall|j: int|
                0 <= j < final(frame)@.len() ==> final(frame)@[j] == dead_frame(
                    self@.score,
                    old(frame)@,
                    j,
                ),
    {
        match self.game_state {
            GameState::MainMenu => self.draw_main_menu(frame),
            GameState::Playing => self.draw_playing(frame),
            GameState::Dead => self.draw_dead(frame),
        }
    }

    /// The menu: a single prompt.
    fn draw_main_menu(&self, frame: &mut Vec<u8>)
        ensures
            final(frame)@.len() == old(frame)@.len(),
            forall|j: int|
                0 <= j < final(frame)@.len() ==> final(frame)@[j] == menu_frame(old(frame)@, j),
    {
        proof {
            reveal_strlit("want to play? (y/n)");
        }
        crate::draw_utils::draw_string(
            frame,
            "want to play? (y/n)",
            crate::config::FONT_START_OFFSET,
            crate::config::FONT_START_OFFSET,
        );
    }

    /// The play field: the bird, every pipe oldest first, and the score
    /// drawn last so that it shows over everything.
    fn draw_playing(&self, frame: &mut Vec<u8>)
        requires
            self.wf(),
            self@.state == GameState::Playing,
        ensures
            final(frame)@.len() == old(frame)@.len(),
            forall|j: int|
                0 <= j < final(frame)@.len() ==> final(frame)@[j] == playing_frame(
                    self@,
                    old(frame)@,
                    j,
                ),
    {
        let ghost len = frame@.len() as int;
        let ghost ps = self@.pipes;
        self.bird.draw(frame);
        let ghost after_bird = frame@;

        let n = self.pipes.len();
        let mut i: usize = 0;
        while i < n
            invariant
                n == self.pipes.len(),
                i <= n,
                self.wf(),
                ps == self@.pipes,
                ps.len() == n,
                frame@.len() == len,
                after_bird.len() == len,
                forall|j: int|
                    0 <= j < len ==> frame@[j] == (if pipes_cover_upto(len, ps, i as int, j) {
                        crate::pipe::pipe_byte(j)
                    } else {
                        after_bird[j]
                    }),
            decreases n - i,
        {
            let p = self.pipes[i];
            proof {
                assert(p@ == ps[i as int]);
            }
            p.draw(frame);
            proof {
                assert forall|j: int| 0 <= j < len implies frame@[j] == (if pipes_cover_upto(
                    len,
                    ps,
                    i as int + 1,
                    j,
                ) {
                    crate::pipe::pipe_byte(j)
                } else {
                    after_bird[j]
                }) by {
                    if crate::pipe::pipe_covers(len, crate::pipe::pipe_px(ps[i as int]),
                        ps[i as int].gap, j) {
                        assert(pipe_one_covers(len, ps, i as int, j));
                    } else {
                        assert(!pipe_one_covers(len, ps, i as int, j));
                        assert(forall|u: int|
                            0 <= u < i as int + 1 && #[trigger] pipe_one_covers(len, ps, u, j)
                                ==> u < i as int);
                    }
                }
            }
            i = i + 1;
        }

        self.score.draw(frame);
    }

    /// The death screen: the final score line and the replay prompt.
    fn draw_dead(&self, frame: &mut Vec<u8>)
        ensures
            final(frame)@.len() == old(frame)@.len(),
            forall|j: int|
                0 <= j < final(frame)@.len() ==> final(frame)@[j] == dead_frame(
                    self.score.score as int,
                    old(frame)@,
                    j,
                ),
    {
        proof {
            reveal_strlit("you got a score of ");
            reveal_strlit("play again? (y/n)");
        }
        crate::draw_utils::draw_string(
            frame,
            "you got a score of ",
            crate::config::FONT_START_OFFSET,
            crate::config::FONT_START_OFFSET,
        );
        crate::draw_utils::draw_number_at(
            frame,
            self.score.score,
            crate::config::DEAD_SCORE_X,
            crate::config::FONT_START_OFFSET,
        );
        let nd = crate::draw_utils::count_digits(self.score.score);
        proof {
            assert(nd as int * (crate::config::FONT_ADVANCE as int) <= 10 * (
            crate::config::FONT_ADVANCE as int)) by (nonlinear_arith)
                requires
                    nd <= 10,
            ;
        }
        crate::draw_utils::draw_char(
            frame,
            '!',
            crate::config::DEAD_SCORE_X + nd * crate::config::FONT_ADVANCE,
            crate::config::FONT_START_OFFSET,
        );
        crate::draw_utils::draw_string(
            frame,
            "play again? (y/n)",
            crate::config::FONT_START_OFFSET,
            crate::config::DEAD_REPLAY_Y,
        );
    }
}

} // verus!
