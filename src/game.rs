use vstd::prelude::*;
use crate::bird::{bird_step, Bird, JUMP_VELOCITY, START_POS};
use crate::chance::draw_in_range;
use crate::pillar::{
    hits, hole_in_range, pillar_step, Pillar, GAP_HALF_HEIGHT, HOLE_END, HOLE_MIN, SPEED,
};

verus! {

/// Horizontal position at which new obstacles appear, at the right edge.
pub const SPAWN_X: i64 = 5000;

/// A new obstacle is appended once the newest one is left of this position.
pub const SPAWN_TRIGGER: i64 = 3500;

/// The oldest obstacle is removed once it is left of this position.
pub const RETIRE_X: i64 = -500;

/// Reaching this vertical position (or 0) loses the game.
pub const FAIL_POS: i64 = 2500;

/// Least horizontal distance between two neighbouring obstacles.
pub const MIN_SPACING: i64 = 1500;

/// An input that the game reacts to when it is pressed.
#[derive(Clone, Copy, Debug, PartialEq, Eq, Structural)]
pub enum Button {
    /// Jump.
    Space,
    /// Start over.
    R,
    /// Any other button: ignored.
    Other,
}

/// The world: the player and the obstacles, oldest (leftmost) first.
pub struct Game {
    pub bird: Bird,
    pub pillar: Vec<Pillar>,
}

impl View for Game {
    type V = (Bird, Seq<Pillar>);

    open spec fn view(&self) -> (Bird, Seq<Pillar>) {
        (self.bird, self.pillar@)
    }
}

/// A new obstacle at the spawn position with its gap centred at `hole`.
pub open spec fn spawned_pillar(hole: int) -> Pillar {
    Pillar { pos: SPAWN_X, holepos: hole as i64, space: GAP_HALF_HEIGHT }
}

/// The state that a reset produces: the player at its start, at rest, and a
/// single fresh obstacle at the spawn position.
pub open spec fn reset_state(hole: int) -> (Bird, Seq<Pillar>) {
    (Bird { pos: START_POS, velocity: 0 }, seq![spawned_pillar(hole)])
}

/// What a reset does to any state `s`.
pub open spec fn reset(s: (Bird, Seq<Pillar>), hole: int) -> (Bird, Seq<Pillar>) {
    reset_state(hole)
}

/// Every obstacle after one tick of kinematics.
pub open spec fn moved(ps: Seq<Pillar>) -> Seq<Pillar> {
    ps.map_values(|p: Pillar| pillar_step(p))
}

/// The obstacles after the oldest is removed, if it is left of `RETIRE_X`.
pub open spec fn retired(ps: Seq<Pillar>) -> Seq<Pillar> {
    if ps.len() > 0 && ps[0].pos < RETIRE_X {
        ps.remove(0)
    } else {
        ps
    }
}

/// The obstacles after a new one is appended, if there is none or the newest
/// is left of `SPAWN_TRIGGER`.
pub open spec fn spawned(ps: Seq<Pillar>, hole: int) -> Seq<Pillar> {
    if ps.len() == 0 || ps.last().pos < SPAWN_TRIGGER {
        ps.push(spawned_pillar(hole))
    } else {
        ps
    }
}

/// Whether the player at vertical position `y` hits one of the obstacles.
pub open spec fn any_hit(ps: Seq<Pillar>, y: int) -> bool {
    exists|i: int| 0 <= i < ps.len() && hits(#[trigger] ps[i], y)
}

/// Whether the player at vertical position `y` has reached the top or the
/// bottom boundary.
pub open spec fn out_of_bounds(y: int) -> bool {
    y <= 0 || y >= FAIL_POS
}

/// The obstacles after one tick without a loss: moved, then the oldest
/// retired and a new one spawned as needed.
pub open spec fn advanced(ps: Seq<Pillar>, hole: int) -> Seq<Pillar> {
    spawned(retired(moved(ps)), hole)
}

/// The world after one tick, where `hole` is the gap centre of any obstacle
/// that the tick creates: the player and the obstacles move; if an obstacle
/// hits the player, or the player reaches a boundary, the world is reset;
/// otherwise obstacles are retired and spawned.
pub open spec fn next(s: (Bird, Seq<Pillar>), hole: int) -> (Bird, Seq<Pillar>) {
    let b = bird_step(s.0);
    let ps = moved(s.1);
    if any_hit(ps, b.pos as int) || out_of_bounds(b.pos as int) {
        reset_state(hole)
    } else {
        (b, spawned(retired(ps), hole))
    }
}

/// The states that the game can be in between ticks: the player is valid,
/// every obstacle is valid and lies between the retirement and the spawn
/// positions, and neighbouring obstacles are more than `MIN_SPACING` apart.
pub open spec fn state_wf(s: (Bird, Seq<Pillar>)) -> bool {
    &&& s.0.wf()
    &&& forall|i: int| 0 <= i < s.1.len() ==> pillar_wf(#[trigger] s.1[i])
    &&& forall|i: int| 0 <= i < s.1.len() - 1 ==> #[trigger] s.1[i].pos + MIN_SPACING < s.1[i + 1].pos
}

/// A valid obstacle between the retirement and the spawn positions.
pub open spec fn pillar_wf(p: Pillar) -> bool {
    p.wf() && RETIRE_X <= p.pos <= SPAWN_X
}

impl Game {
    /// The game is in a state that ticks keep valid (see `state_wf`).
    pub open spec fn wf(&self) -> bool {
        state_wf(self@)
    }

    /// A fresh game: the player at its start, at rest, and no obstacle yet.
    pub fn new() -> (r: Game)
        ensures
            r@.0 == (Bird { pos: START_POS, velocity: 0 }),
            r@.1.len() == 0,
            r.wf(),
    {
        Game { bird: Bird::new(), pillar: Vec::new() }
    }

    /// Resets the world, with `hole` as the gap centre of the new obstacle.
    pub fn reset_with(&mut self, hole: i64)
        requires
            hole_in_range(hole as int),
        ensures
            final(self)@ == reset(old(self)@, hole as int),
            final(self).wf(),
    {
        let mut v: Vec<Pillar> = Vec::new();
        v.push(Pillar::with_hole(SPAWN_X, hole));
        self.pillar = v;
        self.bird = Bird::new();
        proof {
            assert(self.pillar@ =~= seq![spawned_pillar(hole as int)]);
        }
    }

    /// Resets the world, with a new obstacle whose gap centre is random.
    pub fn reset(&mut self)
        ensures
            exists|h: int| hole_in_range(h) && final(self)@ == reset(old(self)@, h),
            final(self).wf(),
    {
        let hole = draw_in_range(HOLE_MIN, HOLE_END);
        self.reset_with(hole);
        proof {
            assert(hole_in_range(hole as int) && self@ == reset(old(self)@, hole as int));
        }
    }

    /// Moves every obstacle left by one tick.
    fn move_pillars(&mut self)
        requires
            forall|j: int| 0 <= j < old(self).pillar@.len() ==> pillar_wf(#[trigger] old(self).pillar@[j]),
        ensures
            final(self).bird == old(self).bird,
            final(self).pillar@ == moved(old(self).pillar@),
    {
        let ghost ps = self.pillar@;
        let ghost b = self.bird;
        let n = self.pillar.len();
        let mut i: usize = 0;
        while i < n
            invariant
                forall|j: int| 0 <= j < ps.len() ==> pillar_wf(#[trigger] ps[j]),
                self.bird == b,
                n == ps.len(),
                i <= n,
                self.pillar@.len() == n,
                forall|j: int| 0 <= j < i ==> self.pillar@[j] == pillar_step(#[trigger] ps[j]),
                forall|j: int| i <= j < n ==> self.pillar@[j] == #[trigger] ps[j],
            decreases n - i,
        {
            let mut p = self.pillar[i];
            assert(pillar_wf(ps[i as int]));
            p.update();
            self.pillar.set(i, p);
            i = i + 1;
        }
        assert(self.pillar@ =~= moved(ps));
    }

    /// Whether an obstacle hits the player where it stands.
    fn any_hit(&self) -> (r: bool)
        requires
            forall|j: int| 0 <= j < self.pillar@.len() ==> (#[trigger] self.pillar@[j]).wf(),
        ensures
            r == any_hit(self.pillar@, self.bird.pos as int),
    {
        let y = self.bird.pos;
        let mut hit = false;
        let mut i: usize = 0;
        while i < self.pillar.len()
            invariant
                i <= self.pillar@.len(),
                forall|j: int| 0 <= j < self.pillar@.len() ==> (#[trigger] self.pillar@[j]).wf(),
                hit == exists|j: int| 0 <= j < i && hits(#[trigger] self.pillar@[j], y as int),
            decreases self.pillar@.len() - i,
        {
            if self.pillar[i].hits(y) {
                hit = true;
            }
            i = i + 1;
        }
        hit
    }

    /// Removes the oldest obstacle if it is left of `RETIRE_X`.
    pub fn retire_first(&mut self)
        ensures
            final(self).bird == old(self).bird,
            final(self).pillar@ == retired(old(self).pillar@),
    {
        if self.pillar.len() > 0 && self.pillar[0].pos < RETIRE_X {
            self.pillar.remove(0);
        }
    }

    /// Appends an obstacle at `SPAWN_X`, with `hole` as its gap centre, if
    /// there is none or the newest is left of `SPAWN_TRIGGER`.
    pub fn spawn_with(&mut self, hole: i64)
        requires
            hole_in_range(hole as int),
        ensures
            final(self).bird == old(self).bird,
            final(self).pillar@ == spawned(old(self).pillar@, hole as int),
    {
        let n = self.pillar.len();
        if n == 0 || self.pillar[n - 1].pos < SPAWN_TRIGGER {
            self.pillar.push(Pillar::with_hole(SPAWN_X, hole));
        }
    }

    /// Advances the world by one tick, with `hole` as the gap centre of any
    /// obstacle that the tick creates.
    pub fn update_with(&mut self, hole: i64)
        requires
            old(self).wf(),
            hole_in_range(hole as int),
        ensures
            final(self)@ == next(old(self)@, hole as int),
            final(self).wf(),
    {
        let ghost s = self@;
        self.bird.update();
        assert(self.pillar@ == s.1);
        assert forall|j: int| 0 <= j < self.pillar@.len() implies pillar_wf(#[trigger] self.pillar@[j]) by {
            assert(pillar_wf(s.1[j]));
        }
        self.move_pillars();
        proof {
            assert forall|j: int| 0 <= j < self.pillar@.len() implies (#[trigger] self.pillar@[j]).wf() by {
                assert(pillar_wf(s.1[j]));
            }
        }
        let failed = self.any_hit() || self.bird.pos <= 0 || self.bird.pos >= FAIL_POS;
        if failed {
            self.reset_with(hole);
        } else {
            self.retire_first();
            self.spawn_with(hole);
        }
        proof {
            lemma_next_wf(s, hole as int);
        }
    }

    /// Advances the world by one tick; an obstacle that the tick creates gets
    /// a random gap centre.
    pub fn update(&mut self)
        requires
            old(self).wf(),
        ensures
            exists|h: int| hole_in_range(h) && final(self)@ == next(old(self)@, h),
            final(self).wf(),
    {
        let hole = draw_in_range(HOLE_MIN, HOLE_END);
        self.update_with(hole);
        proof {
            assert(hole_in_range(hole as int) && self@ == next(old(self)@, hole as int));
        }
    }

    /// Handles a pressed button: `Space` makes the player jump, `R` resets the
    /// world with `hole` as the gap centre of the new obstacle, and any other
    /// button changes nothing.
    pub fn pressed_with(&mut self, btn: &Button, hole: i64)
        requires
            hole_in_range(hole as int),
        ensures
            final(self)@ == pressed(old(self)@, *btn, hole as int),
            old(self).wf() ==> final(self).wf(),
    {
        match btn {
            Button::Space => {
                self.bird.jump();
                assert(self@.1 == old(self)@.1);
                assert(old(self).wf() ==> self.bird.wf());
            },
            Button::R => self.reset_with(hole),
            Button::Other => {},
        }
    }

    /// Handles a pressed button; a reset gives the new obstacle a random gap
    /// centre.
    pub fn pressed(&mut self, btn: &Button)
        ensures
            exists|h: int| hole_in_range(h) && final(self)@ == pressed(old(self)@, *btn, h),
            old(self).wf() ==> final(self).wf(),
    {
        let hole = draw_in_range(HOLE_MIN, HOLE_END);
        self.pressed_with(btn, hole);
        proof {
            assert(hole_in_range(hole as int) && self@ == pressed(old(self)@, *btn, hole as int));
        }
    }
}

/// The state after `btn` is pressed in state `s`; `hole` is the gap centre of
/// the obstacle that a reset creates.
pub open spec fn pressed(s: (Bird, Seq<Pillar>), btn: Button, hole: int) -> (Bird, Seq<Pillar>) {
    match btn {
        Button::Space => (Bird { velocity: JUMP_VELOCITY, ..s.0 }, s.1),
        Button::R => reset(s, hole),
        Button::Other => s,
    }
}

/// The player's kinematics keep it valid.
pub proof fn lemma_bird_step_wf(b: Bird)
    requires
        b.wf(),
    ensures
        bird_step(b).wf(),
{
}

/// A tick takes a valid state to a valid state.
pub proof fn lemma_next_wf(s: (Bird, Seq<Pillar>), hole: int)
    requires
        state_wf(s),
        hole_in_range(hole),
    ensures
        state_wf(next(s, hole)),
{
    let b = bird_step(s.0);
    let ps = moved(s.1);
    lemma_bird_step_wf(s.0);
    if any_hit(ps, b.pos as int) || out_of_bounds(b.pos as int) {
        assert(state_wf(reset_state(hole)));
    } else {
        assert forall|i: int| 0 <= i < ps.len() implies
            (#[trigger] ps[i]).wf() && RETIRE_X - SPEED <= ps[i].pos <= SPAWN_X - SPEED by {
            assert(pillar_wf(s.1[i]));
        }
        assert forall|i: int| 0 <= i < ps.len() - 1 implies
            #[trigger] ps[i].pos + MIN_SPACING < ps[i + 1].pos by {
            assert(s.1[i].pos + MIN_SPACING < s.1[i + 1].pos);
        }
        let r = retired(ps);
        assert forall|i: int| 0 <= i < r.len() implies pillar_wf(#[trigger] r[i]) by {
            if r.len() < ps.len() {
                assert(r[i] == ps[i + 1]);
                assert(ps[i].pos + MIN_SPACING < ps[i + 1].pos);
            } else if i > 0 {
                assert(ps[i - 1].pos + MIN_SPACING < ps[i - 1 + 1].pos);
            }
        }
        assert forall|i: int| 0 <= i < r.len() - 1 implies
            #[trigger] r[i].pos + MIN_SPACING < r[i + 1].pos by {
            if r.len() < ps.len() {
                assert(r[i] == ps[i + 1]);
                assert(r[i + 1] == ps[i + 1 + 1]);
            }
        }
        let t = spawned(r, hole);
        assert forall|i: int| 0 <= i < t.len() implies pillar_wf(#[trigger] t[i]) by {
            if i < r.len() {
                assert(t[i] == r[i]);
            }
        }
        assert forall|i: int| 0 <= i < t.len() - 1 implies
            #[trigger] t[i].pos + MIN_SPACING < t[i + 1].pos by {
            assert(t[i] == r[i]);
            if i + 1 < r.len() {
                assert(t[i + 1] == r[i + 1]);
            }
        }
    }
}

} // verus!
