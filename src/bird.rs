use vstd::prelude::*;

verus! {

/// Vertical position at which the player starts, and to which it returns on a reset.
pub const START_POS: i64 = 1400;

/// Velocity given by a jump (negative: upwards).
pub const JUMP_VELOCITY: i64 = -80;

/// Added to the velocity each tick while it is below `VELOCITY_CAP`.
pub const GRAVITY: i64 = 13;

/// Gravity stops accelerating the player once its velocity reaches this value.
pub const VELOCITY_CAP: i64 = 100;

/// Largest velocity the player can reach.
pub const MAX_VELOCITY: i64 = 112;

/// Lowest vertical position (the bottom of the screen); 0 is the top.
pub const MAX_POS: i64 = 2800;

/// Horizontal position of the player's left edge.
pub const BIRD_X: i64 = 500;

/// Side length of the player's square.
pub const BIRD_SIZE: i64 = 200;

/// The player: its vertical position (0 at the top, growing downwards) and
/// its vertical velocity per tick.
#[derive(Clone, Copy, Debug, PartialEq, Eq, Structural)]
pub struct Bird {
    pub pos: i64,
    pub velocity: i64,
}

/// An axis-aligned square: its top-left corner and its side length.
#[derive(Clone, Copy, Debug, PartialEq, Eq, Structural)]
pub struct Square {
    pub x: i64,
    pub y: i64,
    pub side: i64,
}

/// The player after one tick of kinematics: it moves by its velocity, gravity
/// accelerates it up to the cap, and it is clamped to the screen with its
/// velocity zeroed when it hits an edge.
pub open spec fn bird_step(b: Bird) -> Bird {
    let pos = b.pos + b.velocity;
    let velocity = if b.velocity < VELOCITY_CAP { b.velocity + GRAVITY } else { b.velocity as int };
    if pos > MAX_POS {
        Bird { pos: MAX_POS, velocity: 0 }
    } else if pos < 0 {
        Bird { pos: 0, velocity: 0 }
    } else {
        Bird { pos: pos as i64, velocity: velocity as i64 }
    }
}

impl Bird {
    /// The player is on the screen and its velocity lies between that of a
    /// jump and the largest one that gravity produces.
    pub open spec fn wf(&self) -> bool {
        &&& 0 <= self.pos <= MAX_POS
        &&& JUMP_VELOCITY <= self.velocity <= MAX_VELOCITY
    }

    /// The player at its starting position, at rest.
    pub fn new() -> (r: Bird)
        ensures
            r == (Bird { pos: START_POS, velocity: 0 }),
            r.wf(),
    {
        Bird { pos: START_POS, velocity: 0 }
    }

    /// Advances the player by one tick.
    pub fn update(&mut self)
        requires
            old(self).wf(),
        ensures
            *final(self) == bird_step(*old(self)),
            final(self).wf(),
    {
        self.pos = self.pos + self.velocity;
        if self.velocity < VELOCITY_CAP {
            self.velocity = self.velocity + GRAVITY;
        }
        if self.pos > MAX_POS {
            self.pos = MAX_POS;
            self.velocity = 0;
        }
        if self.pos < 0 {
            self.pos = 0;
            self.velocity = 0;
        }
    }

    /// Gives the player the upward velocity of a jump, whatever it had.
    pub fn jump(&mut self)
        ensures
            final(self).pos == old(self).pos,
            final(self).velocity == JUMP_VELOCITY,
    {
        self.velocity = JUMP_VELOCITY;
    }

    /// The square that the player occupies on the screen.
    pub fn square(&self) -> (r: Square)
        ensures
            r == (Square { x: BIRD_X, y: self.pos, side: BIRD_SIZE }),
    {
        Square { x: BIRD_X, y: self.pos, side: BIRD_SIZE }
    }
}

} // verus!
