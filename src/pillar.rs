use vstd::prelude::*;
use crate::bird::{BIRD_SIZE, BIRD_X};
use crate::chance::draw_in_range;

verus! {

/// Horizontal distance an obstacle moves left each tick.
pub const SPEED: i64 = 30;

/// Half the height of an obstacle's gap.
pub const GAP_HALF_HEIGHT: i64 = 420;

/// Smallest gap centre an obstacle can have.
pub const HOLE_MIN: i64 = 900;

/// Gap centres lie strictly below this value.
pub const HOLE_END: i64 = 2100;

/// Width of an obstacle.
pub const PILLAR_WIDTH: i64 = 300;

/// Height of the screen, where the lower part of an obstacle ends.
pub const SCREEN_HEIGHT: i64 = 3000;

/// An obstacle: its horizontal position (left edge), the centre of its gap,
/// and the half-height of the gap.
#[derive(Clone, Copy, Debug, PartialEq, Eq, Structural)]
pub struct Pillar {
    pub pos: i64,
    pub holepos: i64,
    pub space: i64,
}

/// An axis-aligned rectangle given by two opposite corners.
#[derive(Clone, Copy, Debug, PartialEq, Eq, Structural)]
pub struct Corners {
    pub x0: i64,
    pub y0: i64,
    pub x1: i64,
    pub y1: i64,
}

/// A valid gap centre.
pub open spec fn hole_in_range(h: int) -> bool {
    HOLE_MIN <= h < HOLE_END
}

/// The obstacle after one tick: it has moved left by `SPEED`.
pub open spec fn pillar_step(p: Pillar) -> Pillar {
    Pillar { pos: (p.pos - SPEED) as i64, ..p }
}

/// Whether an obstacle at horizontal position `x` overlaps the player's
/// column: its band `[x, x + PILLAR_WIDTH]` meets the player's band
/// `[BIRD_X, BIRD_X + BIRD_SIZE]`, both ends open.
pub open spec fn in_column(x: int) -> bool {
    x < BIRD_X + BIRD_SIZE && x + PILLAR_WIDTH > BIRD_X
}

/// Whether the player, at vertical position `y`, lies strictly inside the
/// obstacle's gap.
pub open spec fn in_gap(p: Pillar, y: int) -> bool {
    p.holepos - p.space < y < p.holepos + p.space
}

/// Whether the obstacle hits a player at vertical position `y`: it is in the
/// player's column and the player is not inside its gap.
pub open spec fn hits(p: Pillar, y: int) -> bool {
    in_column(p.pos as int) && !in_gap(p, y)
}

impl Pillar {
    /// The gap centre lies in its range and the gap has its fixed half-height.
    pub open spec fn wf(&self) -> bool {
        hole_in_range(self.holepos as int) && self.space == GAP_HALF_HEIGHT
    }

    /// An obstacle at horizontal position `xpos` with its gap centred at `holepos`.
    pub fn with_hole(xpos: i64, holepos: i64) -> (r: Pillar)
        requires
            hole_in_range(holepos as int),
        ensures
            r == (Pillar { pos: xpos, holepos, space: GAP_HALF_HEIGHT }),
            r.wf(),
    {
        Pillar { pos: xpos, holepos, space: GAP_HALF_HEIGHT }
    }

    /// An obstacle at horizontal position `xpos` whose gap centre is drawn at
    /// random from `[HOLE_MIN, HOLE_END)`.
    pub fn new(xpos: i64) -> (r: Pillar)
        ensures
            r.pos == xpos,
            r.space == GAP_HALF_HEIGHT,
            r.wf(),
    {
        let holepos = draw_in_range(HOLE_MIN, HOLE_END);
        Pillar::with_hole(xpos, holepos)
    }

    /// Moves the obstacle left by one tick.
    pub fn update(&mut self)
        requires
            old(self).pos >= i64::MIN + SPEED,
        ensures
            *final(self) == pillar_step(*old(self)),
    {
        self.pos = self.pos - SPEED;
    }

    /// Whether this obstacle overlaps the player's column.
    pub fn in_column(&self) -> (r: bool)
        ensures
            r == in_column(self.pos as int),
    {
        self.pos < BIRD_X + BIRD_SIZE && self.pos > BIRD_X - PILLAR_WIDTH
    }

    /// Whether this obstacle hits a player at vertical position `y`.
    pub fn hits(&self, y: i64) -> (r: bool)
        requires
            self.wf(),
        ensures
            r == hits(*self, y as int),
    {
        self.in_column() && !(y > self.holepos - self.space && y < self.holepos + self.space)
    }

    /// The upper part of the obstacle, from the top of the screen to its gap.
    pub fn upper_corners(&self) -> (r: Corners)
        requires
            self.wf(),
            self.pos <= i64::MAX - PILLAR_WIDTH,
        ensures
            r == (Corners {
                x0: self.pos,
                y0: 0,
                x1: (self.pos + PILLAR_WIDTH) as i64,
                y1: (self.holepos - self.space) as i64,
            }),
    {
        Corners { x0: self.pos, y0: 0, x1: self.pos + PILLAR_WIDTH, y1: self.holepos - self.space }
    }

    /// The lower part of the obstacle, from its gap to the bottom of the screen.
    pub fn lower_corners(&self) -> (r: Corners)
        requires
            self.wf(),
            self.pos <= i64::MAX - PILLAR_WIDTH,
        ensures
            r == (Corners {
                x0: self.pos,
                y0: (self.holepos + self.space) as i64,
                x1: (self.pos + PILLAR_WIDTH) as i64,
                y1: SCREEN_HEIGHT,
            }),
    {
        Corners {
            x0: self.pos,
            y0: self.holepos + self.space,
            x1: self.pos + PILLAR_WIDTH,
            y1: SCREEN_HEIGHT,
        }
    }
}

} // verus!
