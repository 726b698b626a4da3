//! The entities of the playfield and their physical constants.
use vstd::prelude::*;

verus! {

/// Width of the playfield.
pub const FIELD_WIDTH: i64 = 600_000;
/// Height of the playfield; `y` grows upwards, the bottom edge is `y == 0`.
pub const FIELD_HEIGHT: i64 = 800_000;

/// Height of the centre line of the bat.
pub const BAT_Y: i64 = 15_000;
pub const BAT_WIDTH: i64 = 80_000;
pub const BAT_HEIGHT: i64 = 8_000;
/// Acceleration given by a held arrow key.
pub const BAT_ACCEL: i64 = 900_000;
/// Per-step damping of the bat's speed, as the ratio `NUM / DEN`.
pub const BAT_BRAKING_NUM: i64 = 98;
pub const BAT_BRAKING_DEN: i64 = 100;
pub const BAT_MAX_SPEED: i64 = 1_700_000;

pub const BALL_RADIUS: i64 = 10_000;
/// Share of the bat's speed handed to the ball on a bounce, as `NUM / DEN`.
pub const BALL_BRAKING_NUM: i64 = 1;
pub const BALL_BRAKING_DEN: i64 = 2;
/// Speed-up of the ball on every bat bounce, as `NUM / DEN`.
pub const BALL_ACCEL_NUM: i64 = 101;
pub const BALL_ACCEL_DEN: i64 = 100;
/// Radius used by the bat contact test, slightly below the real radius.
pub const BALL_CONTACT_RADIUS: i64 = 9_500;
/// Launch velocity; the sign of `vx` follows the key that starts the game.
pub const BALL_DEF_VX: i64 = 30_000;
pub const BALL_DEF_VY: i64 = 300_000;
/// Ceiling on each velocity component of the ball, far above any playable
/// speed, which keeps every product of the simulation inside 128 bits.
pub const BALL_MAX_SPEED: i64 = 1_000_000_000;

pub const BLOCK_WIDTH: i64 = 40_000;
pub const BLOCK_HEIGHT: i64 = 20_000;

/// Bound on the magnitude of every coordinate the simulation is given.
pub const POS_LIMIT: i64 = 10_000_000_000_000;

/// Bound on the ball's coordinates while the game is running: the field
/// widened by more than one step's largest displacement.
pub const DRIFT_LIMIT: i64 = 5_000_000_000_000;

/// Bound on the distance covered in one step at the ball's speed ceiling.
pub const MAX_STEP: i64 = 4_295_000_000_000;

/// Microseconds in a second.
pub const MICROS: i64 = 1_000_000;

/// The player's paddle: the centre `x` and the velocity `v`.
#[derive(Clone, Copy, Debug, PartialEq, Eq, Structural)]
pub struct Bat {
    pub x: i64,
    pub v: i64,
}

/// The ball: centre `(x, y)` and velocity `(vx, vy)`.
#[derive(Clone, Copy, Debug, PartialEq, Eq, Structural)]
pub struct Ball {
    pub x: i64,
    pub y: i64,
    pub vx: i64,
    pub vy: i64,
}

/// A destructible block, given by its centre.
#[derive(Clone, Copy, Debug, PartialEq, Eq, Structural)]
pub struct Block {
    pub x: i64,
    pub y: i64,
}

pub open spec fn in_pos_range(c: int) -> bool {
    -POS_LIMIT <= c <= POS_LIMIT
}

pub open spec fn in_speed_range(c: int) -> bool {
    -BALL_MAX_SPEED <= c <= BALL_MAX_SPEED
}

impl Bat {
    /// The bat lies inside the field and does not exceed its top speed.
    pub open spec fn wf(self) -> bool {
        &&& BAT_WIDTH / 2 <= self.x <= FIELD_WIDTH - BAT_WIDTH / 2
        &&& -BAT_MAX_SPEED <= self.v <= BAT_MAX_SPEED
    }
}

impl Ball {
    /// The ball's values are within the range the simulation handles.
    pub open spec fn wf(self) -> bool {
        &&& in_pos_range(self.x as int)
        &&& in_pos_range(self.y as int)
        &&& in_speed_range(self.vx as int)
        &&& in_speed_range(self.vy as int)
    }
}

impl Ball {
    /// The ball is within one step's reach of the field.
    pub open spec fn in_reach(self) -> bool {
        &&& -DRIFT_LIMIT <= self.x <= DRIFT_LIMIT
        &&& -DRIFT_LIMIT <= self.y <= DRIFT_LIMIT
    }
}

impl Block {
    /// A block's centre lies inside the field.
    pub open spec fn wf(self) -> bool {
        &&& 0 <= self.x <= FIELD_WIDTH
        &&& 0 <= self.y <= FIELD_HEIGHT
    }

    pub open spec fn left(self) -> int {
        self.x - BLOCK_WIDTH / 2
    }

    pub open spec fn right(self) -> int {
        self.x + BLOCK_WIDTH / 2
    }

    pub open spec fn bottom(self) -> int {
        self.y - BLOCK_HEIGHT / 2
    }

    pub open spec fn top(self) -> int {
        self.y + BLOCK_HEIGHT / 2
    }
}

} // verus!
