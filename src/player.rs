//! The player's body: position and vertical velocity under gravity.
use vstd::prelude::*;

verus! {

/// Velocity gained on each physics step, in tenths of a cell per tick.
pub const GRAVITY_STEP: i32 = 1;

/// Largest downward velocity, in tenths of a cell per tick.
pub const MAX_FALL_SPEED: i32 = 20;

/// Velocity set by a flap, in tenths of a cell per tick (upward).
pub const FLAP_SPEED: i32 = -20;

/// Horizontal nudge of a dash, in cells.
pub const DASH_OFFSET: i32 = 6;

/// Horizontal distance covered on each physics step, in cells.
pub const FORWARD_STEP: i32 = 1;

/// Starting column of a new player.
pub const START_X: i32 = 5;

/// Starting row of a new player.
pub const START_Y: i32 = 25;

/// One discrete input of the player.
#[derive(Clone, Copy, Debug, PartialEq, Eq, Structural)]
pub enum Key {
    Flap,
    Left,
    Right,
    Play,
    Quit,
}

/// Position in cells (y grows downward) and vertical velocity in tenths of a
/// cell per tick.
#[derive(Clone, Copy, Debug, PartialEq, Eq, Structural)]
pub struct Player {
    pub x: i32,
    pub y: i32,
    pub v: i32,
}

/// The whole cells of a velocity given in tenths, truncated toward zero.
pub open spec fn whole_cells(v: int) -> int {
    if v >= 0 {
        v / 10
    } else {
        -((-v) / 10)
    }
}

impl Player {
    /// The velocity after one physics step: gravity adds a step until the
    /// cap is reached.
    pub open spec fn next_v(self) -> int {
        if self.v < MAX_FALL_SPEED {
            self.v + GRAVITY_STEP
        } else {
            self.v as int
        }
    }

    /// One physics step fits in the integer type of the position.
    pub open spec fn can_advance(self) -> bool {
        &&& self.x < i32::MAX
        &&& i32::MIN <= self.y + whole_cells(self.next_v()) <= i32::MAX
    }

    /// The player after one physics step: the new velocity moves y by its
    /// whole cells, x moves one step forward, y stays at least 0.
    pub open spec fn advanced(self) -> Player {
        let y = self.y + whole_cells(self.next_v());
        Player {
            x: (self.x + FORWARD_STEP) as i32,
            y: if y < 0 { 0 } else { y as i32 },
            v: self.next_v() as i32,
        }
    }

    /// The horizontal offset that a key gives as a dash.
    pub open spec fn dash_offset(key: Key) -> int {
        match key {
            Key::Left => -DASH_OFFSET,
            Key::Right => DASH_OFFSET as int,
            _ => 0,
        }
    }

    /// A dash by this key fits in the integer type of the position.
    pub open spec fn can_dash(self, key: Key) -> bool {
        i32::MIN <= self.x + Self::dash_offset(key) <= i32::MAX
    }

    /// The player at the given place and velocity.
    pub fn new(x: i32, y: i32, v: i32) -> (p: Player)
        ensures
            p == (Player { x, y, v }),
    {
        Player { x, y, v }
    }

    /// The player at the start of a game: at rest at the starting place.
    pub open spec fn start() -> Player {
        Player { x: START_X, y: START_Y, v: 0 }
    }

    /// Velocity in whole cells, truncated toward zero.
    pub fn whole_velocity(&self) -> (r: i32)
        ensures
            r == whole_cells(self.v as int),
    {
        if self.v >= 0 {
            self.v / 10
        } else {
            let pos: i64 = -(self.v as i64);
            -((pos / 10) as i32)
        }
    }

    /// One physics step: gravity, forward motion, and the top boundary.
    pub fn gravity_and_move(&mut self)
        requires
            old(self).can_advance(),
        ensures
            *final(self) == old(self).advanced(),
    {
        if self.v < MAX_FALL_SPEED {
            self.v = self.v + GRAVITY_STEP;
        }
        let dy = self.whole_velocity();
        self.y = self.y + dy;
        self.x = self.x + FORWARD_STEP;
        if self.y < 0 {
            self.y = 0;
        }
    }

    /// Sets the velocity to the flap velocity, whatever it was.
    pub fn flap(&mut self)
        ensures
            *final(self) == (Player { x: old(self).x, y: old(self).y, v: FLAP_SPEED }),
    {
        self.v = FLAP_SPEED;
    }

    /// Nudges x left or right for the dash keys; other keys change nothing.
    pub fn dash(&mut self, key: Key)
        requires
            old(self).can_dash(key),
        ensures
            *final(self) == (Player {
                x: (old(self).x + Self::dash_offset(key)) as i32,
                y: old(self).y,
                v: old(self).v,
            }),
    {
        match key {
            Key::Left => self.x = self.x - DASH_OFFSET,
            Key::Right => self.x = self.x + DASH_OFFSET,
            _ => {},
        }
    }
}

} // verus!
