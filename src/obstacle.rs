//! A vertical barrier with a gap, and its collision test against the player.
use vstd::prelude::*;
use bracket_lib::prelude::RandomNumberGenerator;
use crate::SCREEN_WIDTH;
use crate::player::Player;
use crate::random::draw_in;

verus! {

/// Lowest row (inclusive) that a gap center is drawn from.
pub const GAP_Y_MIN: i32 = 10;

/// Row (exclusive) above which no gap center is drawn.
pub const GAP_Y_MAX: i32 = 40;

/// Smallest gap height.
pub const MIN_GAP_SIZE: i32 = 2;

/// Gap height at score 0.
pub const BASE_GAP_SIZE: i32 = 20;

/// Points of score that narrow the gap by one cell.
pub const SCORE_PER_SHRINK: u32 = 5;

/// Screen column (exclusive) left of which an obstacle is out of view.
pub const VIEW_LEFT: i32 = -5;

/// Columns on either side of an obstacle where it can still be hit.
pub const X_TOLERANCE: i32 = 1;

/// The gap height of an obstacle made at this score: shrinks by one every
/// few points, floored at the minimum.
pub open spec fn gap_size(score: nat) -> int {
    let s = BASE_GAP_SIZE - score / (SCORE_PER_SHRINK as nat);
    if s < MIN_GAP_SIZE {
        MIN_GAP_SIZE as int
    } else {
        s
    }
}

/// A barrier at world column `x` with a gap of height `size` centered on row
/// `gap_y`; `passed` records that the player has gone beyond it.
#[derive(Clone, Copy, Debug, PartialEq, Eq, Structural)]
pub struct Obstacle {
    pub x: i32,
    pub gap_y: i32,
    pub size: i32,
    pub passed: bool,
}

impl Obstacle {
    /// The gap center lies in its drawing range and the height is between
    /// the minimum and the height at score 0.
    pub open spec fn wf(self) -> bool {
        &&& GAP_Y_MIN <= self.gap_y < GAP_Y_MAX
        &&& MIN_GAP_SIZE <= self.size <= BASE_GAP_SIZE
    }

    /// Top row of the gap.
    pub open spec fn gap_top(self) -> int {
        self.gap_y - self.size / 2
    }

    /// Bottom row of the gap.
    pub open spec fn gap_bottom(self) -> int {
        self.gap_y + self.size / 2
    }

    /// The player is within the column window of the obstacle.
    pub open spec fn in_x_window(self, p: Player) -> bool {
        self.x - X_TOLERANCE <= p.x <= self.x + X_TOLERANCE
    }

    /// The player is within the column window and outside the gap's rows.
    pub open spec fn collides(self, p: Player) -> bool {
        &&& self.in_x_window(p)
        &&& (p.y < self.gap_top() || p.y > self.gap_bottom())
    }

    /// Row y shows the barrier: above the gap's top or from its bottom on.
    pub open spec fn wall_at(self, y: int) -> bool {
        y < self.gap_top() || y >= self.gap_bottom()
    }

    /// The gap height for a score.
    pub fn size_for_score(score: u32) -> (r: i32)
        ensures
            r == gap_size(score as nat),
    {
        let shrink = score / SCORE_PER_SHRINK;
        if shrink >= (BASE_GAP_SIZE - MIN_GAP_SIZE) as u32 {
            MIN_GAP_SIZE
        } else {
            BASE_GAP_SIZE - shrink as i32
        }
    }

    /// An obstacle at column x with its gap centered on `gap_y` and the
    /// height that the score gives; not yet passed.
    pub fn with_gap(x: i32, gap_y: i32, score: u32) -> (r: Obstacle)
        requires
            GAP_Y_MIN <= gap_y < GAP_Y_MAX,
        ensures
            r == (Obstacle { x, gap_y, size: gap_size(score as nat) as i32, passed: false }),
            r.wf(),
    {
        proof {
            lemma_gap_size_bounds(score as nat);
        }
        Obstacle { x, gap_y, size: Self::size_for_score(score), passed: false }
    }

    /// An obstacle at column x for the score, with its gap center drawn from
    /// the random source.
    pub fn new(x: i32, score: u32, rng: &mut RandomNumberGenerator) -> (r: Obstacle)
        ensures
            r.x == x,
            GAP_Y_MIN <= r.gap_y < GAP_Y_MAX,
            r.size == gap_size(score as nat),
            !r.passed,
            r.wf(),
    {
        let gap_y = draw_in(rng, GAP_Y_MIN, GAP_Y_MAX);
        Self::with_gap(x, gap_y, score)
    }

    /// Whether the player hits this obstacle.
    pub fn hit_obstacle(&self, player: &Player) -> (r: bool)
        requires
            self.wf(),
        ensures
            r == self.collides(*player),
    {
        let half = self.size / 2;
        let px = player.x as i64;
        let ox = self.x as i64;
        let in_x_range = px >= ox - X_TOLERANCE as i64 && px <= ox + X_TOLERANCE as i64;
        let is_above = player.y < self.gap_y - half;
        let is_below = player.y > self.gap_y + half;
        in_x_range && (is_above || is_below)
    }

    /// The column on screen of this obstacle for a player at `player_x`,
    /// when it is in view: from a few columns left of the player to the
    /// right edge of the screen, both exclusive.
    pub fn screen_x(&self, player_x: i32) -> (r: Option<i32>)
        ensures
            r == if VIEW_LEFT < self.x - player_x < SCREEN_WIDTH {
                Some((self.x - player_x) as i32)
            } else {
                None::<i32>
            },
    {
        let d = self.x as i64 - player_x as i64;
        if VIEW_LEFT as i64 <= d && d < SCREEN_WIDTH as i64 && d != VIEW_LEFT as i64 {
            Some(d as i32)
        } else {
            None
        }
    }

    /// Whether row y shows the barrier when the obstacle is drawn.
    pub fn is_wall_at(&self, y: i32) -> (r: bool)
        requires
            self.wf(),
        ensures
            r == self.wall_at(y as int),
    {
        let half = self.size / 2;
        y < self.gap_y - half || y >= self.gap_y + half
    }
}

/// The gap height is at least the minimum and at most the height at score 0.
pub proof fn lemma_gap_size_bounds(score: nat)
    ensures
        MIN_GAP_SIZE <= gap_size(score) <= BASE_GAP_SIZE,
{
}

/// The gap height is at least the minimum for every score, and never grows
/// as the score grows.
pub proof fn lemma_gap_size_monotone(s1: nat, s2: nat)
    requires
        s1 <= s2,
    ensures
        gap_size(s1) >= MIN_GAP_SIZE,
        gap_size(s2) >= MIN_GAP_SIZE,
        gap_size(s1) >= gap_size(s2),
{
    assert(s1 / 5 <= s2 / 5) by (nonlinear_arith)
        requires
            s1 <= s2,
    ;
}

/// A player inside the gap's rows, or outside the column window, never hits
/// the obstacle; so in particular not one that is both.
pub proof fn lemma_no_collision_in_gap(o: Obstacle, p: Player)
    requires
        o.wf(),
        (o.gap_top() <= p.y <= o.gap_bottom()) || !o.in_x_window(p),
    ensures
        !o.collides(p),
{
}

} // verus!
