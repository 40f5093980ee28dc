//! The mode machine: menu, playing and end screens, driven one frame at a time.
use vstd::prelude::*;
use bracket_lib::prelude::RandomNumberGenerator;
use crate::{MAX_OBSTACLES, MAX_OBSTACLE_DISTANCE, SCREEN_HEIGHT, SCREEN_WIDTH, FRAME_DURATION_US};
use crate::manager::{any_hit, in_order, is_batch, marked, newly_passed, updated, ObstacleManager};
use crate::player::{Key, Player, DASH_OFFSET, FLAP_SPEED, FORWARD_STEP, MAX_FALL_SPEED, START_X, START_Y};

verus! {

/// The screen the game is on.
#[derive(Clone, Copy, Debug, PartialEq, Eq, Structural)]
pub enum GameMode {
    Menu,
    Playing,
    End,
}

/// The player after the key of a playing frame: a flap, a dash, or nothing.
pub open spec fn after_key(p: Player, key: Option<Key>) -> Player {
    match key {
        Some(Key::Flap) => Player { x: p.x, y: p.y, v: FLAP_SPEED },
        Some(Key::Left) => Player { x: (p.x - DASH_OFFSET) as i32, y: p.y, v: p.v },
        Some(Key::Right) => Player { x: (p.x + DASH_OFFSET) as i32, y: p.y, v: p.v },
        _ => p,
    }
}

/// The whole state of a game: the screen, the player, the obstacles, the
/// time accumulated toward the next physics step (microseconds) and the score.
pub struct GameState {
    pub mode: GameMode,
    pub player: Player,
    pub frame_time: u64,
    pub obstacles: ObstacleManager,
    pub score: u32,
}

impl GameState {
    /// The accumulated time is at most one frame, the obstacles are well
    /// formed and in increasing columns, and the velocity lies between the flap and the fall speed.
    pub open spec fn wf(&self) -> bool {
        &&& self.frame_time <= FRAME_DURATION_US
        &&& self.obstacles.wf()
        &&& in_order(self.obstacles@)
        &&& FLAP_SPEED <= self.player.v <= MAX_FALL_SPEED
    }

    /// A playing frame keeps the player's position and the score in range.
    pub open spec fn play_fits(&self) -> bool {
        &&& i32::MIN + SCREEN_WIDTH + DASH_OFFSET <= self.player.x
        &&& self.player.x + FORWARD_STEP + DASH_OFFSET <= i32::MAX - 2 * SCREEN_WIDTH
            - MAX_OBSTACLES * MAX_OBSTACLE_DISTANCE
        &&& i32::MIN + 2 <= self.player.y <= i32::MAX - 2
        &&& self.score < u32::MAX
    }

    /// A fresh game on the given screen: the player at the start, no time
    /// accumulated, score 0, and one batch of obstacles after the first screen.
    pub open spec fn is_fresh(&self, mode: GameMode) -> bool {
        &&& self.mode == mode
        &&& self.player == Player::start()
        &&& self.frame_time == 0
        &&& self.score == 0
        &&& is_batch(self.obstacles@, SCREEN_WIDTH as int, 0)
        &&& self.wf()
    }

    /// `new` is `self` after one playing frame of `elapsed` microseconds with
    /// this key: a physics step when a frame's time has gathered, then the
    /// key, then scoring of newly passed obstacles, then the obstacle update,
    /// then the end of the game on a fall or a hit.
    pub open spec fn played(&self, new: &GameState, elapsed: nat, key: Option<Key>) -> bool {
        let ft = self.frame_time + elapsed;
        let stepped = ft > FRAME_DURATION_US;
        let p1 = if stepped {
            self.player.advanced()
        } else {
            self.player
        };
        let p = after_key(p1, key);
        let score = if newly_passed(self.obstacles@, p.x as int) {
            self.score + 1
        } else {
            self.score as int
        };
        &&& new.frame_time == if stepped {
            0
        } else {
            ft
        }
        &&& new.player == p
        &&& new.score == score
        &&& updated(marked(self.obstacles@, p.x as int), new.obstacles@, p.x as int, score as nat)
        &&& new.mode == if p.y > SCREEN_HEIGHT || any_hit(new.obstacles@, p) {
            GameMode::End
        } else {
            GameMode::Playing
        }
    }

    /// A game on the menu screen, with its first batch of obstacles drawn from
    /// the given random source.
    pub fn new(rng: RandomNumberGenerator) -> (r: GameState)
        ensures
            r.is_fresh(GameMode::Menu),
    {
        let mut obstacles = ObstacleManager::new(rng);
        obstacles.generate_obstacles(SCREEN_WIDTH, 0);
        assert(obstacles@.subrange(0, obstacles@.len() as int) =~= obstacles@);
        GameState {
            mode: GameMode::Menu,
            player: Player::new(START_X, START_Y, 0),
            frame_time: 0,
            obstacles,
            score: 0,
        }
    }

    /// Whether a playing frame can run from this state without leaving the
    /// range of the position or the score.
    pub fn can_play(&self) -> (r: bool)
        ensures
            r == self.play_fits(),
    {
        let x = self.player.x as i64;
        let y = self.player.y as i64;
        let low = i32::MIN as i64 + SCREEN_WIDTH as i64 + DASH_OFFSET as i64;
        let high = i32::MAX as i64 - 2 * SCREEN_WIDTH as i64 - (MAX_OBSTACLES * MAX_OBSTACLE_DISTANCE) as i64;
        &&& low <= x
        &&& x + FORWARD_STEP as i64 + DASH_OFFSET as i64 <= high
        &&& i32::MIN as i64 + 2 <= y
        &&& y <= i32::MAX as i64 - 2
        &&& self.score < u32::MAX
    }

    /// Starts a new game on the playing screen, keeping the random source.
    pub fn restart(&mut self)
        ensures
            final(self).is_fresh(GameMode::Playing),
    {
        self.player = Player::new(START_X, START_Y, 0);
        self.frame_time = 0;
        self.mode = GameMode::Playing;
        self.obstacles.reset();
        self.obstacles.generate_obstacles(SCREEN_WIDTH, 0);
        assert(self.obstacles@.subrange(0, self.obstacles@.len() as int) =~= self.obstacles@);
        self.score = 0;
    }

    /// One playing frame of `elapsed_us` microseconds with an optional key.
    pub fn play(&mut self, elapsed_us: u32, key: Option<Key>)
        requires
            old(self).wf(),
            old(self).mode == GameMode::Playing,
            old(self).play_fits(),
        ensures
            old(self).played(final(self), elapsed_us as nat, key),
            final(self).wf(),
    {
        self.frame_time = self.frame_time + elapsed_us as u64;
        if self.frame_time > FRAME_DURATION_US {
            self.frame_time = 0;
            self.player.gravity_and_move();
        }
        match key {
            Some(Key::Flap) => self.player.flap(),
            Some(Key::Left) => self.player.dash(Key::Left),
            Some(Key::Right) => self.player.dash(Key::Right),
            _ => {},
        }
        if self.obstacles.check_passed(&self.player) {
            self.score = self.score + 1;
        }
        self.obstacles.update(self.player.x, self.score);
        if self.player.y > SCREEN_HEIGHT || self.obstacles.hit_obstacle(&self.player) {
            self.mode = GameMode::End;
        }
    }

    /// One frame on the current screen. On the menu and end screens the play
    /// key starts a new game and the quit key asks to quit, which is the
    /// result; while playing the frame runs as `play` does.
    pub fn tick(&mut self, elapsed_us: u32, key: Option<Key>) -> (quit: bool)
        requires
            old(self).wf(),
            old(self).mode == GameMode::Playing ==> old(self).play_fits(),
        ensures
            final(self).wf(),
            old(self).mode == GameMode::Playing ==> {
                &&& old(self).played(final(self), elapsed_us as nat, key)
                &&& !quit
            },
            old(self).mode != GameMode::Playing ==> match key {
                Some(Key::Play) => final(self).is_fresh(GameMode::Playing) && !quit,
                Some(Key::Quit) => *final(self) == *old(self) && quit,
                _ => *final(self) == *old(self) && !quit,
            },
    {
        match self.mode {
            GameMode::Playing => {
                self.play(elapsed_us, key);
                false
            },
            _ => match key {
                Some(Key::Play) => {
                    self.restart();
                    false
                },
                Some(Key::Quit) => true,
                _ => false,
            },
        }
    }
}

} // verus!
