//! The collection of live obstacles: batch generation ahead of the player,
//! eviction behind it, pass-through detection and collision queries.
use vstd::prelude::*;
use bracket_lib::prelude::RandomNumberGenerator;
use crate::{
    MAX_OBSTACLES, MAX_OBSTACLE_DISTANCE, MIN_OBSTACLES, MIN_OBSTACLE_DISTANCE, SCREEN_WIDTH,
};
use crate::obstacle::{gap_size, Obstacle, GAP_Y_MAX, GAP_Y_MIN};
use crate::player::Player;
use crate::random::draw_in;

verus! {

/// The obstacles of `s` that are less than a screen width behind column
/// `player_x`, in their order.
pub open spec fn retained(s: Seq<Obstacle>, player_x: int) -> Seq<Obstacle>
    decreases s.len(),
{
    if s.len() == 0 {
        s
    } else {
        let r = retained(s.drop_last(), player_x);
        if s.last().x > player_x - SCREEN_WIDTH {
            r.push(s.last())
        } else {
            r
        }
    }
}

/// `b` is one generated batch that starts after column `start_x`: between the
/// smallest and largest batch size, each obstacle a bounded distance after the
/// one before (the first after `start_x`), each sized for `score`, with its
/// gap center in range and not passed.
pub open spec fn is_batch(b: Seq<Obstacle>, start_x: int, score: nat) -> bool {
    &&& MIN_OBSTACLES <= b.len() <= MAX_OBSTACLES
    &&& forall|i: int|
        #![trigger b[i]]
        0 <= i < b.len() ==> {
            let prev = if i == 0 { start_x } else { b[i - 1].x as int };
            &&& MIN_OBSTACLE_DISTANCE <= b[i].x - prev <= MAX_OBSTACLE_DISTANCE
            &&& b[i].size == gap_size(score)
            &&& GAP_Y_MIN <= b[i].gap_y < GAP_Y_MAX
            &&& !b[i].passed
        }
}

/// The result of one update at column `player_x`: the retained obstacles,
/// followed by a new batch when none is left or the last one is less than two
/// screen widths ahead. The batch starts after the last retained obstacle, or
/// one screen width ahead of the player when none is left.
pub open spec fn updated(old: Seq<Obstacle>, new: Seq<Obstacle>, player_x: int, score: nat) -> bool {
    let kept = retained(old, player_x);
    if kept.len() == 0 || kept.last().x < player_x + 2 * SCREEN_WIDTH {
        let start = if kept.len() == 0 {
            player_x + SCREEN_WIDTH
        } else {
            kept.last().x as int
        };
        &&& kept.len() <= new.len()
        &&& new.subrange(0, kept.len() as int) == kept
        &&& is_batch(new.subrange(kept.len() as int, new.len() as int), start, score)
    } else {
        new == kept
    }
}

/// An update at this column keeps every column it computes in range.
pub open spec fn update_fits(player_x: int) -> bool {
    i32::MIN + SCREEN_WIDTH <= player_x
        <= i32::MAX - 2 * SCREEN_WIDTH - MAX_OBSTACLES * MAX_OBSTACLE_DISTANCE
}

/// The obstacle after the player stands at column `player_x`: passed once the
/// player is beyond it, and passed for good.
pub open spec fn mark(o: Obstacle, player_x: int) -> Obstacle {
    Obstacle { passed: o.passed || player_x > o.x, ..o }
}

/// Every obstacle marked for the player's column.
pub open spec fn marked(s: Seq<Obstacle>, player_x: int) -> Seq<Obstacle> {
    s.map_values(|o: Obstacle| mark(o, player_x))
}

/// Some obstacle not yet passed is behind the player's column.
pub open spec fn newly_passed(s: Seq<Obstacle>, player_x: int) -> bool {
    exists|i: int| 0 <= i < s.len() && !s[i].passed && player_x > s[i].x
}

/// Some obstacle of `s` hits the player.
pub open spec fn any_hit(s: Seq<Obstacle>, p: Player) -> bool {
    exists|i: int| 0 <= i < s.len() && s[i].collides(p)
}

/// The obstacles of `s` stand in strictly increasing columns.
pub open spec fn in_order(s: Seq<Obstacle>) -> bool {
    forall|i: int, j: int| 0 <= i < j < s.len() ==> s[i].x < s[j].x
}

/// Every obstacle of `s` is well formed.
pub open spec fn all_wf(s: Seq<Obstacle>) -> bool {
    forall|i: int| 0 <= i < s.len() ==> s[i].wf()
}

/// The live obstacles, in order of creation, and the random source that new
/// ones are drawn from.
pub struct ObstacleManager {
    obstacles: Vec<Obstacle>,
    rng: RandomNumberGenerator,
}

impl View for ObstacleManager {
    type V = Seq<Obstacle>;

    closed spec fn view(&self) -> Seq<Obstacle> {
        self.obstacles@
    }
}

impl ObstacleManager {
    /// Every live obstacle is well formed.
    pub open spec fn wf(&self) -> bool {
        all_wf(self@)
    }

    /// An empty collection that draws from the given random source.
    pub fn new(rng: RandomNumberGenerator) -> (r: ObstacleManager)
        ensures
            r@ == Seq::<Obstacle>::empty(),
            r.wf(),
    {
        ObstacleManager { obstacles: Vec::new(), rng }
    }

    /// Removes every obstacle.
    pub fn reset(&mut self)
        ensures
            final(self)@ == Seq::<Obstacle>::empty(),
            final(self).wf(),
    {
        self.obstacles.clear();
    }

    /// The number of live obstacles.
    pub fn len(&self) -> (r: usize)
        ensures
            r == self@.len(),
    {
        self.obstacles.len()
    }

    /// The live obstacle at index i.
    pub fn get(&self, i: usize) -> (r: Obstacle)
        requires
            i < self@.len(),
        ensures
            r == self@[i as int],
    {
        self.obstacles[i]
    }

    /// Appends one batch of obstacles that starts after column `start_x`,
    /// with a random size, random distances and random gap centers.
    pub fn generate_obstacles(&mut self, start_x: i32, score: u32)
        requires
            old(self).wf(),
            start_x <= i32::MAX - MAX_OBSTACLES * MAX_OBSTACLE_DISTANCE,
        ensures
            final(self).wf(),
            old(self)@.len() <= final(self)@.len(),
            final(self)@.subrange(0, old(self)@.len() as int) == old(self)@,
            is_batch(
                final(self)@.subrange(old(self)@.len() as int, final(self)@.len() as int),
                start_x as int,
                score as nat,
            ),
            in_order(old(self)@) && (old(self)@.len() > 0 ==> old(self)@.last().x <= start_x)
                ==> in_order(final(self)@),
    {
        let ghost n0 = self@.len();
        let count = draw_in(&mut self.rng, MIN_OBSTACLES, MAX_OBSTACLES + 1);
        let mut current_x = start_x;
        let mut i: i32 = 0;
        while i < count
            invariant
                0 <= i <= count <= MAX_OBSTACLES,
                MIN_OBSTACLES <= count,
                start_x <= i32::MAX - MAX_OBSTACLES * MAX_OBSTACLE_DISTANCE,
                self@.len() == n0 + i,
                self@.subrange(0, n0 as int) == old(self)@,
                all_wf(self@),
                current_x <= start_x + i * MAX_OBSTACLE_DISTANCE,
                current_x == if i == 0 { start_x as int } else { self@[n0 + i - 1].x as int },
                forall|j: int|
                    #![trigger self@[j]]
                    n0 <= j < n0 + i ==> {
                        let prev = if j == n0 { start_x as int } else { self@[j - 1].x as int };
                        &&& MIN_OBSTACLE_DISTANCE <= self@[j].x - prev <= MAX_OBSTACLE_DISTANCE
                        &&& self@[j].size == gap_size(score as nat)
                        &&& GAP_Y_MIN <= self@[j].gap_y < GAP_Y_MAX
                        &&& !self@[j].passed
                    },
            decreases count - i,
        {
            let distance = draw_in(&mut self.rng, MIN_OBSTACLE_DISTANCE, MAX_OBSTACLE_DISTANCE + 1);
            current_x = current_x + distance;
            let o = Obstacle::new(current_x, score, &mut self.rng);
            self.obstacles.push(o);
            i = i + 1;
            assert(self@.subrange(0, n0 as int) =~= old(self)@);
        }
        let ghost b = self@.subrange(n0 as int, self@.len() as int);
        assert forall|k: int| 0 <= k < b.len() implies #[trigger] b[k] == self@[n0 + k] by {}
        proof {
            if in_order(old(self)@) && (n0 > 0 ==> old(self)@.last().x <= start_x) {
                let f = self@;
                assert forall|i: int, j: int| 0 <= i < j < f.len() implies f[i].x < f[j].x by {
                    if j >= n0 {
                        lemma_batch_beyond(b, start_x as int, score as nat, j - n0);
                        assert(f[j] == b[j - n0]);
                    }
                    if i >= n0 {
                        lemma_batch_order(b, start_x as int, score as nat, i - n0, j - n0);
                        assert(f[i] == b[i - n0]);
                    } else if j < n0 {
                        assert(f[i] == old(self)@[i] && f[j] == old(self)@[j]);
                    } else {
                        assert(f[i] == old(self)@[i]);
                        assert(old(self)@[i].x <= old(self)@.last().x);
                    }
                }
            }
        }
    }

    /// Whether any live obstacle hits the player.
    pub fn hit_obstacle(&self, player: &Player) -> (r: bool)
        requires
            self.wf(),
        ensures
            r == any_hit(self@, *player),
    {
        let n = self.obstacles.len();
        let mut i: usize = 0;
        while i < n
            invariant
                n == self@.len(),
                i <= n,
                all_wf(self@),
                forall|j: int| 0 <= j < i ==> !(#[trigger] self@[j]).collides(*player),
            decreases n - i,
        {
            if self.obstacles[i].hit_obstacle(player) {
                return true;
            }
            i = i + 1;
        }
        false
    }

    /// Marks as passed every obstacle behind the player's column, and tells
    /// whether one of them had not been passed before.
    pub fn check_passed(&mut self, player: &Player) -> (r: bool)
        ensures
            final(self)@ == marked(old(self)@, player.x as int),
            in_order(old(self)@) ==> in_order(final(self)@),
            r == newly_passed(old(self)@, player.x as int),
            old(self).wf() ==> final(self).wf(),
    {
        let ghost px = player.x as int;
        let n = self.obstacles.len();
        let mut passed = false;
        let mut i: usize = 0;
        while i < n
            invariant
                n == self@.len() == old(self)@.len(),
                i <= n,
                px == player.x,
                forall|j: int| 0 <= j < i ==> #[trigger] self@[j] == mark(old(self)@[j], px),
                forall|j: int| i <= j < n ==> #[trigger] self@[j] == old(self)@[j],
                passed == exists|j: int|
                    0 <= j < i && !(#[trigger] old(self)@[j]).passed && px > old(self)@[j].x,
            decreases n - i,
        {
            let o = self.obstacles[i];
            if !o.passed && player.x > o.x {
                self.obstacles.set(i, Obstacle { passed: true, ..o });
                passed = true;
            }
            i = i + 1;
        }
        assert(self@ =~= marked(old(self)@, px));
        passed
    }

    /// Drops the obstacles a screen width or more behind the player, then
    /// generates a batch when none is left or the last one is less than two
    /// screen widths ahead.
    pub fn update(&mut self, player_x: i32, score: u32)
        requires
            old(self).wf(),
            update_fits(player_x as int),
        ensures
            final(self).wf(),
            updated(old(self)@, final(self)@, player_x as int, score as nat),
            final(self)@.len() > 0,
            in_order(old(self)@) ==> in_order(final(self)@),
    {
        let ghost px = player_x as int;
        let n = self.obstacles.len();
        let mut kept: Vec<Obstacle> = Vec::new();
        let mut i: usize = 0;
        while i < n
            invariant
                n == self@.len(),
                i <= n,
                update_fits(px),
                px == player_x,
                kept@ == retained(self@.take(i as int), px),
            decreases n - i,
        {
            let o = self.obstacles[i];
            assert(self@.take(i + 1).drop_last() =~= self@.take(i as int));
            assert(self@.take(i + 1).last() == o);
            if o.x > player_x - SCREEN_WIDTH {
                kept.push(o);
            }
            i = i + 1;
        }
        assert(self@.take(n as int) =~= self@);
        proof {
            lemma_retained_members(old(self)@, px);
            if in_order(old(self)@) {
                lemma_retained_in_order(old(self)@, px);
            }
        }
        self.obstacles = kept;
        let len = self.obstacles.len();
        if len == 0 || self.obstacles[len - 1].x < player_x + 2 * SCREEN_WIDTH {
            let start = if len == 0 {
                player_x + SCREEN_WIDTH
            } else {
                self.obstacles[len - 1].x
            };
            self.generate_obstacles(start, score);
            proof {
                let b = self@.subrange(len as int, self@.len() as int);
                assert(b.len() > 0);
            }
        }
    }
}

/// Each retained obstacle is one of `s`, and lies less than a screen width
/// behind `player_x`.
pub proof fn lemma_retained_members(s: Seq<Obstacle>, player_x: int)
    ensures
        forall|j: int|
            0 <= j < retained(s, player_x).len() ==> s.contains(
                #[trigger] retained(s, player_x)[j],
            ),
        forall|j: int|
            0 <= j < retained(s, player_x).len() ==> (#[trigger] retained(s, player_x)[j]).x
                > player_x - SCREEN_WIDTH,
        all_wf(s) ==> all_wf(retained(s, player_x)),
    decreases s.len(),
{
    if s.len() > 0 {
        lemma_retained_members(s.drop_last(), player_x);
        let r = retained(s, player_x);
        let r0 = retained(s.drop_last(), player_x);
        assert forall|j: int| 0 <= j < r.len() implies s.contains(#[trigger] r[j]) by {
            if j < r0.len() {
                let k = choose|k: int| 0 <= k < s.drop_last().len() && s.drop_last()[k] == r0[j];
                assert(s[k] == r[j]);
            } else {
                assert(s[s.len() - 1] == r[j]);
            }
        }
        if all_wf(s) {
            assert forall|j: int| 0 <= j < r.len() implies (#[trigger] r[j]).wf() by {
                assert(s.contains(r[j]));
            }
        }
    }
}

/// Retaining keeps obstacles in increasing columns.
pub proof fn lemma_retained_in_order(s: Seq<Obstacle>, player_x: int)
    requires
        in_order(s),
    ensures
        in_order(retained(s, player_x)),
    decreases s.len(),
{
    if s.len() > 0 {
        let d = s.drop_last();
        assert(in_order(d));
        lemma_retained_in_order(d, player_x);
        lemma_retained_members(d, player_x);
        let r0 = retained(d, player_x);
        assert forall|j: int| 0 <= j < r0.len() implies (#[trigger] r0[j]).x < s.last().x by {
            assert(d.contains(r0[j]));
            let k = choose|k: int| 0 <= k < d.len() && d[k] == r0[j];
            assert(s[k] == d[k]);
        }
    }
}

/// Within a batch, a later obstacle stands in a later column.
pub proof fn lemma_batch_order(b: Seq<Obstacle>, start_x: int, score: nat, i: int, j: int)
    requires
        is_batch(b, start_x, score),
        0 <= i < j < b.len(),
    ensures
        b[i].x < b[j].x,
    decreases j - i,
{
    if i + 1 < j {
        lemma_batch_order(b, start_x, score, i, j - 1);
    }
    assert(MIN_OBSTACLE_DISTANCE <= b[j].x - b[j - 1].x);
}

/// When every obstacle of `s` is less than a screen width behind `player_x`,
/// retaining keeps them all.
pub proof fn lemma_retained_all(s: Seq<Obstacle>, player_x: int)
    requires
        forall|i: int| 0 <= i < s.len() ==> (#[trigger] s[i]).x > player_x - SCREEN_WIDTH,
    ensures
        retained(s, player_x) == s,
    decreases s.len(),
{
    if s.len() > 0 {
        lemma_retained_all(s.drop_last(), player_x);
        assert(s.drop_last().push(s.last()) =~= s);
    }
}

/// Every obstacle of a batch lies beyond the column it starts after.
pub proof fn lemma_batch_beyond(b: Seq<Obstacle>, start_x: int, score: nat, i: int)
    requires
        is_batch(b, start_x, score),
        0 <= i < b.len(),
    ensures
        b[i].x > start_x,
    decreases i,
{
    if i > 0 {
        lemma_batch_beyond(b, start_x, score, i - 1);
    }
    assert(MIN_OBSTACLE_DISTANCE <= b[i].x - (if i == 0 { start_x } else { b[i - 1].x as int }));
}

/// After an update at `player_x`, every obstacle is less than a screen width
/// behind that column.
pub proof fn lemma_updated_ahead(old: Seq<Obstacle>, new: Seq<Obstacle>, player_x: int, score: nat)
    requires
        updated(old, new, player_x, score),
    ensures
        forall|i: int| 0 <= i < new.len() ==> (#[trigger] new[i]).x > player_x - SCREEN_WIDTH,
{
    lemma_retained_members(old, player_x);
    let kept = retained(old, player_x);
    if kept.len() == 0 || kept.last().x < player_x + 2 * SCREEN_WIDTH {
        let start = if kept.len() == 0 {
            player_x + SCREEN_WIDTH
        } else {
            kept.last().x as int
        };
        let b = new.subrange(kept.len() as int, new.len() as int);
        assert forall|i: int| 0 <= i < new.len() implies (#[trigger] new[i]).x > player_x
            - SCREEN_WIDTH by {
            if i < kept.len() {
                assert(new[i] == new.subrange(0, kept.len() as int)[i]);
            } else {
                lemma_batch_beyond(b, start, score, i - kept.len());
                assert(new[i] == b[i - kept.len()]);
            }
        }
    }
}

/// Eviction settles: a second update at the same column removes nothing, so
/// the obstacles after the first update stand, in order, at the front of
/// those after the second.
pub proof fn lemma_update_settles(
    s0: Seq<Obstacle>,
    s1: Seq<Obstacle>,
    s2: Seq<Obstacle>,
    player_x: int,
    score1: nat,
    score2: nat,
)
    requires
        updated(s0, s1, player_x, score1),
        updated(s1, s2, player_x, score2),
    ensures
        s1.len() <= s2.len(),
        s2.subrange(0, s1.len() as int) == s1,
{
    lemma_updated_ahead(s0, s1, player_x, score1);
    lemma_retained_all(s1, player_x);
    if !(s1.len() == 0 || s1.last().x < player_x + 2 * SCREEN_WIDTH) {
        assert(s2.subrange(0, s1.len() as int) =~= s1);
    }
}

/// Passing is counted once: after obstacles are marked for a column, marking
/// them again for that column finds nothing newly passed and changes nothing.
pub proof fn lemma_pass_counted_once(s: Seq<Obstacle>, player_x: int)
    ensures
        !newly_passed(marked(s, player_x), player_x),
        marked(marked(s, player_x), player_x) == marked(s, player_x),
{
    assert(marked(marked(s, player_x), player_x) =~= marked(s, player_x));
}

} // verus!
