//! One playthrough: the tick counter, the spawn schedule, score
//! accumulation, and the game-over / restart state machine, orchestrating
//! the player ship and the enemy field.

use vstd::prelude::*;

use crate::bullet::{advanced, lemma_advanced_len, Bullet};
use crate::enemy::{EnemyField, Entity};
use crate::grid::{Coord, MAX_X, MIN_X, SPAWN_X, SPAWN_Y};
use crate::player::{
    move_target, surviving, total_score, Intent, Ship, MAX_SHOTS, POINTS,
};
use crate::resolve::{listed, resolve_spec};

verus! {

/// The base spawn-rate configuration constant.
pub const SPAWN_RATE: u64 = 10;

/// How many enemy ships a timed tick spawns.  This is
/// `clamp(floor(sqrt(ticks / rate) / (rate * 10)), 1, 5)` written without a
/// square root: the clamped floor is `k` exactly when
/// `ticks / (100 * rate^3)` lies in `[k^2, (k+1)^2)`, so only the four
/// thresholds 4, 9, 16 and 25 matter.
pub open spec fn spawn_count(ticks: u64, rate: u64) -> nat {
    let x = (ticks as nat) / (rate as nat) / (rate as nat) / (rate as nat) / 100;
    if x < 4 {
        1
    } else if x < 9 {
        2
    } else if x < 16 {
        3
    } else if x < 25 {
        4
    } else {
        5
    }
}

/// How many rocks a timed tick spawns: one for each of the two periodic
/// schedules whose condition holds — a 3-tick period open after tick 240 and
/// a 7-tick period open after tick 60.  The conditions are independent, so a
/// tick satisfying both spawns two rocks.
pub open spec fn rock_quota(ticks: u64) -> nat {
    (if ticks % 3 == 0 && ticks > 240 {
        1nat
    } else {
        0nat
    }) + (if ticks % 7 == 0 && ticks > 60 {
        1nat
    } else {
        0nat
    })
}

/// The ship-spawn quota of a timed tick, always between 1 and 5.
pub fn spawn_quota(ticks: u64, rate: u64) -> (r: u64)
    requires
        rate >= 1,
    ensures
        r == spawn_count(ticks, rate),
        1 <= r <= 5,
{
    let x = ticks / rate / rate / rate / 100;
    if x < 4 {
        1
    } else if x < 9 {
        2
    } else if x < 16 {
        3
    } else if x < 25 {
        4
    } else {
        5
    }
}

/// The rock-spawn quota of a timed tick, at most 2.
pub fn rock_spawn_quota(ticks: u64) -> (r: u64)
    ensures
        r == rock_quota(ticks),
        r <= 2,
{
    let mut r: u64 = 0;
    if ticks % 3 == 0 && ticks > 240 {
        r = r + 1;
    }
    if ticks % 7 == 0 && ticks > 60 {
        r = r + 1;
    }
    r
}

/// A record of the random columns a tick's ship spawns drew: the right
/// number of them, all playable.
pub open spec fn ship_cols_ok(cols: Seq<i64>, n: nat) -> bool {
    cols.len() == n && forall|i: int| 0 <= i < cols.len() ==> MIN_X <= #[trigger] cols[i] <= MAX_X
}

/// The enemy ships after a tick's spawns: one new ship per drawn column,
/// entering one row above the field.
pub open spec fn spawned_ships(es: Seq<Entity>, cols: Seq<i64>) -> Seq<Entity> {
    es + Seq::new(cols.len(), |i: int| Entity { x: cols[i], y: -1i64 })
}

/// The rocks after a tick's spawns: `n` new rocks in the player's column,
/// entering one row above the field.
pub open spec fn spawned_rocks(es: Seq<Entity>, x: i64, n: nat) -> Seq<Entity> {
    es + Seq::new(n, |i: int| Entity { x: x, y: -1i64 })
}

/// One playthrough.  `spawn_rate` is configuration: fixed at creation and
/// never mutated, not even by a restart.
pub struct GameSession {
    pub player: Ship,
    pub field: EnemyField,
    pub ticks: u64,
    pub score: u64,
    pub spawn_rate: u64,
    pub game_over: bool,
}

/// What one timed tick does, given the columns its ship spawns drew: spawn
/// ships and rocks on the pre-tick schedule, count the tick, advance the
/// volley, run one full resolution pass with descent, then settle score and
/// game-over from the hit list.
pub open spec fn tick_rel(pre: GameSession, post: GameSession, cols: Seq<i64>) -> bool {
    let p = (pre.player.x, pre.player.y);
    let ships0 = spawned_ships(pre.field.ships@, cols);
    let rocks0 = spawned_rocks(pre.field.rocks@, pre.player.x, rock_quota(pre.ticks));
    let shots1 = advanced(pre.player.shots@);
    let out = resolve_spec(ships0, rocks0, shots1, p, true);
    &&& post.ticks == pre.ticks + 1
    &&& post.spawn_rate == pre.spawn_rate
    &&& post.player.x == pre.player.x
    &&& post.player.y == pre.player.y
    &&& post.player.shots@ == surviving(shots1, out.2)
    &&& post.field.ships@ == out.0
    &&& post.field.rocks@ == out.1
    &&& post.score == pre.score + total_score(shots1, out.2)
    &&& post.game_over == listed(out.2, p)
}

/// Where the player stands after one input step.
pub open spec fn input_pos(pre: GameSession, it: Intent) -> Coord {
    move_target(pre.player.x, pre.player.y, it)
}

/// The volley after one input step: one new bullet above the ship on a fire
/// intent under the cap, the old volley otherwise.
pub open spec fn input_shots(pre: GameSession, it: Intent) -> Seq<Bullet> {
    if it == Intent::Fire && pre.player.shots@.len() < MAX_SHOTS {
        pre.player.shots@.push((Bullet { x: pre.player.x, y: (pre.player.y - 1) as i64 }))
    } else {
        pre.player.shots@
    }
}

/// The resolution pass of one input step: no descent.
pub open spec fn input_outcome(pre: GameSession, it: Intent) -> (
    Seq<Entity>,
    Seq<Entity>,
    Seq<Coord>,
) {
    resolve_spec(pre.field.ships@, pre.field.rocks@, input_shots(pre, it), input_pos(pre, it), false)
}

/// What one non-restart input step does: apply the intent to the ship, run
/// one resolution pass without descent, then settle score (only while the
/// session is not already over) and game-over from the hit list.
pub open spec fn input_rel(pre: GameSession, post: GameSession, it: Intent) -> bool {
    let p = input_pos(pre, it);
    let out = input_outcome(pre, it);
    &&& (post.player.x, post.player.y) == p
    &&& post.player.shots@ == surviving(input_shots(pre, it), out.2)
    &&& post.field.ships@ == out.0
    &&& post.field.rocks@ == out.1
    &&& post.ticks == pre.ticks
    &&& post.spawn_rate == pre.spawn_rate
    &&& post.score == pre.score + (if pre.game_over {
        0int
    } else {
        total_score(input_shots(pre, it), out.2) as int
    })
    &&& post.game_over == (pre.game_over || listed(out.2, p))
}

impl GameSession {
    /// The parts are well formed and the configured rate is usable.
    pub open spec fn wf(&self) -> bool {
        self.player.wf() && self.field.wf() && self.spawn_rate >= 1
    }

    /// A fresh session: zeroed counters, the player on the spawn cell, empty
    /// enemy collections, the configured spawn rate.
    pub fn new() -> (r: GameSession)
        ensures
            r.ticks == 0,
            r.score == 0,
            r.game_over == false,
            r.spawn_rate == SPAWN_RATE,
            r.player.x == SPAWN_X,
            r.player.y == SPAWN_Y,
            r.player.shots@ == Seq::<Bullet>::empty(),
            r.field.ships@ == Seq::<Entity>::empty(),
            r.field.rocks@ == Seq::<Entity>::empty(),
            r.wf(),
    {
        GameSession {
            player: Ship::new(),
            field: EnemyField::new(),
            ticks: 0,
            score: 0,
            spawn_rate: SPAWN_RATE,
            game_over: false,
        }
    }

    /// After any sequence of plays, return to the initial state: zeroed tick
    /// counter and score, the game-over flag cleared, the player back on the
    /// spawn cell with no bullets, and both enemy collections empty.  Only
    /// the configured spawn rate survives.
    pub fn restart(&mut self)
        ensures
            final(self).ticks == 0,
            final(self).score == 0,
            final(self).game_over == false,
            final(self).spawn_rate == old(self).spawn_rate,
            final(self).player.x == SPAWN_X,
            final(self).player.y == SPAWN_Y,
            final(self).player.shots@ == Seq::<Bullet>::empty(),
            final(self).field.ships@ == Seq::<Entity>::empty(),
            final(self).field.rocks@ == Seq::<Entity>::empty(),
            old(self).wf() ==> final(self).wf(),
    {
        self.player.restart();
        self.field.restart();
        self.ticks = 0;
        self.score = 0;
        self.game_over = false;
    }

    /// One timed simulation step.  While the session is over it does
    /// nothing; otherwise it performs exactly one [`tick_rel`] transition
    /// for some record of random spawn columns, and reports whether this
    /// tick ended the session.
    #[verifier::loop_isolation(false)]
    pub fn tick(&mut self) -> (r: bool)
        requires
            old(self).wf(),
            old(self).ticks < u64::MAX,
            old(self).score <= u64::MAX - 875,
        ensures
            final(self).wf(),
            final(self).spawn_rate == old(self).spawn_rate,
            final(self).score <= old(self).score + 875,
            old(self).game_over ==> *final(self) == *old(self) && r == false,
            !old(self).game_over ==> r == final(self).game_over && exists|cols: Seq<i64>|
                ship_cols_ok(cols, spawn_count(old(self).ticks, old(self).spawn_rate))
                    && tick_rel(*old(self), *final(self), cols),
    {
        if self.game_over {
            return false;
        }
        let n = spawn_quota(self.ticks, self.spawn_rate);
        let ghost mut cols: Seq<i64> = Seq::empty();
        let mut k: u64 = 0;
        proof {
            assert(self.field.ships@ =~= spawned_ships(old(self).field.ships@, cols));
        }
        while k < n
            invariant
                k <= n,
                ship_cols_ok(cols, k as nat),
                self.field.ships@ == spawned_ships(old(self).field.ships@, cols),
                self.field.rocks@ == old(self).field.rocks@,
                self.field.wf(),
                self.player == old(self).player,
                self.ticks == old(self).ticks,
                self.score == old(self).score,
                self.spawn_rate == old(self).spawn_rate,
                self.game_over == old(self).game_over,
            decreases n - k,
        {
            self.field.spawn_ship();
            proof {
                cols = cols.push(self.field.ships@.last().x);
                assert(self.field.ships@ =~= spawned_ships(old(self).field.ships@, cols));
            }
            k = k + 1;
        }
        let m = rock_spawn_quota(self.ticks);
        if m >= 1 {
            self.field.spawn_rock(self.player.x);
        }
        if m == 2 {
            self.field.spawn_rock(self.player.x);
        }
        proof {
            assert(self.field.rocks@ =~= spawned_rocks(
                old(self).field.rocks@,
                old(self).player.x,
                rock_quota(old(self).ticks),
            ));
        }
        self.ticks = self.ticks + 1;
        self.player.tick(false);
        let p = self.player.current_pos();
        let hits = self.field.resolve(p, &self.player.shots, true);
        let ghost shots1 = advanced(old(self).player.shots@);
        proof {
            lemma_advanced_len(old(self).player.shots@);
            crate::player::lemma_total_score_bound(shots1, hits@);
            assert(total_score(shots1, hits@) <= 875) by (nonlinear_arith)
                requires
                    total_score(shots1, hits@) <= POINTS * shots1.len() * hits@.len(),
                    POINTS == 25,
                    0 <= shots1.len() <= 5,
                    0 <= hits@.len() <= shots1.len() + 2,
            ;
            assert(POINTS * self.player.shots@.len() * hits@.len() <= u64::MAX)
                by (nonlinear_arith)
                requires
                    POINTS == 25,
                    0 <= self.player.shots@.len() <= 5,
                    0 <= hits@.len() <= 7,
            ;
        }
        let res = self.player.resolve_hits(&hits);
        self.score = self.score + res.1;
        if res.0 {
            self.game_over = true;
        }
        proof {
            assert(ship_cols_ok(cols, spawn_count(old(self).ticks, old(self).spawn_rate)));
            assert(tick_rel(*old(self), *self, cols));
        }
        res.0
    }

    /// One input step.  A restart intent only signals that a reset was
    /// requested (`r.0`), mutating nothing; any other intent performs
    /// exactly one [`input_rel`] transition, and `r.1` reports whether the
    /// player was struck on this step.
    pub fn on_input(&mut self, it: Intent) -> (r: (bool, bool))
        requires
            old(self).wf(),
            old(self).score <= u64::MAX - 875,
        ensures
            final(self).wf(),
            final(self).spawn_rate == old(self).spawn_rate,
            final(self).score <= old(self).score + 875,
            it == Intent::Restart ==> r == (true, false) && *final(self) == *old(self),
            it != Intent::Restart ==> r.0 == false && input_rel(*old(self), *final(self), it)
                && r.1 == listed(input_outcome(*old(self), it).2, input_pos(*old(self), it)),
    {
        if matches!(it, Intent::Restart) {
            return (true, false);
        }
        self.player.move_or_fire(it);
        let p = self.player.current_pos();
        let hits = self.field.resolve(p, &self.player.shots, false);
        let ghost shots1 = input_shots(*old(self), it);
        proof {
            crate::player::lemma_total_score_bound(shots1, hits@);
            assert(total_score(shots1, hits@) <= 875) by (nonlinear_arith)
                requires
                    total_score(shots1, hits@) <= POINTS * shots1.len() * hits@.len(),
                    POINTS == 25,
                    0 <= shots1.len() <= 5,
                    0 <= hits@.len() <= shots1.len() + 2,
            ;
            assert(POINTS * self.player.shots@.len() * hits@.len() <= u64::MAX)
                by (nonlinear_arith)
                requires
                    POINTS == 25,
                    0 <= self.player.shots@.len() <= 5,
                    0 <= hits@.len() <= 7,
            ;
        }
        let res = self.player.resolve_hits(&hits);
        if !self.game_over {
            self.score = self.score + res.1;
        }
        if res.0 {
            self.game_over = true;
        }
        proof {
            assert(input_rel(*old(self), *self, it));
        }
        (false, res.0)
    }

    /// The current score, for the renderer.
    pub fn score(&self) -> (r: u64)
        ensures
            r == self.score,
    {
        self.score
    }

    /// Whether the session has ended, for the renderer.
    pub fn is_game_over(&self) -> (r: bool)
        ensures
            r == self.game_over,
    {
        self.game_over
    }
}

} // verus!
