//! The player's ship: bounded movement on the grid, a capped volley of live
//! bullets, and the scoring pass that consumes the hit list of a step.

use vstd::prelude::*;

use crate::bullet::{advanced, bullet_pos, lemma_advanced_len, lemma_advanced_on_field, Bullet};
use crate::grid::{player_in_bounds, Coord, BOTTOM_ROW, MAX_X, MIN_X, SPAWN_X, SPAWN_Y, TOP_MARGIN};
use crate::resolve::{coord_count, hit_count, lemma_hit_count_le, listed};

verus! {

/// Points awarded for each rewarded bullet removal.
pub const POINTS: u64 = 25;

/// The largest number of live bullets the player may hold.
pub const MAX_SHOTS: usize = 5;

/// An abstract input event, already decoded from whatever raw key the input
/// layer received.  Unrecognized keys never reach the core: they map to
/// `Idle`.
#[derive(Clone, Copy, PartialEq, Eq, Structural, Debug)]
pub enum Intent {
    Up,
    Down,
    Left,
    Right,
    Fire,
    Restart,
    Idle,
}

/// The candidate displacement of an intent; firing and the rest do not move
/// the ship.
pub open spec fn move_delta(it: Intent) -> (int, int) {
    match it {
        Intent::Up => (0, -1),
        Intent::Down => (0, 1),
        Intent::Left => (-1, 0),
        Intent::Right => (1, 0),
        _ => (0, 0),
    }
}

/// Where the ship stands after one intent: the candidate cell when it lies
/// inside the playable region, the old cell otherwise (out-of-bounds moves
/// are silently rejected).
pub open spec fn move_target(x: i64, y: i64, it: Intent) -> Coord {
    let d = move_delta(it);
    if player_in_bounds(x + d.0, y + d.1) {
        ((x + d.0) as i64, (y + d.1) as i64)
    } else {
        (x, y)
    }
}

/// The score earned from one hit list: every bullet earns [`POINTS`] for
/// each hit-list entry that equals its position.
pub open spec fn total_score(shots: Seq<Bullet>, hits: Seq<Coord>) -> nat
    decreases shots.len(),
{
    if shots.len() == 0 {
        0
    } else {
        (total_score(shots.drop_last(), hits) + POINTS * hit_count(
            hits,
            bullet_pos(shots.last()),
        )) as nat
    }
}

/// The bullets that survive one hit list: exactly those whose position is
/// not listed, in their original order.  A removed bullet is gone for good.
pub open spec fn surviving(shots: Seq<Bullet>, hits: Seq<Coord>) -> Seq<Bullet>
    decreases shots.len(),
{
    if shots.len() == 0 {
        shots
    } else {
        let rest = surviving(shots.drop_last(), hits);
        if listed(hits, bullet_pos(shots.last())) {
            rest
        } else {
            rest.push(shots.last())
        }
    }
}

/// A bullet removed by a hit list is gone for good: no survivor's position
/// is on the list, so no bullet can be matched again by a later pass over
/// the same coordinates.  Holds of every volley and every hit list.
pub proof fn lemma_surviving_not_listed(shots: Seq<Bullet>, hits: Seq<Coord>)
    ensures
        forall|j: int|
            0 <= j < surviving(shots, hits).len() ==> !listed(
                hits,
                bullet_pos(#[trigger] surviving(shots, hits)[j]),
            ),
    decreases shots.len(),
{
    if shots.len() > 0 {
        lemma_surviving_not_listed(shots.drop_last(), hits);
        let rest = surviving(shots.drop_last(), hits);
        if !listed(hits, bullet_pos(shots.last())) {
            assert(forall|j: int|
                0 <= j < surviving(shots, hits).len() ==> surviving(shots, hits)[j] == if j
                    < rest.len() {
                    rest[j]
                } else {
                    shots.last()
                });
        }
    }
}

/// No unmatched bullet is removed: every bullet of the volley whose
/// position the hit list does not name is still there afterwards.  Holds of
/// every volley and every hit list.
pub proof fn lemma_surviving_keeps_unlisted(shots: Seq<Bullet>, hits: Seq<Coord>)
    ensures
        forall|i: int|
            0 <= i < shots.len() && !listed(hits, bullet_pos(#[trigger] shots[i]))
                ==> surviving(shots, hits).contains(shots[i]),
    decreases shots.len(),
{
    if shots.len() > 0 {
        lemma_surviving_keeps_unlisted(shots.drop_last(), hits);
        let rest = surviving(shots.drop_last(), hits);
        assert forall|i: int|
            0 <= i < shots.len() && !listed(hits, bullet_pos(#[trigger] shots[i]))
                implies surviving(shots, hits).contains(shots[i]) by {
            if i < shots.len() - 1 {
                assert(shots.drop_last()[i] == shots[i]);
                assert(rest.contains(shots[i]));
                let j = choose|j: int| 0 <= j < rest.len() && rest[j] == shots[i];
                if listed(hits, bullet_pos(shots.last())) {
                    assert(surviving(shots, hits)[j] == shots[i]);
                } else {
                    assert(rest.push(shots.last())[j] == shots[i]);
                }
            } else {
                assert(shots[i] == shots.last());
                assert(surviving(shots, hits) == rest.push(shots.last()));
                assert(rest.push(shots.last()).last() == shots.last());
            }
        }
    }
}

/// Survivors keep any per-bullet property of the volley they came from.
pub proof fn lemma_surviving_preserves(
    shots: Seq<Bullet>,
    hits: Seq<Coord>,
    pred: spec_fn(Bullet) -> bool,
)
    requires
        forall|i: int| 0 <= i < shots.len() ==> pred(#[trigger] shots[i]),
    ensures
        forall|i: int|
            0 <= i < surviving(shots, hits).len() ==> pred(#[trigger] surviving(shots, hits)[i]),
    decreases shots.len(),
{
    if shots.len() > 0 {
        assert(forall|i: int|
            0 <= i < shots.drop_last().len() ==> pred(#[trigger] shots.drop_last()[i]));
        lemma_surviving_preserves(shots.drop_last(), hits, pred);
        let rest = surviving(shots.drop_last(), hits);
        if !listed(hits, bullet_pos(shots.last())) {
            assert(forall|j: int|
                0 <= j < surviving(shots, hits).len() ==> surviving(shots, hits)[j] == if j
                    < rest.len() {
                    rest[j]
                } else {
                    shots.last()
                });
        }
    }
}

/// A volley never grows under a hit list.
pub proof fn lemma_surviving_len(shots: Seq<Bullet>, hits: Seq<Coord>)
    ensures
        surviving(shots, hits).len() <= shots.len(),
    decreases shots.len(),
{
    if shots.len() > 0 {
        lemma_surviving_len(shots.drop_last(), hits);
    }
}

/// The score of one pass is bounded by [`POINTS`] for every pair of a bullet
/// and a hit-list entry.
pub proof fn lemma_total_score_bound(shots: Seq<Bullet>, hits: Seq<Coord>)
    ensures
        total_score(shots, hits) <= POINTS * shots.len() * hits.len(),
    decreases shots.len(),
{
    if shots.len() > 0 {
        lemma_total_score_bound(shots.drop_last(), hits);
        lemma_hit_count_le(hits, bullet_pos(shots.last()));
        assert(total_score(shots, hits) <= POINTS * shots.len() * hits.len()) by (nonlinear_arith)
            requires
                total_score(shots, hits) == total_score(shots.drop_last(), hits) + POINTS
                    * hit_count(hits, bullet_pos(shots.last())),
                total_score(shots.drop_last(), hits) <= POINTS * shots.drop_last().len()
                    * hits.len(),
                shots.drop_last().len() == shots.len() - 1,
                shots.len() >= 1,
                hit_count(hits, bullet_pos(shots.last())) <= hits.len(),
        ;
    }
}

/// The player: a position inside the playable region and the volley of live
/// bullets, in fire order.
pub struct Ship {
    pub x: i64,
    pub y: i64,
    pub shots: Vec<Bullet>,
}

impl Ship {
    /// The ship sits in bounds, holds at most [`MAX_SHOTS`] bullets, and
    /// every live bullet is still on the field.
    pub open spec fn wf(&self) -> bool {
        &&& player_in_bounds(self.x as int, self.y as int)
        &&& self.shots@.len() <= MAX_SHOTS
        &&& forall|i: int| 0 <= i < self.shots@.len() ==> 0 <= #[trigger] self.shots@[i].y
    }

    /// A fresh ship on the spawn cell with no live bullets.
    pub fn new() -> (r: Ship)
        ensures
            r.x == SPAWN_X,
            r.y == SPAWN_Y,
            r.shots@ == Seq::<Bullet>::empty(),
            r.wf(),
    {
        Ship { x: SPAWN_X, y: SPAWN_Y, shots: Vec::new() }
    }

    /// Apply one intent.  A directional intent moves the ship to the
    /// candidate cell only when that cell stays inside the playable region;
    /// otherwise nothing happens.  A fire intent adds one bullet one row
    /// above the ship, unless [`MAX_SHOTS`] bullets are already live.
    pub fn move_or_fire(&mut self, it: Intent)
        requires
            old(self).wf(),
        ensures
            final(self).wf(),
            (final(self).x, final(self).y) == move_target(old(self).x, old(self).y, it),
            player_in_bounds(final(self).x as int, final(self).y as int),
            final(self).shots@ == (if it == Intent::Fire && old(self).shots@.len() < MAX_SHOTS {
                old(self).shots@.push(
                    (Bullet { x: old(self).x, y: (old(self).y - 1) as i64 }),
                )
            } else {
                old(self).shots@
            }),
            final(self).shots@.len() <= MAX_SHOTS,
    {
        if self.shots.len() < MAX_SHOTS && matches!(it, Intent::Fire) {
            let b = Bullet { x: self.x, y: self.y - 1 };
            self.shots.push(b);
        }
        let d: (i64, i64) = match it {
            Intent::Up => (0, -1),
            Intent::Down => (0, 1),
            Intent::Left => (-1, 0),
            Intent::Right => (1, 0),
            Intent::Fire => (0, 0),
            Intent::Restart => (0, 0),
            Intent::Idle => (0, 0),
        };
        let nx = self.x + d.0;
        let ny = self.y + d.1;
        if MIN_X <= nx && nx <= MAX_X && TOP_MARGIN < ny && ny < BOTTOM_ROW {
            self.x = nx;
            self.y = ny;
        }
    }

    /// One step for the volley.  On a timed tick (`moved == false`) every
    /// bullet rises one row and bullets leaving the field are dropped; on a
    /// key-driven step (`moved == true`) the volley is left alone — that
    /// asymmetry is deliberate.
    #[verifier::loop_isolation(false)]
    pub fn tick(&mut self, moved: bool)
        requires
            old(self).wf(),
        ensures
            final(self).wf(),
            final(self).x == old(self).x,
            final(self).y == old(self).y,
            moved ==> final(self).shots@ == old(self).shots@,
            !moved ==> final(self).shots@ == advanced(old(self).shots@),
    {
        if !moved {
            let mut kept: Vec<Bullet> = Vec::new();
            let mut i: usize = 0;
            while i < self.shots.len()
                invariant
                    i <= self.shots@.len(),
                    self.shots@ == old(self).shots@,
                    kept@ == advanced(self.shots@.take(i as int)),
                decreases self.shots@.len() - i,
            {
                proof {
                    assert(self.shots@.take(i + 1).drop_last() =~= self.shots@.take(i as int));
                    assert(self.shots@.take(i + 1).last() == self.shots@[i as int]);
                }
                let b = self.shots[i];
                if b.y >= 1 {
                    kept.push(Bullet { x: b.x, y: b.y - 1 });
                }
                i = i + 1;
            }
            proof {
                assert(self.shots@.take(self.shots@.len() as int) =~= self.shots@);
            }
            self.shots = kept;
            proof {
                lemma_advanced_len(old(self).shots@);
                lemma_advanced_on_field(old(self).shots@);
            }
        }
    }

    /// Consume the hit list of one resolution pass: every bullet whose
    /// position equals a listed coordinate is removed (once — it cannot be
    /// processed again later), each matching entry is rewarded with
    /// [`POINTS`], and the player is destroyed exactly when the player's own
    /// cell is listed.  Returns `(destroyed, score delta)`.
    #[verifier::loop_isolation(false)]
    pub fn resolve_hits(&mut self, hits: &Vec<Coord>) -> (r: (bool, u64))
        requires
            old(self).wf(),
            POINTS * old(self).shots@.len() * hits@.len() <= u64::MAX,
        ensures
            final(self).wf(),
            final(self).x == old(self).x,
            final(self).y == old(self).y,
            final(self).shots@ == surviving(old(self).shots@, hits@),
            r.1 == total_score(old(self).shots@, hits@),
            r.0 == listed(hits@, (old(self).x, old(self).y)),
            forall|j: int|
                0 <= j < final(self).shots@.len() ==> !listed(
                    hits@,
                    bullet_pos(#[trigger] final(self).shots@[j]),
                ),
    {
        let ghost shots0 = self.shots@;
        let mut kept: Vec<Bullet> = Vec::new();
        let mut score: u64 = 0;
        let mut i: usize = 0;
        while i < self.shots.len()
            invariant
                i <= shots0.len(),
                self.shots@ == shots0,
                self.x == old(self).x,
                self.y == old(self).y,
                kept@ == surviving(shots0.take(i as int), hits@),
                score == total_score(shots0.take(i as int), hits@),
                score <= POINTS * i * hits@.len(),
            decreases shots0.len() - i,
        {
            proof {
                assert(shots0.take(i + 1).drop_last() =~= shots0.take(i as int));
                assert(shots0.take(i + 1).last() == shots0[i as int]);
            }
            let q = self.shots[i].pos();
            let c = coord_count(hits, q);
            if c == 0 {
                let b = self.shots[i];
                kept.push(b);
                proof {
                    assert(score <= POINTS * (i + 1) * hits@.len()) by (nonlinear_arith)
                        requires
                            score <= POINTS * i * hits@.len(),
                            0 <= i,
                            0 <= hits@.len(),
                    ;
                }
            } else {
                proof {
                    lemma_hit_count_le(hits@, q);
                    assert(POINTS * (i + 1) * hits@.len() <= POINTS * shots0.len() * hits@.len())
                        by (nonlinear_arith)
                        requires
                            0 <= i + 1 <= shots0.len(),
                            0 <= hits@.len(),
                    ;
                    assert(score + POINTS * c <= POINTS * (i + 1) * hits@.len())
                        by (nonlinear_arith)
                        requires
                            score <= POINTS * i * hits@.len(),
                            0 <= c <= hits@.len(),
                            0 <= i,
                    ;
                }
                score = score + POINTS * (c as u64);
            }
            i = i + 1;
        }
        proof {
            assert(shots0.take(shots0.len() as int) =~= shots0);
        }
        self.shots = kept;
        let destroyed = coord_count(hits, (self.x, self.y)) > 0;
        proof {
            lemma_surviving_not_listed(shots0, hits@);
            lemma_surviving_len(shots0, hits@);
            lemma_surviving_preserves(shots0, hits@, |b: Bullet| 0 <= b.y);
            assert(forall|j: int|
                0 <= j < self.shots@.len() ==> 0 <= #[trigger] self.shots@[j].y) by {
                assert(forall|j: int|
                    0 <= j < surviving(shots0, hits@).len() ==> (|b: Bullet| 0 <= b.y)(
                        #[trigger] surviving(shots0, hits@)[j],
                    ));
            }
        }
        (destroyed, score)
    }

    /// Clear the volley and return to the spawn cell.
    pub fn restart(&mut self)
        ensures
            final(self).x == SPAWN_X,
            final(self).y == SPAWN_Y,
            final(self).shots@ == Seq::<Bullet>::empty(),
            final(self).wf(),
    {
        self.shots.clear();
        self.x = SPAWN_X;
        self.y = SPAWN_Y;
    }

    /// The ship's current cell.
    pub fn current_pos(&self) -> (r: Coord)
        ensures
            r == (self.x, self.y),
    {
        (self.x, self.y)
    }

    /// Read-only view of the live bullet positions, for the renderer.
    pub fn bullet_positions(&self) -> (r: Vec<Coord>)
        ensures
            r@.len() == self.shots@.len(),
            forall|i: int| 0 <= i < r@.len() ==> r@[i] == bullet_pos(self.shots@[i]),
    {
        let mut r: Vec<Coord> = Vec::new();
        let mut i: usize = 0;
        while i < self.shots.len()
            invariant
                i <= self.shots@.len(),
                r@.len() == i,
                forall|k: int| 0 <= k < i ==> r@[k] == bullet_pos(self.shots@[k]),
            decreases self.shots@.len() - i,
        {
            r.push((self.shots[i].x, self.shots[i].y));
            i = i + 1;
        }
        r
    }
}

} // verus!
