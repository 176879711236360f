//! The enemy field: descending enemy ships (destructible, worth points) and
//! rocks (persistent obstacles), with their spawn entry points.

use vstd::prelude::*;

use crate::grid::{Coord, DESPAWN_ROW, MAX_X, MIN_X};

verus! {

/// An enemy ship or a rock: a bare grid position that descends one row per
/// timed tick.
#[derive(Clone, Copy, PartialEq, Eq, Structural, Debug)]
pub struct Entity {
    pub x: i64,
    pub y: i64,
}

/// The world coordinate an entity occupies.
pub open spec fn entity_pos(e: Entity) -> Coord {
    (e.x, e.y)
}

/// A live entity stays in the playable columns, enters one row above the
/// field and never outlives the despawn line.
pub open spec fn entity_ok(e: Entity) -> bool {
    MIN_X <= e.x <= MAX_X && -1 <= e.y <= DESPAWN_ROW
}

/// Every entity of the collection is live (see [`entity_ok`]).
pub open spec fn all_ok(es: Seq<Entity>) -> bool {
    forall|i: int| 0 <= i < es.len() ==> entity_ok(es[i])
}

/// Rows stay small enough that one further descent cannot overflow.  Holds of
/// every live collection and still holds right after a descent.
pub open spec fn rows_bounded(es: Seq<Entity>) -> bool {
    forall|i: int| 0 <= i < es.len() ==> es[i].y <= DESPAWN_ROW + 1
}

/// The two independent enemy collections.  Removal is by position value, not
/// by identity across ticks; order only records spawn order.
pub struct EnemyField {
    pub ships: Vec<Entity>,
    pub rocks: Vec<Entity>,
}

/// Relies on `rand::random_range` (with the thread-local generator): on a
/// non-empty integer range `lo..hi` it returns a uniformly sampled value of
/// the range; it panics only on an empty range, which the precondition
/// rules out.
#[verifier::external_body]
fn random_column(lo: i64, hi: i64) -> (r: i64)
    requires
        lo < hi,
    ensures
        lo <= r < hi,
{
    rand::random_range(lo..hi)
}

impl EnemyField {
    /// Both collections hold live entities only.
    pub open spec fn wf(&self) -> bool {
        all_ok(self.ships@) && all_ok(self.rocks@)
    }

    /// An empty field: no enemy ships, no rocks.
    pub fn new() -> (r: EnemyField)
        ensures
            r.ships@ == Seq::<Entity>::empty(),
            r.rocks@ == Seq::<Entity>::empty(),
            r.wf(),
    {
        EnemyField { ships: Vec::new(), rocks: Vec::new() }
    }

    /// Spawn one enemy ship at a random playable column, one row above the
    /// visible field, so that it enters by descending.
    pub fn spawn_ship(&mut self)
        ensures
            final(self).ships@.len() == old(self).ships@.len() + 1,
            final(self).ships@ == old(self).ships@.push(final(self).ships@.last()),
            final(self).ships@.last().y == -1,
            MIN_X <= final(self).ships@.last().x <= MAX_X,
            final(self).rocks@ == old(self).rocks@,
            old(self).wf() ==> final(self).wf(),
    {
        let c = random_column(MIN_X, MAX_X + 1);
        self.ships.push(Entity { x: c, y: -1 });
        proof {
            assert(all_ok(old(self).ships@) ==> all_ok(self.ships@)) by {
                if all_ok(old(self).ships@) {
                    assert(forall|i: int|
                        0 <= i < self.ships@.len() ==> entity_ok(#[trigger] self.ships@[i]));
                }
            }
        }
    }

    /// Spawn one rock at the given column (the player's column at spawn
    /// time), one row above the visible field.
    pub fn spawn_rock(&mut self, x: i64)
        requires
            MIN_X <= x <= MAX_X,
        ensures
            final(self).rocks@ == old(self).rocks@.push((Entity { x: x, y: -1i64 })),
            final(self).ships@ == old(self).ships@,
            old(self).wf() ==> final(self).wf(),
    {
        self.rocks.push(Entity { x: x, y: -1 });
        proof {
            assert(all_ok(old(self).rocks@) ==> all_ok(self.rocks@)) by {
                if all_ok(old(self).rocks@) {
                    assert(forall|i: int|
                        0 <= i < self.rocks@.len() ==> entity_ok(#[trigger] self.rocks@[i]));
                }
            }
        }
    }

    /// Clear both collections.
    pub fn restart(&mut self)
        ensures
            final(self).ships@ == Seq::<Entity>::empty(),
            final(self).rocks@ == Seq::<Entity>::empty(),
            final(self).wf(),
    {
        self.ships.clear();
        self.rocks.clear();
    }

    /// Read-only view of the enemy-ship positions, for the renderer.
    pub fn ship_positions(&self) -> (r: Vec<Coord>)
        ensures
            r@.len() == self.ships@.len(),
            forall|i: int| 0 <= i < r@.len() ==> r@[i] == entity_pos(self.ships@[i]),
    {
        positions_of(&self.ships)
    }

    /// Read-only view of the rock positions, for the renderer.
    pub fn rock_positions(&self) -> (r: Vec<Coord>)
        ensures
            r@.len() == self.rocks@.len(),
            forall|i: int| 0 <= i < r@.len() ==> r@[i] == entity_pos(self.rocks@[i]),
    {
        positions_of(&self.rocks)
    }
}

/// The coordinates of all entities of a collection, in order.
fn positions_of(es: &Vec<Entity>) -> (r: Vec<Coord>)
    ensures
        r@.len() == es@.len(),
        forall|i: int| 0 <= i < r@.len() ==> r@[i] == entity_pos(es@[i]),
{
    let mut r: Vec<Coord> = Vec::new();
    let mut i: usize = 0;
    while i < es.len()
        invariant
            i <= es@.len(),
            r@.len() == i,
            forall|k: int| 0 <= k < i ==> r@[k] == entity_pos(es@[k]),
        decreases es@.len() - i,
    {
        r.push((es[i].x, es[i].y));
        i = i + 1;
    }
    r
}

} // verus!
