//! A projectile fired by the player: an integer grid position that rises one
//! row per timed tick and disappears once it leaves the top of the field.

use vstd::prelude::*;

use crate::grid::Coord;

verus! {

/// One live projectile, owned by the firing ship.
#[derive(Clone, Copy, PartialEq, Eq, Structural, Debug)]
pub struct Bullet {
    pub x: i64,
    pub y: i64,
}

/// The world coordinate a bullet occupies.
pub open spec fn bullet_pos(b: Bullet) -> Coord {
    (b.x, b.y)
}

/// One timed tick applied to a whole volley: every bullet rises one row and
/// any bullet that would leave the field (`y < 0`) is dropped.  Order of the
/// survivors is preserved.
pub open spec fn advanced(shots: Seq<Bullet>) -> Seq<Bullet>
    decreases shots.len(),
{
    if shots.len() == 0 {
        Seq::empty()
    } else {
        let rest = advanced(shots.drop_last());
        let b = shots.last();
        if b.y >= 1 {
            rest.push(Bullet { x: b.x, y: (b.y - 1) as i64 })
        } else {
            rest
        }
    }
}

/// A risen volley is never longer than the volley it came from.
pub proof fn lemma_advanced_len(shots: Seq<Bullet>)
    ensures
        advanced(shots).len() <= shots.len(),
    decreases shots.len(),
{
    if shots.len() > 0 {
        lemma_advanced_len(shots.drop_last());
    }
}

/// Rising keeps every surviving bullet on the field (`y >= 0`).
pub proof fn lemma_advanced_on_field(shots: Seq<Bullet>)
    ensures
        forall|i: int| 0 <= i < advanced(shots).len() ==> advanced(shots)[i].y >= 0,
    decreases shots.len(),
{
    if shots.len() > 0 {
        lemma_advanced_on_field(shots.drop_last());
        let rest = advanced(shots.drop_last());
        let b = shots.last();
        if b.y >= 1 {
            assert(forall|i: int|
                0 <= i < advanced(shots).len() ==> advanced(shots)[i] == if i < rest.len() {
                    rest[i]
                } else {
                    (Bullet { x: b.x, y: (b.y - 1) as i64 })
                });
        }
    }
}

impl Bullet {
    /// The bullet's position as a `(column, row)` pair.
    pub fn pos(&self) -> (r: Coord)
        ensures
            r == bullet_pos(*self),
    {
        (self.x, self.y)
    }
}

} // verus!
