//! Position-based collision resolution: the tolerance rule, the per-tick
//! sweep of the player's bullets over the enemy field, the player checks
//! before and after the descent, and the despawn pass.  The outcome of one
//! whole pass is pinned by [`resolve_spec`].

use vstd::prelude::*;

use crate::bullet::{bullet_pos, Bullet};
use crate::enemy::{all_ok, entity_ok, rows_bounded, EnemyField, Entity};
use crate::grid::{Coord, DESPAWN_ROW, MAX_X, MIN_X};

verus! {

/// The tolerance rule: a probe coordinate strikes an entity when they share a
/// column and the probe sits on the entity's row or one row below it — the
/// row the entity is about to descend into.
pub open spec fn cell_hit(e: Entity, q: Coord) -> bool {
    e.x == q.0 && (q.1 == e.y || q.1 == e.y + 1)
}

/// Whether the probe strikes some entity of the collection.
pub open spec fn any_hit(es: Seq<Entity>, q: Coord) -> bool {
    exists|i: int| 0 <= i < es.len() && cell_hit(es[i], q)
}

/// The collection with the first entity struck by the probe removed;
/// unchanged when none is struck.
pub open spec fn strike_first(es: Seq<Entity>, q: Coord) -> Seq<Entity>
    decreases es.len(),
{
    if es.len() == 0 {
        es
    } else if cell_hit(es[0], q) {
        es.drop_first()
    } else {
        seq![es[0]] + strike_first(es.drop_first(), q)
    }
}

/// How many entries of a hit list equal the given coordinate.
pub open spec fn hit_count(hits: Seq<Coord>, q: Coord) -> nat
    decreases hits.len(),
{
    if hits.len() == 0 {
        0
    } else {
        hit_count(hits.drop_last(), q) + if hits.last() == q {
            1nat
        } else {
            0nat
        }
    }
}

/// Whether a coordinate appears in a hit list.
pub open spec fn listed(hits: Seq<Coord>, q: Coord) -> bool {
    hit_count(hits, q) > 0
}

/// All entities one row further down.
pub open spec fn descended(es: Seq<Entity>) -> Seq<Entity> {
    Seq::new(es.len(), |i: int| Entity { x: es[i].x, y: (es[i].y + 1) as i64 })
}

/// The entities still above the despawn line, in order.
pub open spec fn on_field(es: Seq<Entity>) -> Seq<Entity>
    decreases es.len(),
{
    if es.len() == 0 {
        es
    } else {
        let rest = on_field(es.drop_last());
        if es.last().y <= DESPAWN_ROW {
            rest.push(es.last())
        } else {
            rest
        }
    }
}

/// The bullet sweep of a resolution pass: each bullet is probed in fire
/// order, first against the ships, then against the rocks.  A bullet whose
/// coordinate is already on the hit list is suppressed; a struck ship is
/// removed at once; a struck rock persists.  Returns the remaining ships and
/// the grown hit list.
pub open spec fn sweep(
    shots: Seq<Bullet>,
    ships: Seq<Entity>,
    rocks: Seq<Entity>,
    hits: Seq<Coord>,
) -> (Seq<Entity>, Seq<Coord>)
    decreases shots.len(),
{
    if shots.len() == 0 {
        (ships, hits)
    } else {
        let q = bullet_pos(shots[0]);
        let rest = shots.drop_first();
        if listed(hits, q) {
            sweep(rest, ships, rocks, hits)
        } else if any_hit(ships, q) {
            sweep(rest, strike_first(ships, q), rocks, hits.push(q))
        } else if any_hit(rocks, q) {
            sweep(rest, ships, rocks, hits.push(q))
        } else {
            sweep(rest, ships, rocks, hits)
        }
    }
}

/// The player check of a resolution pass: when the player's cell strikes a
/// ship or a rock, the player's own coordinate is appended to the hit list.
/// The field itself is untouched — only a bullet match destroys a ship.
pub open spec fn player_checked(
    ships: Seq<Entity>,
    rocks: Seq<Entity>,
    p: Coord,
    hits: Seq<Coord>,
) -> Seq<Coord> {
    if any_hit(ships, p) || any_hit(rocks, p) {
        hits.push(p)
    } else {
        hits
    }
}

/// One whole resolution pass: the bullet sweep, the player check, then — on
/// a timed tick (`descend`) — the descent of the whole field followed by a
/// second player check (the same ship can hit the player's cell a second
/// time after moving), and finally the despawn pass on both collections.
/// Returns the ships and rocks left and the full hit list of the pass.
pub open spec fn resolve_spec(
    ships: Seq<Entity>,
    rocks: Seq<Entity>,
    shots: Seq<Bullet>,
    p: Coord,
    descend: bool,
) -> (Seq<Entity>, Seq<Entity>, Seq<Coord>) {
    let swept = sweep(shots, ships, rocks, Seq::empty());
    let hits1 = player_checked(swept.0, rocks, p, swept.1);
    if descend {
        let ships2 = descended(swept.0);
        let rocks2 = descended(rocks);
        let hits2 = player_checked(ships2, rocks2, p, hits1);
        (on_field(ships2), on_field(rocks2), hits2)
    } else {
        (on_field(swept.0), on_field(rocks), hits1)
    }
}

/// A hit list never counts a coordinate more often than its length.
pub proof fn lemma_hit_count_le(hits: Seq<Coord>, q: Coord)
    ensures
        hit_count(hits, q) <= hits.len(),
    decreases hits.len(),
{
    if hits.len() > 0 {
        lemma_hit_count_le(hits.drop_last(), q);
    }
}

/// Striking keeps every remaining entity a member of the original
/// collection, so any per-entity property survives.
pub proof fn lemma_strike_first_preserves(es: Seq<Entity>, q: Coord, pred: spec_fn(Entity) -> bool)
    requires
        forall|i: int| 0 <= i < es.len() ==> pred(#[trigger] es[i]),
    ensures
        forall|i: int|
            0 <= i < strike_first(es, q).len() ==> pred(#[trigger] strike_first(es, q)[i]),
    decreases es.len(),
{
    if es.len() > 0 {
        if cell_hit(es[0], q) {
        } else {
            assert(forall|i: int|
                0 <= i < es.drop_first().len() ==> pred(#[trigger] es.drop_first()[i]));
            lemma_strike_first_preserves(es.drop_first(), q, pred);
            let out = seq![es[0]] + strike_first(es.drop_first(), q);
            assert(forall|i: int| 0 <= i < out.len() ==> pred(#[trigger] out[i])) by {
                assert(out[0] == es[0]);
                assert(forall|i: int|
                    1 <= i < out.len() ==> out[i] == strike_first(es.drop_first(), q)[i - 1]);
            }
        }
    }
}

/// When the first struck entity stands at index `i`, striking is exactly the
/// removal of index `i`.
pub proof fn lemma_strike_first_at(es: Seq<Entity>, q: Coord, i: int)
    requires
        0 <= i < es.len(),
        cell_hit(es[i], q),
        forall|k: int| 0 <= k < i ==> !cell_hit(#[trigger] es[k], q),
    ensures
        strike_first(es, q) == es.remove(i),
        any_hit(es, q),
    decreases es.len(),
{
    if i == 0 {
        assert(strike_first(es, q) =~= es.remove(0));
    } else {
        assert(forall|k: int| 0 <= k < i - 1 ==> !cell_hit(#[trigger] es.drop_first()[k], q));
        assert(es.drop_first()[i - 1] == es[i]);
        lemma_strike_first_at(es.drop_first(), q, i - 1);
        assert(seq![es[0]] + es.drop_first().remove(i - 1) =~= es.remove(i));
    }
}

/// When nothing is struck, striking changes nothing.
pub proof fn lemma_strike_first_none(es: Seq<Entity>, q: Coord)
    requires
        forall|k: int| 0 <= k < es.len() ==> !cell_hit(#[trigger] es[k], q),
    ensures
        strike_first(es, q) == es,
        !any_hit(es, q),
    decreases es.len(),
{
    if es.len() > 0 {
        assert(forall|k: int| 0 <= k < es.drop_first().len() ==> !cell_hit(
            #[trigger] es.drop_first()[k],
            q,
        ));
        lemma_strike_first_none(es.drop_first(), q);
        assert(seq![es[0]] + es.drop_first() =~= es);
    }
}

/// The despawn pass keeps every entity a member of the original collection,
/// so any per-entity property survives.
pub proof fn lemma_on_field_preserves(es: Seq<Entity>, pred: spec_fn(Entity) -> bool)
    requires
        forall|i: int| 0 <= i < es.len() ==> pred(#[trigger] es[i]),
    ensures
        forall|i: int| 0 <= i < on_field(es).len() ==> pred(#[trigger] on_field(es)[i]),
    decreases es.len(),
{
    if es.len() > 0 {
        assert(forall|i: int| 0 <= i < es.drop_last().len() ==> pred(#[trigger] es.drop_last()[i]));
        lemma_on_field_preserves(es.drop_last(), pred);
        let rest = on_field(es.drop_last());
        if es.last().y <= DESPAWN_ROW {
            assert(forall|i: int|
                0 <= i < on_field(es).len() ==> on_field(es)[i] == if i < rest.len() {
                    rest[i]
                } else {
                    es.last()
                });
        }
    }
}

/// How many entries of the hit list equal the coordinate.
pub fn coord_count(hits: &Vec<Coord>, q: Coord) -> (r: usize)
    ensures
        r == hit_count(hits@, q),
{
    let mut r: usize = 0;
    let mut i: usize = 0;
    while i < hits.len()
        invariant
            i <= hits@.len(),
            r == hit_count(hits@.take(i as int), q),
            r <= i,
        decreases hits@.len() - i,
    {
        proof {
            assert(hits@.take(i + 1).drop_last() =~= hits@.take(i as int));
            assert(hits@.take(i + 1).last() == hits@[i as int]);
        }
        if hits[i].0 == q.0 && hits[i].1 == q.1 {
            proof {
                assert(hits@[i as int] == q);
            }
            r = r + 1;
        } else {
            proof {
                assert(hits@[i as int] != q);
            }
        }
        i = i + 1;
    }
    proof {
        assert(hits@.take(hits@.len() as int) =~= hits@);
    }
    r
}

impl EnemyField {
    /// Probe the enemy ships with one bullet coordinate: report whether any
    /// ship is struck and remove the first one that is.  Only the bullet
    /// sweep destroys ships, so only it calls this.
    #[verifier::loop_isolation(false)]
    fn strike(&mut self, q: Coord) -> (r: bool)
        requires
            rows_bounded(old(self).ships@),
        ensures
            r == any_hit(old(self).ships@, q),
            final(self).ships@ == strike_first(old(self).ships@, q),
            !r ==> final(self).ships@ == old(self).ships@,
            final(self).rocks@ == old(self).rocks@,
            rows_bounded(final(self).ships@),
            all_ok(old(self).ships@) ==> all_ok(final(self).ships@),
    {
        let ghost orig = self.ships@;
        let mut i: usize = 0;
        while i < self.ships.len()
            invariant
                self.ships@ == orig,
                self.rocks@ == old(self).rocks@,
                rows_bounded(orig),
                i <= orig.len(),
                forall|k: int| 0 <= k < i ==> !cell_hit(#[trigger] orig[k], q),
            decreases orig.len() - i,
        {
            let e = self.ships[i];
            if e.x == q.0 && (q.1 == e.y || q.1 == e.y + 1) {
                proof {
                    assert(cell_hit(orig[i as int], q));
                    lemma_strike_first_at(orig, q, i as int);
                    lemma_strike_first_preserves(orig, q, |en: Entity| en.y <= DESPAWN_ROW + 1);
                    if all_ok(orig) {
                        lemma_strike_first_preserves(orig, q, |en: Entity| entity_ok(en));
                    }
                }
                self.ships.remove(i);
                return true;
            }
            proof {
                assert(!cell_hit(orig[i as int], q));
            }
            i = i + 1;
        }
        proof {
            lemma_strike_first_none(orig, q);
        }
        false
    }
}

/// Every entity one row further down, as a fresh collection.
#[verifier::loop_isolation(false)]
fn descend_all(es: &Vec<Entity>) -> (r: Vec<Entity>)
    requires
        rows_bounded(es@),
    ensures
        r@ == descended(es@),
        all_ok(es@) ==> rows_bounded(r@) && (forall|i: int|
            0 <= i < r@.len() ==> 0 <= #[trigger] r@[i].y),
{
    let mut r: Vec<Entity> = Vec::new();
    let mut i: usize = 0;
    while i < es.len()
        invariant
            i <= es@.len(),
            r@.len() == i,
            forall|k: int| 0 <= k < i ==> r@[k] == descended(es@)[k],
        decreases es@.len() - i,
    {
        let e = es[i];
        r.push(Entity { x: e.x, y: e.y + 1 });
        i = i + 1;
    }
    proof {
        assert(r@ =~= descended(es@));
    }
    r
}

/// The entities still above the despawn line, as a fresh collection.
#[verifier::loop_isolation(false)]
fn retain_on_field(es: &Vec<Entity>) -> (r: Vec<Entity>)
    ensures
        r@ == on_field(es@),
        forall|i: int| 0 <= i < r@.len() ==> #[trigger] r@[i].y <= DESPAWN_ROW,
{
    let mut r: Vec<Entity> = Vec::new();
    let mut i: usize = 0;
    while i < es.len()
        invariant
            i <= es@.len(),
            r@ == on_field(es@.take(i as int)),
            forall|k: int| 0 <= k < r@.len() ==> #[trigger] r@[k].y <= DESPAWN_ROW,
        decreases es@.len() - i,
    {
        proof {
            assert(es@.take(i + 1).drop_last() =~= es@.take(i as int));
            assert(es@.take(i + 1).last() == es@[i as int]);
        }
        let e = es[i];
        if e.y <= DESPAWN_ROW {
            r.push(e);
        }
        i = i + 1;
    }
    proof {
        assert(es@.take(es@.len() as int) =~= es@);
    }
    r
}

impl EnemyField {
    /// Advance the whole field: on a timed tick (`descend`) every ship and
    /// rock moves one row down; on an input-driven step nothing moves.
    pub fn tick_positions(&mut self, descend: bool)
        requires
            old(self).wf(),
        ensures
            descend ==> final(self).ships@ == descended(old(self).ships@) && final(self).rocks@
                == descended(old(self).rocks@),
            !descend ==> *final(self) == *old(self),
    {
        if descend {
            proof {
                assert(rows_bounded(self.ships@)) by {
                    assert(forall|i: int|
                        0 <= i < self.ships@.len() ==> entity_ok(#[trigger] self.ships@[i]));
                }
                assert(rows_bounded(self.rocks@)) by {
                    assert(forall|i: int|
                        0 <= i < self.rocks@.len() ==> entity_ok(#[trigger] self.rocks@[i]));
                }
            }
            let ds = descend_all(&self.ships);
            self.ships = ds;
            let dr = descend_all(&self.rocks);
            self.rocks = dr;
        }
    }

    /// One whole collision-resolution pass for a step: probe every player
    /// bullet against ships then rocks, probe the player's own cell, on a
    /// timed tick (`descend`) move the whole field one row down and probe the
    /// player's cell again, then despawn everything past the bottom line.
    /// Returns the list of world coordinates struck this step, exactly as
    /// [`resolve_spec`] pins it.
    #[verifier::loop_isolation(false)]
    pub fn resolve(&mut self, p: Coord, shots: &Vec<Bullet>, descend: bool) -> (hits: Vec<Coord>)
        requires
            old(self).wf(),
        ensures
            (final(self).ships@, final(self).rocks@, hits@) == resolve_spec(
                old(self).ships@,
                old(self).rocks@,
                shots@,
                p,
                descend,
            ),
            hits@.len() <= shots@.len() + 2,
            final(self).wf(),
    {
        let ghost ships0 = self.ships@;
        let ghost rocks0 = self.rocks@;
        proof {
            assert(rows_bounded(ships0)) by {
                assert(forall|i: int| 0 <= i < ships0.len() ==> entity_ok(#[trigger] ships0[i]));
            }
            assert(rows_bounded(rocks0)) by {
                assert(forall|i: int| 0 <= i < rocks0.len() ==> entity_ok(#[trigger] rocks0[i]));
            }
            assert(shots@.skip(0) =~= shots@);
        }
        let mut hits: Vec<Coord> = Vec::new();
        let mut i: usize = 0;
        while i < shots.len()
            invariant
                i <= shots@.len(),
                self.rocks@ == rocks0,
                hits@.len() <= i,
                rows_bounded(self.ships@),
                all_ok(self.ships@),
                sweep(shots@, ships0, rocks0, Seq::empty()) == sweep(
                    shots@.skip(i as int),
                    self.ships@,
                    rocks0,
                    hits@,
                ),
            decreases shots@.len() - i,
        {
            let q = shots[i].pos();
            let ghost pre_ships = self.ships@;
            let ghost pre_hits = hits@;
            proof {
                assert(shots@.skip(i as int).drop_first() =~= shots@.skip(i + 1));
                assert(shots@.skip(i as int)[0] == shots@[i as int]);
            }
            let c = coord_count(&hits, q);
            if c == 0 {
                if self.strike(q) {
                    hits.push(q);
                } else if any_struck(&self.rocks, q) {
                    hits.push(q);
                }
            }
            proof {
                assert(sweep(shots@.skip(i as int), pre_ships, rocks0, pre_hits) == sweep(
                    shots@.skip(i + 1),
                    self.ships@,
                    rocks0,
                    hits@,
                ));
            }
            i = i + 1;
        }
        proof {
            assert(shots@.skip(shots@.len() as int) =~= Seq::<Bullet>::empty());
        }
        let ghost swept = sweep(shots@, ships0, rocks0, Seq::empty());
        proof {
            assert(swept == (self.ships@, hits@));
        }
        if any_struck(&self.ships, p) || any_struck(&self.rocks, p) {
            hits.push(p);
        }
        let ghost hits1 = player_checked(swept.0, rocks0, p, swept.1);
        proof {
            assert(hits1 == hits@);
        }
        if descend {
            let ghost live = |e: Entity| MIN_X <= e.x <= MAX_X && 0 <= e.y;
            self.tick_positions(true);
            proof {
                assert(self.ships@ == descended(swept.0));
                assert(self.rocks@ == descended(rocks0));
                assert(forall|k: int|
                    0 <= k < self.ships@.len() ==> live(#[trigger] self.ships@[k])) by {
                    assert(forall|k: int|
                        0 <= k < swept.0.len() ==> entity_ok(#[trigger] swept.0[k]));
                }
                assert(forall|k: int|
                    0 <= k < self.rocks@.len() ==> live(#[trigger] self.rocks@[k])) by {
                    assert(forall|k: int|
                        0 <= k < rocks0.len() ==> entity_ok(#[trigger] rocks0[k]));
                }
                assert(rows_bounded(self.ships@)) by {
                    assert(forall|k: int|
                        0 <= k < swept.0.len() ==> entity_ok(#[trigger] swept.0[k]));
                }
                assert(rows_bounded(self.rocks@)) by {
                    assert(forall|k: int|
                        0 <= k < rocks0.len() ==> entity_ok(#[trigger] rocks0[k]));
                }
            }
            let ghost ships2 = self.ships@;
            let ghost rocks2 = self.rocks@;
            if any_struck(&self.ships, p) || any_struck(&self.rocks, p) {
                hits.push(p);
            }
            proof {
                assert(hits@ == player_checked(ships2, rocks2, p, hits1));
            }
            let ns = retain_on_field(&self.ships);
            self.ships = ns;
            let nr = retain_on_field(&self.rocks);
            self.rocks = nr;
            proof {
                lemma_on_field_preserves(ships2, live);
                lemma_on_field_preserves(rocks2, live);
                assert(all_ok(self.ships@)) by {
                    assert(forall|k: int|
                        0 <= k < self.ships@.len() ==> live(#[trigger] self.ships@[k]));
                }
                assert(all_ok(self.rocks@)) by {
                    assert(forall|k: int|
                        0 <= k < self.rocks@.len() ==> live(#[trigger] self.rocks@[k]));
                }
            }
        } else {
            let ns = retain_on_field(&self.ships);
            self.ships = ns;
            let nr = retain_on_field(&self.rocks);
            self.rocks = nr;
            proof {
                let ghost ok = |e: Entity| entity_ok(e);
                assert(forall|k: int| 0 <= k < swept.0.len() ==> ok(#[trigger] swept.0[k]));
                assert(forall|k: int| 0 <= k < rocks0.len() ==> ok(#[trigger] rocks0[k]));
                lemma_on_field_preserves(swept.0, ok);
                lemma_on_field_preserves(rocks0, ok);
                assert(all_ok(self.ships@)) by {
                    assert(forall|k: int|
                        0 <= k < self.ships@.len() ==> ok(#[trigger] self.ships@[k]));
                }
                assert(all_ok(self.rocks@)) by {
                    assert(forall|k: int|
                        0 <= k < self.rocks@.len() ==> ok(#[trigger] self.rocks@[k]));
                }
            }
        }
        hits
    }
}

/// Whether the probe strikes any entity of the collection, changing
/// nothing: rocks persist when struck, and the player probes only observe
/// the field.
fn any_struck(es: &Vec<Entity>, q: Coord) -> (r: bool)
    requires
        rows_bounded(es@),
    ensures
        r == any_hit(es@, q),
{
    let mut i: usize = 0;
    while i < es.len()
        invariant
            i <= es@.len(),
            rows_bounded(es@),
            forall|k: int| 0 <= k < i ==> !cell_hit(#[trigger] es@[k], q),
        decreases es@.len() - i,
    {
        let e = es[i];
        if e.x == q.0 && (q.1 == e.y || q.1 == e.y + 1) {
            proof {
                assert(cell_hit(es@[i as int], q));
            }
            return true;
        }
        proof {
            assert(!cell_hit(es@[i as int], q));
        }
        i = i + 1;
    }
    false
}

} // verus!
