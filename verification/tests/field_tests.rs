//! Collision-resolution scenarios on the enemy field.

use galaga::bullet::Bullet;
use galaga::enemy::{EnemyField, Entity};
use galaga::player::Ship;

fn empty_field() -> EnemyField {
    EnemyField { ships: Vec::new(), rocks: Vec::new() }
}

#[test]
fn bullet_on_ship_cell_scores_and_removes_ship() {
    let mut field = empty_field();
    field.ships.push(Entity { x: 10, y: 5 });
    let mut player = Ship { x: 10, y: 26, shots: vec![Bullet { x: 10, y: 5 }] };

    let hits = field.resolve((10, 26), &player.shots, false);

    assert_eq!(hits, vec![(10, 5)]);
    assert!(field.ships.is_empty());

    let (destroyed, delta) = player.resolve_hits(&hits);
    assert!(!destroyed);
    assert_eq!(delta, 25);
    assert!(player.shots.is_empty());
}

#[test]
fn bullet_one_row_below_ship_still_hits() {
    // The tolerance rule: the bullet sits in the cell the ship is about to
    // descend into.
    let mut field = empty_field();
    field.ships.push(Entity { x: 10, y: 5 });
    let shots = vec![Bullet { x: 10, y: 6 }];

    let hits = field.resolve((10, 26), &shots, false);

    assert_eq!(hits, vec![(10, 6)]);
    assert!(field.ships.is_empty());
}

#[test]
fn bullet_two_rows_below_ship_misses() {
    let mut field = empty_field();
    field.ships.push(Entity { x: 10, y: 5 });
    let shots = vec![Bullet { x: 10, y: 7 }];

    let hits = field.resolve((10, 26), &shots, false);

    assert!(hits.is_empty());
    assert_eq!(field.ships.len(), 1);
}

#[test]
fn struck_rock_persists() {
    let mut field = empty_field();
    field.rocks.push(Entity { x: 7, y: 12 });
    let shots = vec![Bullet { x: 7, y: 12 }];

    let hits = field.resolve((10, 26), &shots, false);

    assert_eq!(hits, vec![(7, 12)]);
    assert_eq!(field.rocks.len(), 1);
    assert_eq!(field.rocks[0].x, 7);
    assert_eq!(field.rocks[0].y, 12);
}

#[test]
fn ship_descending_onto_player_is_fatal() {
    // The enemy stands one row above the player and is about to descend onto
    // the player's exact cell.
    let mut field = empty_field();
    field.ships.push(Entity { x: 10, y: 25 });
    let mut player = Ship { x: 10, y: 26, shots: Vec::new() };

    let hits = field.resolve((10, 26), &player.shots, true);

    // The player's cell is struck before the descent (the ship is about to
    // occupy it) and again after; only bullets destroy ships, so the ship
    // survives on the player's cell.
    assert_eq!(hits, vec![(10, 26), (10, 26)]);
    assert_eq!(field.ships.len(), 1);
    assert_eq!(field.ships[0].x, 10);
    assert_eq!(field.ships[0].y, 26);
    let (destroyed, delta) = player.resolve_hits(&hits);
    assert!(destroyed);
    assert_eq!(delta, 0);
}

#[test]
fn player_collision_does_not_remove_the_ship() {
    // An input-driven step: the player probe appends the player's coordinate
    // but changes no positions and removes nothing.
    let mut field = empty_field();
    field.ships.push(Entity { x: 10, y: 25 });
    let shots: Vec<Bullet> = Vec::new();

    let hits = field.resolve((10, 26), &shots, false);

    assert_eq!(hits, vec![(10, 26)]);
    assert_eq!(field.ships.len(), 1);
    assert_eq!(field.ships[0].x, 10);
    assert_eq!(field.ships[0].y, 25);
}

#[test]
fn ship_past_despawn_line_is_removed() {
    let mut field = empty_field();
    field.ships.push(Entity { x: 5, y: 26 });
    let shots: Vec<Bullet> = Vec::new();

    let hits = field.resolve((10, 10), &shots, true);

    assert!(hits.is_empty());
    assert!(field.ships.is_empty());
}

#[test]
fn descent_moves_every_entity_one_row() {
    let mut field = empty_field();
    field.ships.push(Entity { x: 4, y: 2 });
    field.rocks.push(Entity { x: 9, y: 7 });
    let shots: Vec<Bullet> = Vec::new();

    let hits = field.resolve((10, 26), &shots, true);

    assert!(hits.is_empty());
    assert_eq!(field.ships[0].y, 3);
    assert_eq!(field.rocks[0].y, 8);
}

#[test]
fn no_descent_on_input_step() {
    let mut field = empty_field();
    field.ships.push(Entity { x: 4, y: 2 });
    let shots: Vec<Bullet> = Vec::new();

    let hits = field.resolve((10, 26), &shots, false);

    assert!(hits.is_empty());
    assert_eq!(field.ships[0].y, 2);
}

#[test]
fn one_bullet_removes_only_first_matching_ship() {
    let mut field = empty_field();
    field.ships.push(Entity { x: 10, y: 5 });
    field.ships.push(Entity { x: 10, y: 5 });
    let shots = vec![Bullet { x: 10, y: 5 }];

    let hits = field.resolve((10, 26), &shots, false);

    assert_eq!(hits, vec![(10, 5)]);
    assert_eq!(field.ships.len(), 1);
}

#[test]
fn second_bullet_on_same_cell_is_suppressed() {
    // Two bullets on one cell: the second probe of that coordinate is
    // suppressed for the step, so only one ship is removed.
    let mut field = empty_field();
    field.ships.push(Entity { x: 10, y: 5 });
    field.ships.push(Entity { x: 10, y: 5 });
    let shots = vec![Bullet { x: 10, y: 5 }, Bullet { x: 10, y: 5 }];

    let hits = field.resolve((10, 26), &shots, false);

    assert_eq!(hits, vec![(10, 5)]);
    assert_eq!(field.ships.len(), 1);
}

#[test]
fn ship_is_probed_before_rock_on_shared_cell() {
    // First match wins: the bullet strikes the ship, contributes one hit
    // entry, and the rock on the same cell is left unprobed.
    let mut field = empty_field();
    field.ships.push(Entity { x: 10, y: 5 });
    field.rocks.push(Entity { x: 10, y: 5 });
    let shots = vec![Bullet { x: 10, y: 5 }];

    let hits = field.resolve((10, 26), &shots, false);

    assert_eq!(hits, vec![(10, 5)]);
    assert!(field.ships.is_empty());
    assert_eq!(field.rocks.len(), 1);
}

#[test]
fn rock_past_despawn_line_is_removed() {
    let mut field = empty_field();
    field.rocks.push(Entity { x: 5, y: 26 });
    let shots: Vec<Bullet> = Vec::new();

    let hits = field.resolve((10, 10), &shots, true);

    assert!(hits.is_empty());
    assert!(field.rocks.is_empty());
}

#[test]
fn spawned_ships_enter_above_the_field_in_playable_columns() {
    let mut field = empty_field();
    for _ in 0..200 {
        field.spawn_ship();
    }
    assert_eq!(field.ships.len(), 200);
    for e in &field.ships {
        assert_eq!(e.y, -1);
        assert!(1 <= e.x && e.x <= 18);
    }
    // A constant generator would be vanishingly unlikely to survive this.
    let first = field.ships[0].x;
    assert!(field.ships.iter().any(|e| e.x != first));
}

#[test]
fn spawned_rock_takes_given_column() {
    let mut field = empty_field();
    field.spawn_rock(10);
    assert_eq!(field.rocks.len(), 1);
    assert_eq!(field.rocks[0].x, 10);
    assert_eq!(field.rocks[0].y, -1);
}

#[test]
fn field_restart_clears_both_collections() {
    let mut field = empty_field();
    field.spawn_rock(3);
    field.spawn_ship();
    field.restart();
    assert!(field.ships.is_empty());
    assert!(field.rocks.is_empty());
}
