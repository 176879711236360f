//! Whole-playthrough scenarios: spawn schedules, tick order, scoring,
//! game-over and restart.

use galaga::bullet::Bullet;
use galaga::enemy::Entity;
use galaga::player::Intent;
use galaga::session::{rock_spawn_quota, spawn_quota, GameSession, SPAWN_RATE};

#[test]
fn spawn_quota_is_clamped_between_one_and_five() {
    assert_eq!(spawn_quota(0, SPAWN_RATE), 1);
    assert_eq!(spawn_quota(399_999, SPAWN_RATE), 1);
    assert_eq!(spawn_quota(400_000, SPAWN_RATE), 2);
    assert_eq!(spawn_quota(899_999, SPAWN_RATE), 2);
    assert_eq!(spawn_quota(900_000, SPAWN_RATE), 3);
    assert_eq!(spawn_quota(1_600_000, SPAWN_RATE), 4);
    assert_eq!(spawn_quota(2_499_999, SPAWN_RATE), 4);
    assert_eq!(spawn_quota(2_500_000, SPAWN_RATE), 5);
    assert_eq!(spawn_quota(u64::MAX, SPAWN_RATE), 5);
}

#[test]
fn rock_schedule_follows_both_periods() {
    assert_eq!(rock_spawn_quota(0), 0);
    assert_eq!(rock_spawn_quota(63), 1); // 63 % 7 == 0 and 63 > 60
    assert_eq!(rock_spawn_quota(240), 0); // 240 % 3 == 0 but not past 240
    assert_eq!(rock_spawn_quota(241), 0);
    assert_eq!(rock_spawn_quota(243), 1); // 243 % 3 == 0 and 243 > 240
    assert_eq!(rock_spawn_quota(252), 2); // both periods at once
}

#[test]
fn tick_at_243_spawns_one_rock_in_the_player_column() {
    let mut session = GameSession::new();
    session.ticks = 243;
    session.tick();
    // The new rock entered at (10, -1) and descended with the field.
    assert_eq!(session.field.rocks.len(), 1);
    assert_eq!(session.field.rocks[0].x, 10);
    assert_eq!(session.field.rocks[0].y, 0);
    assert_eq!(session.ticks, 244);
}

#[test]
fn tick_at_63_spawns_one_rock() {
    let mut session = GameSession::new();
    session.ticks = 63;
    session.tick();
    assert_eq!(session.field.rocks.len(), 1);
    assert_eq!(session.field.rocks[0].x, 10);
}

#[test]
fn fired_bullet_rises_over_two_ticks() {
    let mut session = GameSession::new();
    let r = session.on_input(Intent::Fire);
    assert_eq!(r, (false, false));
    assert_eq!(session.player.bullet_positions(), vec![(10, 25)]);
    session.tick();
    session.tick();
    assert_eq!(session.player.bullet_positions(), vec![(10, 23)]);
    assert_eq!(session.score(), 0);
    assert!(!session.is_game_over());
}

#[test]
fn early_ticks_spawn_one_ship_each() {
    let mut session = GameSession::new();
    session.tick();
    assert_eq!(session.field.ships.len(), 1);
    assert_eq!(session.field.ships[0].y, 0);
    session.tick();
    assert_eq!(session.field.ships.len(), 2);
}

#[test]
fn input_hit_scores_without_descent() {
    let mut session = GameSession::new();
    session.field.ships.push(Entity { x: 3, y: 5 });
    session.player.shots.push(Bullet { x: 3, y: 5 });
    let r = session.on_input(Intent::Idle);
    assert_eq!(r, (false, false));
    assert_eq!(session.score(), 25);
    assert!(session.field.ships.is_empty());
    assert!(session.player.shots.is_empty());
}

#[test]
fn enemy_on_player_cell_ends_the_game() {
    let mut session = GameSession::new();
    session.field.ships.push(Entity { x: 10, y: 26 });
    let r = session.on_input(Intent::Idle);
    assert_eq!(r, (false, true));
    assert!(session.is_game_over());
    // The colliding ship is not destroyed: only bullet matches remove ships.
    assert_eq!(session.field.ships.len(), 1);
}

#[test]
fn no_score_accrues_after_game_over() {
    let mut session = GameSession::new();
    session.game_over = true;
    session.field.ships.push(Entity { x: 3, y: 5 });
    session.player.shots.push(Bullet { x: 3, y: 5 });
    let r = session.on_input(Intent::Idle);
    assert_eq!(r, (false, false));
    // The pass still removes the bullet and the ship, but awards nothing.
    assert_eq!(session.score(), 0);
    assert!(session.field.ships.is_empty());
    assert!(session.player.shots.is_empty());
}

#[test]
fn timed_ticks_do_nothing_after_game_over() {
    let mut session = GameSession::new();
    session.game_over = true;
    session.field.ships.push(Entity { x: 4, y: 4 });
    let r = session.tick();
    assert!(!r);
    assert_eq!(session.ticks, 0);
    assert_eq!(session.field.ships.len(), 1);
    assert_eq!(session.field.ships[0].y, 4);
}

#[test]
fn restart_intent_only_signals() {
    let mut session = GameSession::new();
    session.score = 75;
    let r = session.on_input(Intent::Restart);
    assert_eq!(r, (true, false));
    assert_eq!(session.score(), 75);
}

#[test]
fn restart_resets_everything_but_the_rate() {
    let mut session = GameSession::new();
    for _ in 0..20 {
        session.tick();
        session.on_input(Intent::Fire);
        session.on_input(Intent::Left);
    }
    session.game_over = true;
    session.restart();
    assert_eq!(session.ticks, 0);
    assert_eq!(session.score(), 0);
    assert!(!session.is_game_over());
    assert_eq!(session.player.current_pos(), (10, 26));
    assert!(session.player.shots.is_empty());
    assert!(session.field.ships.is_empty());
    assert!(session.field.rocks.is_empty());
    assert_eq!(session.spawn_rate, SPAWN_RATE);
}

#[test]
fn bullet_cap_holds_under_rapid_fire() {
    let mut session = GameSession::new();
    for i in 0..30 {
        session.on_input(Intent::Fire);
        assert!(session.player.shots.len() <= 5);
        if i % 3 == 0 {
            session.tick();
            assert!(session.player.shots.len() <= 5);
        }
    }
}
