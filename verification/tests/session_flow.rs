//! Tests for scoring, the session clock, the player profile, the
//! leaderboard, the timers and the difficulty director.

use green_sphere::enemies::{FactoryDirector, TickTimer};
use green_sphere::leaderboard::{Leaderboard, LeaderboardEntry};
use green_sphere::movement::PlayerBall;
use green_sphere::score::{Score, ScoreMessage};
use green_sphere::session::{
    death_transition, player_health_sync, player_invincibility_tick, GameState, PlayerProfile,
    SessionTime,
};
use green_sphere::settings::PlayerSettings;

#[test]
fn score_accumulates_events() {
    let mut score = Score::default();
    score.apply(ScoreMessage(100));
    score.apply(ScoreMessage(200));
    assert_eq!(score.current, 300);
    let batch = vec![ScoreMessage(300), ScoreMessage(500)];
    score.apply_all(&batch);
    assert_eq!(score.current, 1100);
    score.reset();
    assert_eq!(score.current, 0);
}

#[test]
fn session_time_formats_minutes_and_seconds() {
    let mut time = SessionTime::default();
    time.advance(65_000);
    assert_eq!(time.format(), "01:05");
    time.advance(600_000 - 65_000 + 59_000);
    assert_eq!(time.format(), "10:59");
    time.reset();
    assert_eq!(time.format(), "00:00");
}

#[test]
fn profile_caps_username_at_twelve_characters() {
    let mut profile = PlayerProfile::default();
    for c in "abcdefghijklmnop".chars() {
        profile.push_char(c);
    }
    assert_eq!(profile.username.len(), 12);
    assert_eq!(profile.username_string(), "abcdefghijkl");
    profile.pop_char();
    assert_eq!(profile.username_string(), "abcdefghijk");
    profile.clear();
    assert_eq!(profile.username_string(), "");
    profile.pop_char();
    assert_eq!(profile.username_string(), "");
}

#[test]
fn leaderboard_default_is_sorted() {
    let board = Leaderboard::default();
    assert_eq!(board.entries.len(), 3);
    assert_eq!(board.entries[0].name, "MossMaster");
    assert_eq!(board.entries[0].score, 50_000);
    assert!(board.entries[0].score >= board.entries[1].score);
    assert!(board.entries[1].score >= board.entries[2].score);
}

#[test]
fn leaderboard_submit_inserts_in_descending_order() {
    let mut board = Leaderboard::default();
    board.submit_entry(LeaderboardEntry {
        name: String::from("Newcomer"),
        score: 40_000,
        time_ms: 123,
    });
    let scores: Vec<usize> = board.entries.iter().map(|e| e.score).collect();
    assert_eq!(scores, vec![50_000, 40_000, 35_000, 12_000]);
    assert_eq!(board.entries[1].name, "Newcomer");
}

#[test]
fn leaderboard_ties_keep_earlier_submissions_first() {
    let mut board = Leaderboard::new();
    board.submit_entry(LeaderboardEntry { name: String::from("first"), score: 10, time_ms: 0 });
    board.submit_entry(LeaderboardEntry { name: String::from("second"), score: 10, time_ms: 0 });
    assert_eq!(board.entries[0].name, "first");
    assert_eq!(board.entries[1].name, "second");
}

#[test]
fn leaderboard_set_entries_reorders_a_fetch() {
    let mut board = Leaderboard::default();
    let fetched = vec![
        LeaderboardEntry { name: String::from("low"), score: 5, time_ms: 1 },
        LeaderboardEntry { name: String::from("high"), score: 900, time_ms: 2 },
        LeaderboardEntry { name: String::from("mid"), score: 40, time_ms: 3 },
    ];
    board.set_entries(fetched);
    let names: Vec<&str> = board.entries.iter().map(|e| e.name.as_str()).collect();
    assert_eq!(names, vec!["high", "mid", "low"]);
}

#[test]
fn tick_timer_reset_style_drops_accumulated_time() {
    let mut timer = TickTimer::default();
    assert!(!timer.advance_reset(900, 1000));
    assert_eq!(timer.accum_ms, 900);
    assert!(timer.advance_reset(200, 1000));
    assert_eq!(timer.accum_ms, 0);
}

#[test]
fn tick_timer_carry_style_keeps_the_overshoot() {
    let mut timer = TickTimer::default();
    assert!(!timer.advance_carry(900, 1000));
    assert!(timer.advance_carry(200, 1000));
    assert_eq!(timer.accum_ms, 100);
    // A delta spanning several periods fires once and keeps the rest.
    assert!(timer.advance_carry(2500, 1000));
    assert_eq!(timer.accum_ms, 1600);
}

#[test]
fn director_grows_difficulty_and_shortens_intervals() {
    let mut director = FactoryDirector::default();
    assert_eq!(director.difficulty_scale, 1000);
    let spawn = director.tick(1000, 100, 1000);
    // Difficulty grew to 1.1; the timer advanced by 1.1 seconds and fired.
    assert_eq!(director.difficulty_scale, 1100);
    assert_eq!(spawn, Some(10_000_000 / 1100));
    assert_eq!(director.spawn_timer.accum_ms, 100);
    let quiet = director.tick(100, 0, 1_000_000);
    assert_eq!(quiet, None);
}

#[test]
fn health_sync_scales_radius_with_a_floor() {
    let mut settings = PlayerSettings::default();
    player_health_sync(&mut settings, 100_000);
    assert_eq!(settings.player_radius, 16_000);
    player_health_sync(&mut settings, 50_000);
    assert_eq!(settings.player_radius, 8_000);
    player_health_sync(&mut settings, 0);
    assert_eq!(settings.player_radius, 2_000);
    assert_eq!(settings.max_speed, PlayerSettings::default().max_speed);
}

#[test]
fn invincibility_counts_down_and_stops_at_zero() {
    let mut ball = PlayerBall::default();
    ball.invincibility_timer = 100;
    player_invincibility_tick(&mut ball, 60);
    assert_eq!(ball.invincibility_timer, 40);
    player_invincibility_tick(&mut ball, 60);
    assert_eq!(ball.invincibility_timer, 0);
    player_invincibility_tick(&mut ball, 60);
    assert_eq!(ball.invincibility_timer, 0);
}

#[test]
fn death_transition_fires_exactly_at_zero_health() {
    assert_eq!(death_transition(1), None);
    assert_eq!(death_transition(0), Some(GameState::GameOver));
    assert_eq!(death_transition(-5), Some(GameState::GameOver));
}

#[test]
fn player_ball_reset_restores_full_health() {
    let mut ball = PlayerBall::default();
    ball.hp = 25_000;
    ball.invincibility_timer = 777;
    ball.current_velocity = green_sphere::vecmath::Vec3Milli { x: 9, y: 9, z: 9 };
    ball.reset();
    assert_eq!(ball.hp, 100_000);
    assert_eq!(ball.invincibility_timer, 0);
    assert_eq!(ball.current_velocity, green_sphere::vecmath::Vec3Milli { x: 0, y: 0, z: 0 });
}
