//! Tests for the spherical movement model, the tangent projection, the
//! enemy machines and the collision pass.

use green_sphere::enemies::{enemy_collision_tick, AlienMachine};
use green_sphere::movement::{
    advance_on_sphere, joystick_filter, planetary_control_tick, roll_axis, roll_rate,
    size_factor, PlayerBall, VjoyOutput,
};
use green_sphere::score::ScoreMessage;
use green_sphere::settings::{DashSettings, DashState, EnemySettings, PlayerSettings};
use green_sphere::vecmath::{rescale_to, tangent_component, Vec2Milli, Vec3Milli};

fn v(x: i64, y: i64, z: i64) -> Vec3Milli {
    Vec3Milli { x, y, z }
}

fn joy(x: i64, y: i64) -> VjoyOutput {
    VjoyOutput { dir: Vec2Milli { x, y } }
}

/// Per-60Hz-frame retention factor raised to `dt * 60`, in thousandths —
/// the clock layer's float computation.
fn retention_milli(per_frame: f32, dt_secs: f32) -> i64 {
    (per_frame.powf(dt_secs * 60.0) * 1000.0) as i64
}

#[test]
fn velocity_tangency_after_projection() {
    let velocity = v(3000, 500, -2000);
    let position = v(100_000, 35_000, -20_000);
    let normal = rescale_to(&position, 1000);
    let t = tangent_component(&velocity, &normal);
    let residual = t.x * normal.x + t.y * normal.y + t.z * normal.z;
    let bound = normal.x.abs() + normal.y.abs() + normal.z.abs();
    assert!(
        residual.abs() <= bound,
        "residual {} exceeds tangency bound {}",
        residual,
        bound
    );
}

#[test]
fn friction_is_approximately_frame_rate_independent() {
    // One tick at dt = 1/30 versus two ticks at dt = 1/60.
    let coarse = retention_milli(0.985, 1.0 / 30.0);
    let fine = retention_milli(0.985, 1.0 / 60.0);
    let x: i64 = 1_000_000;
    let once = x * coarse / 1000;
    let twice = (x * fine / 1000) * fine / 1000;
    let tolerance = 4 + x / 1000;
    assert!(
        (once - twice).abs() <= tolerance,
        "coarse {} fine-squared {} differ beyond {}",
        once,
        twice,
        tolerance
    );
}

#[test]
fn zero_input_velocity_decays_and_never_reverses_sign() {
    let settings = PlayerSettings::default();
    let dash_settings = DashSettings::default();
    let dash = DashState::default();
    let mut ball = PlayerBall::default();
    ball.current_velocity = v(5000, 0, -3000);
    let ret = retention_milli(0.985, 1.0 / 60.0);
    let mut prev = ball.current_velocity;
    for _ in 0..800 {
        planetary_control_tick(
            &mut ball,
            &joy(0, 0),
            16,
            &settings,
            &dash_settings,
            &dash,
            ret,
            990,
        );
        let cur = ball.current_velocity;
        assert!(cur.x >= 0 && cur.x <= prev.x, "x component reversed or grew");
        assert!(cur.z <= 0 && cur.z >= prev.z, "z component reversed or grew");
        prev = cur;
    }
    assert_eq!(prev.x, 0);
    assert_eq!(prev.z, 0);
}

#[test]
fn input_accelerates_along_the_tangent_plane() {
    let settings = PlayerSettings::default();
    let dash_settings = DashSettings::default();
    let dash = DashState::default();
    let mut ball = PlayerBall::default();
    planetary_control_tick(
        &mut ball,
        &joy(1000, 0),
        16,
        &settings,
        &dash_settings,
        &dash,
        985,
        990,
    );
    assert!(ball.current_velocity.x > 0);
    assert_eq!(ball.current_velocity.y, 0);
    assert_eq!(ball.current_velocity.z, 0);
}

#[test]
fn forward_input_maps_to_negative_z() {
    let settings = PlayerSettings::default();
    let dash_settings = DashSettings::default();
    let dash = DashState::default();
    let mut ball = PlayerBall::default();
    planetary_control_tick(
        &mut ball,
        &joy(0, 1000),
        16,
        &settings,
        &dash_settings,
        &dash,
        985,
        990,
    );
    assert!(ball.current_velocity.z < 0);
    assert_eq!(ball.current_velocity.x, 0);
}

#[test]
fn dash_impulse_fires_at_end_of_window() {
    let settings = PlayerSettings::default();
    let dash_settings = DashSettings::default();
    let mut dash = DashState::default();
    dash.is_active = true;
    dash.duration_timer_ms = dash_settings.dash_duration_ms; // window ends now
    let mut ball = PlayerBall::default();
    ball.current_velocity = v(1000, 0, 0);
    planetary_control_tick(
        &mut ball,
        &joy(0, 0),
        16,
        &settings,
        &dash_settings,
        &dash,
        985,
        1000,
    );
    // Impulse along the current velocity direction: eff_force is
    // dash_force * size_factor / 1000 = 200_000.
    assert!(
        ball.current_velocity.x > 100_000,
        "dash impulse missing: {:?}",
        ball.current_velocity
    );
}

#[test]
fn dash_with_zero_velocity_and_no_input_is_skipped() {
    let settings = PlayerSettings::default();
    let dash_settings = DashSettings::default();
    let mut dash = DashState::default();
    dash.is_active = true;
    dash.duration_timer_ms = dash_settings.dash_duration_ms;
    let mut ball = PlayerBall::default();
    planetary_control_tick(
        &mut ball,
        &joy(0, 0),
        16,
        &settings,
        &dash_settings,
        &dash,
        985,
        1000,
    );
    assert_eq!(ball.current_velocity, v(0, 0, 0));
}

#[test]
fn size_factor_matches_clamped_formula() {
    assert_eq!(size_factor(4_000), 1000);
    assert_eq!(size_factor(2_000), 2000);
    assert_eq!(size_factor(1_000), 2000); // clamped high
    assert_eq!(size_factor(100_000), 200); // clamped low
}

#[test]
fn roll_axis_is_perpendicular_to_velocity_or_skipped() {
    assert!(roll_axis(&v(0, 0, 0)).is_none());
    assert!(roll_axis(&v(0, 500, 0)).is_none());
    let axis = roll_axis(&v(3000, 0, 4000)).expect("axis expected");
    // (v.z, 0, -v.x) normalized: dot with v must be zero up to rounding.
    let d = axis.x * 3000 + axis.z * 4000;
    assert!(d.abs() <= 7000, "roll axis not perpendicular: {}", d);
    assert_eq!(roll_rate(5000, 1000, 4000), 1250);
}

#[test]
fn advance_on_sphere_stays_on_the_shell() {
    let pos = v(100_000, 0, 0);
    let vel = v(0, 20_000, 0);
    let out = advance_on_sphere(&pos, &vel, 1000, 100_000);
    let norm = ((out.x * out.x + out.y * out.y + out.z * out.z) as f64).sqrt();
    assert!((norm - 100_000.0).abs() < 50.0, "left the shell: {}", norm);
    assert!(out.y > 0);
}

#[test]
fn joystick_filter_clamps_and_applies_deadzone() {
    let full = joystick_filter(800, -800, 2000, 50);
    assert_eq!(full, Vec2Milli { x: 1000, y: 1000 });
    let idle = joystick_filter(10, 0, 1000, 50);
    assert_eq!(idle, Vec2Milli { x: 0, y: 0 });
}

#[test]
fn machine_steers_toward_player_and_stays_on_shell() {
    let mut machine = AlienMachine::spawn(v(103_000, 0, 0));
    let player = v(100_000, 20_000, 0);
    let settings = EnemySettings::default();
    for _ in 0..10 {
        machine.ai_tick(&player, 16, &settings, 100_000, 950);
    }
    assert!(machine.velocity.y > 0, "machine not pursuing: {:?}", machine.velocity);
    let norm = ((machine.position.x * machine.position.x
        + machine.position.y * machine.position.y
        + machine.position.z * machine.position.z) as f64)
        .sqrt();
    assert!((norm - 103_000.0).abs() < 60.0, "machine left the shell: {}", norm);
}

#[test]
fn machine_ignores_player_beyond_detection_range() {
    let mut machine = AlienMachine::spawn(v(103_000, 0, 0));
    let player = v(-103_000, 0, 0);
    let settings = EnemySettings::default();
    machine.ai_tick(&player, 16, &settings, 100_000, 1000);
    assert_eq!(machine.velocity, v(0, 0, 0));
}

#[test]
fn dashing_player_destroys_machines_for_three_hundred_points() {
    let mut ball = PlayerBall::default();
    ball.hp = 100_000;
    let machines = vec![v(5_000, 0, 0), v(500_000, 0, 0)];
    let factories = vec![];
    let out = enemy_collision_tick(
        &mut ball,
        &v(0, 0, 0),
        &machines,
        &factories,
        true,
        false,
        4_000,
    );
    assert_eq!(out.destroyed_machines, vec![0]);
    assert_eq!(out.events, vec![ScoreMessage(300)]);
    assert_eq!(ball.hp, 100_000);
}

#[test]
fn dashing_player_destroys_factories_for_five_hundred_points() {
    let mut ball = PlayerBall::default();
    ball.hp = 100_000;
    let machines = vec![];
    let factories = vec![v(8_000, 0, 0)];
    let out = enemy_collision_tick(
        &mut ball,
        &v(0, 0, 0),
        &machines,
        &factories,
        true,
        false,
        4_000,
    );
    assert_eq!(out.destroyed_factories, vec![0]);
    assert_eq!(out.events, vec![ScoreMessage(500)]);
}

#[test]
fn collision_damages_vulnerable_player_once_per_tick() {
    let mut ball = PlayerBall::default();
    ball.hp = 100_000;
    // Two machines in range: the first hit grants invincibility, so the
    // second neither damages nor is destroyed.
    let machines = vec![v(5_000, 0, 0), v(-5_000, 0, 0)];
    let out = enemy_collision_tick(
        &mut ball,
        &v(0, 0, 0),
        &machines,
        &vec![],
        false,
        false,
        4_000,
    );
    assert_eq!(ball.hp, 75_000);
    assert_eq!(ball.invincibility_timer, 5_000);
    assert_eq!(out.destroyed_machines, vec![0]);
    assert!(out.events.is_empty());
}

#[test]
fn god_mode_player_takes_no_damage() {
    let mut ball = PlayerBall::default();
    ball.hp = 100_000;
    let machines = vec![v(5_000, 0, 0)];
    let out = enemy_collision_tick(
        &mut ball,
        &v(0, 0, 0),
        &machines,
        &vec![],
        false,
        true,
        4_000,
    );
    assert_eq!(ball.hp, 100_000);
    assert!(out.destroyed_machines.is_empty());
}

#[test]
fn non_dashing_player_leaves_factories_alone() {
    let mut ball = PlayerBall::default();
    ball.hp = 100_000;
    let factories = vec![v(8_000, 0, 0)];
    let out = enemy_collision_tick(
        &mut ball,
        &v(0, 0, 0),
        &vec![],
        &factories,
        false,
        false,
        4_000,
    );
    assert!(out.destroyed_factories.is_empty());
    assert!(out.events.is_empty());
}
