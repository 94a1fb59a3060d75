//! Tunable configuration for the simulation, passed by reference into each
//! subsystem's update call.
//!
//! Lengths and speeds are fixed-point thousandths of a world unit; times are
//! milliseconds; probabilities and retention factors are thousandths.

use vstd::prelude::*;

verus! {

/// Planet-wide tuning: geometry, player movement feel, camera.
#[derive(Clone, Copy, PartialEq, Eq, Structural, Debug)]
pub struct PlanetSettings {
    pub radius: i64,
    pub subdivisions: u32,
    pub player_speed: i64,
    pub player_radius: i64,
    pub camera_height: i64,
    pub acceleration: i64,
    /// Per-60Hz-frame velocity retention factor, in thousandths.
    pub friction: i64,
    pub max_speed: i64,
    pub camera_smoothing: i64,
    pub god_mode: bool,
    pub max_hp_radius: i64,
}

impl Default for PlanetSettings {
    fn default() -> (r: PlanetSettings)
        ensures
            r == (PlanetSettings {
                radius: 150_000,
                subdivisions: 16,
                player_speed: 60_000,
                player_radius: 4_000,
                camera_height: 100_000,
                acceleration: 150_000,
                friction: 985,
                max_speed: 80_000,
                camera_smoothing: 100,
                god_mode: false,
                max_hp_radius: 16_000,
            }),
    {
        PlanetSettings {
            radius: 150_000,
            subdivisions: 16,
            player_speed: 60_000,
            player_radius: 4_000,
            camera_height: 100_000,
            acceleration: 150_000,
            friction: 985,
            max_speed: 80_000,
            camera_smoothing: 100,
            god_mode: false,
            max_hp_radius: 16_000,
        }
    }
}

/// Player movement tuning.
#[derive(Clone, Copy, PartialEq, Eq, Structural, Debug)]
pub struct PlayerSettings {
    pub player_speed: i64,
    pub player_radius: i64,
    pub camera_height: i64,
    pub acceleration: i64,
    pub max_speed: i64,
    pub camera_smoothing: i64,
    pub god_mode: bool,
    pub max_hp_radius: i64,
}

impl Default for PlayerSettings {
    fn default() -> (r: PlayerSettings)
        ensures
            r == (PlayerSettings {
                player_speed: 60_000,
                player_radius: 4_000,
                camera_height: 100_000,
                acceleration: 150_000,
                max_speed: 80_000,
                camera_smoothing: 100,
                god_mode: false,
                max_hp_radius: 16_000,
            }),
    {
        PlayerSettings {
            player_speed: 60_000,
            player_radius: 4_000,
            camera_height: 100_000,
            acceleration: 150_000,
            max_speed: 80_000,
            camera_smoothing: 100,
            god_mode: false,
            max_hp_radius: 16_000,
        }
    }
}

/// Enemy, factory and contagion tuning.
#[derive(Clone, Copy, PartialEq, Eq, Structural, Debug)]
pub struct EnemySettings {
    pub factory_count: usize,
    pub pollution_radius: i64,
    /// Seconds between contagion ticks, in milliseconds.
    pub spread_tick_rate: u64,
    /// Spread probability near a boosting factory, in thousandths.
    pub boosted_spread_chance: usize,
    /// Per-active-vertex spread probability, in thousandths.
    pub natural_spread_chance: usize,
    pub machine_spawn_interval: u64,
    pub machine_detection_range: i64,
    pub machine_acceleration: i64,
    pub machine_speed: i64,
    /// Difficulty growth per second, in thousandths.
    pub difficulty_growth_rate: u64,
}

impl Default for EnemySettings {
    fn default() -> (r: EnemySettings)
        ensures
            r == (EnemySettings {
                factory_count: 5,
                pollution_radius: 12_000,
                spread_tick_rate: 10_000,
                boosted_spread_chance: 400,
                natural_spread_chance: 20,
                machine_spawn_interval: 10_000,
                machine_detection_range: 60_000,
                machine_acceleration: 100_000,
                machine_speed: 40_000,
                difficulty_growth_rate: 10,
            }),
    {
        EnemySettings {
            factory_count: 5,
            pollution_radius: 12_000,
            spread_tick_rate: 10_000,
            boosted_spread_chance: 400,
            natural_spread_chance: 20,
            machine_spawn_interval: 10_000,
            machine_detection_range: 60_000,
            machine_acceleration: 100_000,
            machine_speed: 40_000,
            difficulty_growth_rate: 10,
        }
    }
}

/// Dash tuning: impulse strength, energy economy and timing.
#[derive(Clone, Copy, PartialEq, Eq, Structural, Debug)]
pub struct DashSettings {
    pub dash_force: i64,
    pub dash_duration_ms: u64,
    pub max_energy: i64,
    pub regen_rate: i64,
    pub dash_cost: i64,
    pub cooldown_ms: u64,
}

impl Default for DashSettings {
    fn default() -> (r: DashSettings)
        ensures
            r == (DashSettings {
                dash_force: 200_000,
                dash_duration_ms: 500,
                max_energy: 100_000,
                regen_rate: 33_000,
                dash_cost: 100_000,
                cooldown_ms: 1_000,
            }),
    {
        DashSettings {
            dash_force: 200_000,
            dash_duration_ms: 500,
            max_energy: 100_000,
            regen_rate: 33_000,
            dash_cost: 100_000,
            cooldown_ms: 1_000,
        }
    }
}

/// Live dash state: energy, cooldown and the active window.
#[derive(Clone, Copy, PartialEq, Eq, Structural, Debug)]
pub struct DashState {
    pub current_energy: i64,
    pub cooldown_timer_ms: u64,
    pub duration_timer_ms: u64,
    pub is_active: bool,
}

impl Default for DashState {
    fn default() -> (r: DashState)
        ensures
            r == (DashState {
                current_energy: 0,
                cooldown_timer_ms: 0,
                duration_timer_ms: 0,
                is_active: false,
            }),
    {
        DashState { current_energy: 0, cooldown_timer_ms: 0, duration_timer_ms: 0, is_active: false }
    }
}

} // verus!
