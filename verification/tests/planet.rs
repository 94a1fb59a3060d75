//! Tests for the adjacency builder, the tile store and the contagion
//! engine, including an icosphere end-to-end build.

use green_sphere::adjacency::build_adjacency;
use green_sphere::tiles::{brush_radius_sq, normalized_radius_sq};
use green_sphere::score::ScoreMessage;
use green_sphere::settings::EnemySettings;
use green_sphere::tiles::{PlanetData, TileState};
use green_sphere::vecmath::Vec3Milli;

fn v(x: i64, y: i64, z: i64) -> Vec3Milli {
    Vec3Milli { x, y, z }
}

/// Generates the flat-shaded raw vertex list of a unit icosphere at the
/// given subdivision level, quantized to fixed-point thousandths.
fn icosphere_raw_vertices(subdivisions: u32) -> Vec<Vec3Milli> {
    let t = (1.0_f32 + 5.0_f32.sqrt()) / 2.0;
    let base: Vec<[f32; 3]> = vec![
        [-1.0, t, 0.0],
        [1.0, t, 0.0],
        [-1.0, -t, 0.0],
        [1.0, -t, 0.0],
        [0.0, -1.0, t],
        [0.0, 1.0, t],
        [0.0, -1.0, -t],
        [0.0, 1.0, -t],
        [t, 0.0, -1.0],
        [t, 0.0, 1.0],
        [-t, 0.0, -1.0],
        [-t, 0.0, 1.0],
    ];
    let normalize = |p: [f32; 3]| -> [f32; 3] {
        let len = (p[0] * p[0] + p[1] * p[1] + p[2] * p[2]).sqrt();
        [p[0] / len, p[1] / len, p[2] / len]
    };
    let verts: Vec<[f32; 3]> = base.into_iter().map(normalize).collect();
    let mut faces: Vec<[usize; 3]> = vec![
        [0, 11, 5],
        [0, 5, 1],
        [0, 1, 7],
        [0, 7, 10],
        [0, 10, 11],
        [1, 5, 9],
        [5, 11, 4],
        [11, 10, 2],
        [10, 7, 6],
        [7, 1, 8],
        [3, 9, 4],
        [3, 4, 2],
        [3, 2, 6],
        [3, 6, 8],
        [3, 8, 9],
        [4, 9, 5],
        [2, 4, 11],
        [6, 2, 10],
        [8, 6, 7],
        [9, 8, 1],
    ];
    let mut verts = verts;
    for _ in 0..subdivisions {
        let mut new_faces: Vec<[usize; 3]> = Vec::new();
        for f in &faces {
            let midpoint = |a: usize, b: usize, verts: &mut Vec<[f32; 3]>| -> usize {
                let m = [
                    (verts[a][0] + verts[b][0]) / 2.0,
                    (verts[a][1] + verts[b][1]) / 2.0,
                    (verts[a][2] + verts[b][2]) / 2.0,
                ];
                let len = (m[0] * m[0] + m[1] * m[1] + m[2] * m[2]).sqrt();
                verts.push([m[0] / len, m[1] / len, m[2] / len]);
                verts.len() - 1
            };
            let ab = midpoint(f[0], f[1], &mut verts);
            let bc = midpoint(f[1], f[2], &mut verts);
            let ca = midpoint(f[2], f[0], &mut verts);
            new_faces.push([f[0], ab, ca]);
            new_faces.push([f[1], bc, ab]);
            new_faces.push([f[2], ca, bc]);
            new_faces.push([ab, bc, ca]);
        }
        faces = new_faces;
    }
    // Flat shading: duplicate each corner per face, then quantize.
    let mut raw: Vec<Vec3Milli> = Vec::new();
    for f in &faces {
        for &i in f.iter() {
            let p = verts[i];
            raw.push(Vec3Milli {
                x: (p[0] * 1000.0) as i64,
                y: (p[1] * 1000.0) as i64,
                z: (p[2] * 1000.0) as i64,
            });
        }
    }
    raw
}

#[test]
fn icosphere_every_vertex_has_at_least_five_neighbors() {
    let raw = icosphere_raw_vertices(1);
    assert_eq!(raw.len(), 240);
    let mut unique = raw.clone();
    unique.sort_by_key(|p| (p.x, p.y, p.z));
    unique.dedup();
    assert_eq!(unique.len(), 42);
    let adj = build_adjacency(&raw);
    for (i, row) in adj.iter().enumerate() {
        assert!(row.len() >= 5, "vertex {} has only {} neighbors", i, row.len());
    }
}

#[test]
fn adjacency_is_symmetric_and_self_loop_free() {
    let raw = icosphere_raw_vertices(1);
    let adj = build_adjacency(&raw);
    for (a, row) in adj.iter().enumerate() {
        for &b in row {
            assert_ne!(a, b);
            assert!(adj[b].contains(&a), "{} -> {} but not back", a, b);
        }
    }
}

#[test]
fn adjacency_connects_all_position_siblings() {
    let raw = icosphere_raw_vertices(1);
    let adj = build_adjacency(&raw);
    for a in 0..raw.len() {
        for b in 0..raw.len() {
            if a != b && raw[a] == raw[b] {
                assert!(adj[a].contains(&b), "siblings {} {} not adjacent", a, b);
            }
        }
    }
}

#[test]
fn adjacency_simple_triangle_with_duplicate() {
    // One triangle, then one duplicate of its first corner as a trailing
    // partial triangle: the duplicate joins the group, the partial
    // triangle's edges are ignored.
    let raw = vec![
        v(1000, 0, 0),
        v(0, 1000, 0),
        v(0, 0, 1000),
        v(1000, 0, 0),
    ];
    let adj = build_adjacency(&raw);
    assert!(adj[0].contains(&1) && adj[0].contains(&2) && adj[0].contains(&3));
    assert!(adj[3].contains(&0) && adj[3].contains(&1) && adj[3].contains(&2));
    assert!(!adj[1].contains(&1));
}

#[test]
fn adjacency_distinct_trailing_vertex_is_isolated() {
    let raw = vec![
        v(1000, 0, 0),
        v(0, 1000, 0),
        v(0, 0, 1000),
        v(-1000, 0, 0),
    ];
    let adj = build_adjacency(&raw);
    assert!(adj[3].is_empty());
}

#[test]
fn restore_wasteland_emits_one_hundred_point_event() {
    let positions = vec![v(1000, 0, 0), v(0, 1000, 0)];
    let mut data = PlanetData::new(2);
    let center = v(1000, 0, 0);
    // Brush squared radius of 100 fixed-point steps: touches only vertex 0.
    let events = data.restore_area(&positions, &center, 100 * 100);
    assert_eq!(events, vec![ScoreMessage(100)]);
    assert_eq!(data.vertex_states[0], TileState::Healthy);
    assert_eq!(data.vertex_states[1], TileState::Wasteland);
}

#[test]
fn restore_polluted_emits_two_hundred_point_event() {
    let positions = vec![v(1000, 0, 0)];
    let mut data = PlanetData::new(1);
    data.pollute_area(&positions, &v(1000, 0, 0), 100 * 100);
    assert_eq!(data.vertex_states[0], TileState::Polluted);
    let events = data.restore_area(&positions, &v(1000, 0, 0), 100 * 100);
    assert_eq!(events, vec![ScoreMessage(200)]);
    assert_eq!(data.vertex_states[0], TileState::Healthy);
}

#[test]
fn restore_healthy_tile_is_skipped_and_emits_nothing() {
    let positions = vec![v(1000, 0, 0)];
    let mut data = PlanetData::new(1);
    let first = data.restore_area(&positions, &v(1000, 0, 0), 100 * 100);
    assert_eq!(first.len(), 1);
    let second = data.restore_area(&positions, &v(1000, 0, 0), 100 * 100);
    assert!(second.is_empty());
    assert_eq!(data.vertex_states[0], TileState::Healthy);
}

#[test]
fn pollute_area_marks_only_vertices_in_radius() {
    let positions = vec![v(1000, 0, 0), v(-1000, 0, 0)];
    let mut data = PlanetData::new(2);
    data.pollute_area(&positions, &v(1000, 0, 0), 500 * 500);
    assert_eq!(data.vertex_states[0], TileState::Polluted);
    assert_eq!(data.vertex_states[1], TileState::Wasteland);
}

fn deterministic_settings() -> EnemySettings {
    let mut s = EnemySettings::default();
    s.pollution_radius = 12_000;
    s.natural_spread_chance = 1000; // always spread
    s
}

#[test]
fn contagion_spreads_to_single_candidate_and_its_siblings() {
    // Scenario: one active Polluted vertex (v0) with exactly one
    // non-Polluted neighbor (v1); v1's own neighbors are v0 and v2.
    let positions = vec![
        v(1000, 0, 0),
        v(990, 141, 0),
        v(950, -312, 0),
        v(0, 0, 1000),
    ];
    let adjacency = vec![vec![1], vec![0, 2], vec![1], vec![]];
    let mut data = PlanetData {
        vertex_states: vec![
            TileState::Polluted,
            TileState::Wasteland,
            TileState::Wasteland,
            TileState::Wasteland,
        ],
        adjacency,
    };
    // Factory 8 units from v0's world position: outside the 6-unit root
    // radius (so no seeding), inside the 14.4-unit connect radius (so v0
    // is active).
    let radius = 100_000;
    let factories = vec![v(108_000, 0, 0)];
    let settings = deterministic_settings();
    let marked = data.contagion_tick(&positions, radius, &factories, &settings);
    assert!(marked[1], "the single candidate must be infected");
    assert_eq!(data.vertex_states[0], TileState::Polluted);
    assert_eq!(data.vertex_states[1], TileState::Polluted);
    assert_eq!(data.vertex_states[2], TileState::Polluted, "sibling of the target");
    assert_eq!(data.vertex_states[3], TileState::Wasteland, "unconnected vertex untouched");
}

#[test]
fn isolated_pollution_island_never_spreads() {
    // A Polluted vertex with no path of Polluted neighbors to any factory
    // stays static over many ticks, even with certain spread chance.
    let positions = vec![v(1000, 0, 0), v(990, 141, 0), v(-1000, 0, 0)];
    let adjacency = vec![vec![1], vec![0], vec![]];
    let mut data = PlanetData {
        vertex_states: vec![
            TileState::Polluted,
            TileState::Wasteland,
            TileState::Wasteland,
        ],
        adjacency,
    };
    let radius = 100_000;
    // The only factory sits on the far side of the planet.
    let factories = vec![v(-108_000, 0, 0)];
    let settings = deterministic_settings();
    for _ in 0..25 {
        data.contagion_tick(&positions, radius, &factories, &settings);
        assert_eq!(data.vertex_states[0], TileState::Polluted);
        assert_eq!(data.vertex_states[1], TileState::Wasteland);
        assert_eq!(data.vertex_states[2], TileState::Wasteland);
    }
}

#[test]
fn factory_with_polluted_root_does_not_seed() {
    // The factory already has pollution among its root vertices, and the
    // spread chance is zero: a tick must leave every tile unchanged.
    let positions = vec![v(1000, 0, 0), v(990, 141, 0)];
    let adjacency = vec![vec![1], vec![0]];
    let mut data = PlanetData {
        vertex_states: vec![TileState::Polluted, TileState::Wasteland],
        adjacency,
    };
    let radius = 100_000;
    // Factory 4 units from v0: within the 6-unit root radius.
    let factories = vec![v(104_000, 0, 0)];
    let mut settings = EnemySettings::default();
    settings.natural_spread_chance = 0;
    for _ in 0..20 {
        data.contagion_tick(&positions, radius, &factories, &settings);
        assert_eq!(data.vertex_states[0], TileState::Polluted);
        assert_eq!(data.vertex_states[1], TileState::Wasteland);
    }
}

#[test]
fn contagion_with_empty_adjacency_is_a_no_op() {
    let positions = vec![v(1000, 0, 0)];
    let mut data = PlanetData {
        vertex_states: vec![TileState::Polluted],
        adjacency: Vec::new(),
    };
    let factories = vec![v(100_000, 0, 0)];
    let settings = deterministic_settings();
    let marked = data.contagion_tick(&positions, 100_000, &factories, &settings);
    assert!(marked.iter().all(|m| !m));
    assert_eq!(data.vertex_states[0], TileState::Polluted);
}

#[test]
fn contagion_never_cures_polluted_tiles() {
    let raw = icosphere_raw_vertices(1);
    let adjacency = build_adjacency(&raw);
    let n = raw.len();
    let mut states = vec![TileState::Wasteland; n];
    states[0] = TileState::Polluted;
    states[1] = TileState::Healthy;
    let mut data = PlanetData { vertex_states: states, adjacency };
    let factories = vec![v(110_000, 0, 0)];
    let settings = EnemySettings::default();
    for _ in 0..5 {
        let before: Vec<TileState> = data.vertex_states.clone();
        data.contagion_tick(&raw, 100_000, &factories, &settings);
        for i in 0..n {
            if before[i] == TileState::Polluted {
                assert_eq!(data.vertex_states[i], TileState::Polluted);
            }
            if data.vertex_states[i] != before[i] {
                assert_eq!(data.vertex_states[i], TileState::Polluted);
            }
        }
    }
}

#[test]
fn brush_radius_follows_player_size_in_normalized_space() {
    // A 4-unit player on a 100-unit planet: the brush reaches 6 world
    // units, which is 60 fixed-point steps in normalized vertex space.
    assert_eq!(brush_radius_sq(4_000, 100_000), 60 * 60);
    assert_eq!(normalized_radius_sq(12_000, 100_000), 120 * 120);
    // The derived brush restores a vertex 50 normalized steps away but
    // not one 100 steps away.
    let positions = vec![v(1000, 0, 0), v(1000, 150, 0)];
    let mut data = PlanetData::new(2);
    let events = data.restore_area(&positions, &v(1000, 50, 0), brush_radius_sq(4_000, 100_000));
    assert_eq!(events.len(), 1);
    assert_eq!(data.vertex_states[0], TileState::Healthy);
    assert_eq!(data.vertex_states[1], TileState::Wasteland);
}

#[test]
fn planet_reset_returns_all_tiles_to_wasteland() {
    let positions = vec![v(1000, 0, 0), v(0, 1000, 0)];
    let mut data = PlanetData::new(2);
    data.pollute_area(&positions, &v(1000, 0, 0), 500 * 500);
    data.restore_area(&positions, &v(0, 1000, 0), 100 * 100);
    data.reset();
    for s in &data.vertex_states {
        assert_eq!(*s, TileState::Wasteland);
    }
}
