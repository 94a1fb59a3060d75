//! The planet's tile store: a pollution state per mesh vertex plus the
//! adjacency graph, together with the restoration brush and the pollution
//! stamp that factories leave at spawn.

use vstd::prelude::*;

use crate::score::{ScoreMessage, POLLUTED_RESTORE_POINTS, WASTELAND_RESTORE_POINTS};
use crate::vecmath::{Vec3Milli, V3};

verus! {

/// Pollution state of one planet tile (one mesh vertex).
#[derive(Clone, Copy, PartialEq, Eq, Structural, Debug)]
pub enum TileState {
    Wasteland,
    Healthy,
    Polluted,
}

impl Default for TileState {
    fn default() -> (r: TileState)
        ensures
            r == TileState::Wasteland,
    {
        TileState::Wasteland
    }
}

/// `b` occurs in `a`'s neighbor list.
pub open spec fn lists(adj: Seq<Vec<usize>>, a: int, b: int) -> bool {
    exists|k: int| 0 <= k < adj[a]@.len() && adj[a]@[k] == b
}

/// A well-formed adjacency graph over `n` vertices: indices in range,
/// no self-loops, and symmetric.
pub open spec fn adjacency_wf(adj: Seq<Vec<usize>>, n: int) -> bool {
    &&& adj.len() == n
    &&& forall|i: int, k: int|
        0 <= i < n && 0 <= k < adj[i]@.len() ==> (#[trigger] adj[i]@[k]) < n && adj[i]@[k] != i
    &&& forall|a: int, b: int|
        0 <= a < n && 0 <= b < n && #[trigger] lists(adj, a, b) ==> lists(adj, b, a)
}

/// Every position in the slice is within the fixed-point working range.
pub open spec fn all_bounded(pos: Seq<Vec3Milli>, b: int) -> bool {
    forall|i: int| 0 <= i < pos.len() ==> (#[trigger] pos[i])@.bounded(b)
}

/// A point lies strictly within the squared radius around a center.
pub open spec fn within(p: V3, c: V3, radius_sq: int) -> bool {
    p.minus(c).norm_sq() < radius_sq
}

/// What the restoration brush leaves behind on one tile.
pub open spec fn restored_state(s: TileState, touched: bool) -> TileState {
    if touched && s != TileState::Healthy {
        TileState::Healthy
    } else {
        s
    }
}

/// Points for restoring a tile in the given state.
pub open spec fn restore_points(s: TileState) -> int {
    if s == TileState::Polluted {
        POLLUTED_RESTORE_POINTS as int
    } else {
        WASTELAND_RESTORE_POINTS as int
    }
}

/// Score events emitted by one brush pass over the first `i` tiles, in
/// vertex order: one event per tile that leaves Wasteland or Polluted.
pub open spec fn restore_events_upto(
    states: Seq<TileState>,
    pos: Seq<Vec3Milli>,
    c: V3,
    radius_sq: int,
    i: int,
) -> Seq<ScoreMessage>
    decreases i,
{
    if i <= 0 {
        Seq::empty()
    } else {
        let pre = restore_events_upto(states, pos, c, radius_sq, i - 1);
        if within(pos[i - 1]@, c, radius_sq) && states[i - 1] != TileState::Healthy {
            pre.push(ScoreMessage(restore_points(states[i - 1]) as usize))
        } else {
            pre
        }
    }
}

/// Squared fixed-point radius of a world-space brush projected into the
/// planet's normalized (radius-divided) vertex space.
pub fn normalized_radius_sq(world_radius: i64, planet_radius: i64) -> (r: i64)
    requires
        0 <= world_radius <= 1_000_000,
        1 <= planet_radius <= 1_000_000,
    ensures
        r == crate::vecmath::muldiv_trunc(world_radius as int, 1000, planet_radius as int)
            * crate::vecmath::muldiv_trunc(world_radius as int, 1000, planet_radius as int),
        r >= 0,
{
    proof {
        crate::vecmath::lemma_mul_abs_bound(world_radius as int, 1000, 1_000_000, 1000);
    }
    let b: i64 = crate::vecmath::muldiv_trunc_i64(world_radius, 1000, planet_radius);
    proof {
        crate::vecmath::lemma_mul_abs_bound(b as int, b as int, 1_000_000_000, 1_000_000_000);
        assert(b * b >= 0) by (nonlinear_arith);
    }
    b * b
}

/// Squared restoration-brush radius in normalized space: the brush reaches
/// one and a half player radii.
pub fn brush_radius_sq(player_radius: i64, planet_radius: i64) -> (r: i64)
    requires
        0 <= player_radius <= 600_000,
        1 <= planet_radius <= 1_000_000,
    ensures
        ({
            let b = crate::vecmath::muldiv_trunc(
                player_radius * 3 / 2,
                1000,
                planet_radius as int,
            );
            r == b * b
        }),
        r >= 0,
{
    let world: i64 = (player_radius * 3) / 2;
    normalized_radius_sq(world, planet_radius)
}

/// The planet's authoritative terrain model: one state per vertex and the
/// vertex adjacency graph. The graph is built once at startup and treated as
/// immutable afterwards.
pub struct PlanetData {
    pub vertex_states: Vec<TileState>,
    pub adjacency: Vec<Vec<usize>>,
}

impl PlanetData {
    /// A fresh planet: every tile Wasteland, no adjacency yet.
    pub fn new(vertex_count: usize) -> (r: PlanetData)
        ensures
            r.vertex_states@.len() == vertex_count,
            forall|i: int|
                0 <= i < vertex_count ==> r.vertex_states@[i] == TileState::Wasteland,
            r.adjacency@.len() == 0,
    {
        let mut states: Vec<TileState> = Vec::new();
        let mut i: usize = 0;
        while i < vertex_count
            invariant
                0 <= i <= vertex_count,
                states@.len() == i,
                forall|j: int| 0 <= j < i ==> states@[j] == TileState::Wasteland,
            decreases vertex_count - i,
        {
            states.push(TileState::Wasteland);
            i = i + 1;
        }
        PlanetData { vertex_states: states, adjacency: Vec::new() }
    }

    /// World reset: every tile returns to Wasteland; the graph is kept.
    pub fn reset(&mut self)
        ensures
            final(self).vertex_states@.len() == old(self).vertex_states@.len(),
            forall|i: int|
                0 <= i < final(self).vertex_states@.len() ==> final(self).vertex_states@[i]
                    == TileState::Wasteland,
            final(self).adjacency == old(self).adjacency,
    {
        let n: usize = self.vertex_states.len();
        let mut i: usize = 0;
        while i < n
            invariant
                0 <= i <= n,
                self.vertex_states@.len() == n,
                forall|j: int| 0 <= j < i ==> self.vertex_states@[j] == TileState::Wasteland,
                self.adjacency == old(self).adjacency,
            decreases n - i,
        {
            self.vertex_states.set(i, TileState::Wasteland);
            i = i + 1;
        }
    }

    /// Stamps a pollution stain: every vertex strictly within the squared
    /// brush radius of `center` (planet-local fixed point) becomes Polluted.
    pub fn pollute_area(
        &mut self,
        positions: &Vec<Vec3Milli>,
        center: &Vec3Milli,
        radius_sq: i64,
    )
        requires
            old(self).vertex_states@.len() == positions@.len(),
            all_bounded(positions@, 500_000_000),
            center@.bounded(500_000_000),
        ensures
            final(self).adjacency == old(self).adjacency,
            final(self).vertex_states@.len() == old(self).vertex_states@.len(),
            forall|i: int|
                0 <= i < final(self).vertex_states@.len() ==> final(self).vertex_states@[i] == (if within(
                    positions@[i]@,
                    center@,
                    radius_sq as int,
                ) {
                    TileState::Polluted
                } else {
                    old(self).vertex_states@[i]
                }),
    {
        let n: usize = positions.len();
        let mut i: usize = 0;
        while i < n
            invariant
                0 <= i <= n,
                self.vertex_states@.len() == n,
                positions@.len() == n,
                all_bounded(positions@, 500_000_000),
                center@.bounded(500_000_000),
                self.adjacency == old(self).adjacency,
                forall|j: int|
                    0 <= j < i ==> self.vertex_states@[j] == (if within(
                        positions@[j]@,
                        center@,
                        radius_sq as int,
                    ) {
                        TileState::Polluted
                    } else {
                        old(self).vertex_states@[j]
                    }),
                forall|j: int|
                    i <= j < n ==> self.vertex_states@[j] == old(self).vertex_states@[j],
            decreases n - i,
        {
            let d: i64 = positions[i].dist_sq(center);
            if d < radius_sq {
                self.vertex_states.set(i, TileState::Polluted);
            }
            i = i + 1;
        }
    }

    /// The restoration brush: converts every Wasteland or Polluted tile
    /// strictly within the squared brush radius of the player to Healthy and
    /// emits one score event per restored tile (100 points for Wasteland,
    /// 200 for Polluted). Healthy tiles are skipped and never re-emit.
    pub fn restore_area(
        &mut self,
        positions: &Vec<Vec3Milli>,
        center: &Vec3Milli,
        brush_radius_sq: i64,
    ) -> (events: Vec<ScoreMessage>)
        requires
            old(self).vertex_states@.len() == positions@.len(),
            all_bounded(positions@, 500_000_000),
            center@.bounded(500_000_000),
        ensures
            final(self).adjacency == old(self).adjacency,
            final(self).vertex_states@.len() == old(self).vertex_states@.len(),
            forall|i: int|
                0 <= i < final(self).vertex_states@.len() ==> final(self).vertex_states@[i] == restored_state(
                    old(self).vertex_states@[i],
                    within(positions@[i]@, center@, brush_radius_sq as int),
                ),
            events@ == restore_events_upto(
                old(self).vertex_states@,
                positions@,
                center@,
                brush_radius_sq as int,
                positions@.len() as int,
            ),
    {
        let n: usize = positions.len();
        let mut events: Vec<ScoreMessage> = Vec::new();
        let mut i: usize = 0;
        while i < n
            invariant
                0 <= i <= n,
                self.vertex_states@.len() == n,
                positions@.len() == n,
                all_bounded(positions@, 500_000_000),
                center@.bounded(500_000_000),
                self.adjacency == old(self).adjacency,
                forall|j: int|
                    0 <= j < i ==> self.vertex_states@[j] == restored_state(
                        old(self).vertex_states@[j],
                        within(positions@[j]@, center@, brush_radius_sq as int),
                    ),
                forall|j: int|
                    i <= j < n ==> self.vertex_states@[j] == old(self).vertex_states@[j],
                events@ == restore_events_upto(
                    old(self).vertex_states@,
                    positions@,
                    center@,
                    brush_radius_sq as int,
                    i as int,
                ),
            decreases n - i,
        {
            let s: TileState = self.vertex_states[i];
            if !matches!(s, TileState::Healthy) {
                let d: i64 = positions[i].dist_sq(center);
                if d < brush_radius_sq {
                    self.vertex_states.set(i, TileState::Healthy);
                    if matches!(s, TileState::Polluted) {
                        events.push(ScoreMessage(POLLUTED_RESTORE_POINTS));
                    } else {
                        events.push(ScoreMessage(WASTELAND_RESTORE_POINTS));
                    }
                }
            }
            i = i + 1;
        }
        events
    }
}

} // verus!
