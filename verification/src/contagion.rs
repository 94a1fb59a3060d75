//! The contagion engine: one periodic tick that seeds new pollution near
//! starved factories, activates the factory-connected pollution front by a
//! traversal over Polluted neighbors, spreads from active vertices to random
//! neighbors, and commits all marks atomically at tick end.
//!
//! Every phase reads the frozen pre-tick snapshot; only the commit writes.
//! The contracts pin what holds for every outcome of the random draws: a
//! tile changes only to Polluted, and only when a seeding factory or the
//! active front accounts for it.

use vstd::prelude::*;

use crate::rng::rand_below;
use crate::settings::EnemySettings;
use crate::tiles::{adjacency_wf, all_bounded, lists, within, PlanetData, TileState};
use crate::vecmath::{Vec3Milli, V3};

verus! {

/// Probability that a pollution-starved factory seeds a stain on one tick,
/// in thousandths.
pub const SEED_CHANCE_MILLI: usize = 200;

/// World-space position of a unit-sphere vertex: the vertex scaled by the
/// planet radius (both fixed point).
pub open spec fn world_pos(p: V3, radius: int) -> V3 {
    p.scale_div(radius, 1000)
}

/// Squared radius within which vertices count as a factory's roots: half
/// the pollution radius.
pub open spec fn root_radius_sq(pollution_radius: int) -> int {
    (pollution_radius / 2) * (pollution_radius / 2)
}

/// Squared radius within which pollution counts as factory-connected: 1.2
/// times the pollution radius.
pub open spec fn connect_radius_sq(pollution_radius: int) -> int {
    (pollution_radius * 12 / 10) * (pollution_radius * 12 / 10)
}

/// The frozen pre-tick inputs one contagion tick works over.
pub struct TickCtx {
    pub s: Seq<TileState>,
    pub adj: Seq<Vec<usize>>,
    pub pos: Seq<Vec3Milli>,
    pub radius: int,
    pub factories: Seq<Vec3Milli>,
    pub root_sq: int,
    pub conn_sq: int,
}

/// Bundles a tick's inputs.
pub open spec fn tick_ctx(
    s: Seq<TileState>,
    adj: Seq<Vec<usize>>,
    pos: Seq<Vec3Milli>,
    radius: int,
    factories: Seq<Vec3Milli>,
    root_sq: int,
    conn_sq: int,
) -> TickCtx {
    TickCtx { s, adj, pos, radius, factories, root_sq, conn_sq }
}

impl TickCtx {
    /// Vertex `i` lies strictly within `r_sq` of world point `f`.
    pub open spec fn near(self, f: V3, i: int, r_sq: int) -> bool {
        within(world_pos(self.pos[i]@, self.radius), f, r_sq)
    }

    /// No root vertex of factory `k` is Polluted in the snapshot.
    pub open spec fn factory_unpolluted(self, k: int) -> bool {
        forall|i: int|
            0 <= i < self.s.len() && #[trigger] self.near(self.factories[k]@, i, self.root_sq)
                ==> self.s[i] != TileState::Polluted
    }

    /// Seed justification: some factory with no Polluted root has `i` as a
    /// root vertex or as a direct neighbor of one.
    pub open spec fn seed_justified(self, i: int) -> bool {
        exists|k: int|
            #![auto]
            0 <= k < self.factories.len() && self.factory_unpolluted(k) && (self.near(
                self.factories[k]@,
                i,
                self.root_sq,
            ) || exists|r: int|
                #![auto]
                0 <= r < self.s.len() && self.near(self.factories[k]@, r, self.root_sq) && lists(
                    self.adj,
                    r,
                    i,
                ))
    }

    /// `p` is a path of Polluted vertices starting within the connect
    /// radius of some factory and ending at `v`.
    pub open spec fn polluted_path(self, p: Seq<int>, v: int) -> bool {
        &&& p.len() >= 1
        &&& p[p.len() - 1] == v
        &&& forall|j: int|
            0 <= j < p.len() ==> 0 <= #[trigger] p[j] < self.s.len() && self.s[p[j]]
                == TileState::Polluted
        &&& exists|k: int|
            #![auto]
            0 <= k < self.factories.len() && self.near(self.factories[k]@, p[0], self.conn_sq)
        &&& forall|j: int| 0 <= j < p.len() - 1 ==> lists(self.adj, #[trigger] p[j], p[j + 1])
    }

    /// `v` is on the active front: reachable through Polluted tiles from
    /// pollution within the connect radius of some factory.
    pub open spec fn active(self, v: int) -> bool {
        exists|p: Seq<int>| self.polluted_path(p, v)
    }

    /// Spread justification: `i` neighbors an active vertex, or is the
    /// sibling of a non-Polluted neighbor of one.
    pub open spec fn spread_justified(self, i: int) -> bool {
        exists|a: int|
            #![auto]
            0 <= a < self.s.len() && self.active(a) && (lists(self.adj, a, i) || exists|t: int|
                #![auto]
                0 <= t < self.s.len() && lists(self.adj, a, t) && self.s[t] != TileState::Polluted
                    && lists(self.adj, t, i))
    }

    /// Every mark a tick sets is accounted for by seeding or spreading.
    pub open spec fn justified(self, i: int) -> bool {
        self.seed_justified(i) || self.spread_justified(i)
    }

    /// `v` starts the front: Polluted and within the connect radius of
    /// some factory.
    pub open spec fn front_seed(self, v: int) -> bool {
        &&& 0 <= v < self.s.len()
        &&& self.s[v] == TileState::Polluted
        &&& exists|k: int|
            #![auto]
            0 <= k < self.factories.len() && self.near(self.factories[k]@, v, self.conn_sq)
    }

    /// `a` has at least one non-Polluted neighbor to spread to.
    pub open spec fn has_candidate(self, a: int) -> bool {
        exists|c: int|
            #![auto]
            0 <= c < self.s.len() && lists(self.adj, a, c) && self.s[c] != TileState::Polluted
    }

    /// Some non-Polluted neighbor of `a` is marked together with every one
    /// of its siblings.
    pub open spec fn served(self, m: Seq<bool>, a: int) -> bool {
        exists|t: int|
            #![auto]
            0 <= t < self.s.len() && lists(self.adj, a, t) && self.s[t] != TileState::Polluted
                && m[t] && (forall|sib: int|
                0 <= sib < self.s.len() && #[trigger] lists(self.adj, t, sib) ==> m[sib])
    }
}

/// The neighbor lists of the first `upto` queue entries have been fully
/// scanned: each of their Polluted neighbors carries the flag.
spec fn processed(
    adj: Seq<Vec<usize>>,
    s: Seq<TileState>,
    act: Seq<bool>,
    q: Seq<usize>,
    upto: int,
) -> bool {
    forall|jq: int, k: int|
        0 <= jq < upto && 0 <= k < adj[q[jq] as int]@.len() ==> {
            let nb = #[trigger] adj[q[jq] as int]@[k];
            s[nb as int] == TileState::Polluted ==> act[nb as int]
        }
}

/// A flag set that contains every front seed and is closed under Polluted
/// adjacency covers the whole active front.
proof fn lemma_path_active(ctx: TickCtx, act: Seq<bool>, p: Seq<int>, v: int)
    requires
        act.len() == ctx.s.len(),
        forall|x: int| #[trigger] ctx.front_seed(x) ==> act[x],
        forall|a: int, b: int|
            0 <= a < ctx.s.len() && act[a] && #[trigger] lists(ctx.adj, a, b) && 0 <= b
                < ctx.s.len() && ctx.s[b] == TileState::Polluted ==> act[b],
        ctx.polluted_path(p, v),
    ensures
        0 <= v < ctx.s.len(),
        act[v],
    decreases p.len(),
{
    if p.len() == 1 {
        assert(p[0] == v);
        assert(ctx.front_seed(v));
    } else {
        let p2 = p.drop_last();
        let u = p[p.len() - 2];
        assert(ctx.polluted_path(p2, u)) by {
            assert(p2.len() == p.len() - 1);
            assert(p2[p2.len() - 1] == p[p.len() - 2]);
            assert(p2[0] == p[0]);
            assert forall|jj: int| 0 <= jj < p2.len() implies 0 <= #[trigger] p2[jj]
                < ctx.s.len() && ctx.s[p2[jj]] == TileState::Polluted by {
                assert(p2[jj] == p[jj]);
            }
            assert forall|jj: int| 0 <= jj < p2.len() - 1 implies lists(
                ctx.adj,
                #[trigger] p2[jj],
                p2[jj + 1],
            ) by {
                assert(p2[jj] == p[jj] && p2[jj + 1] == p[jj + 1]);
            }
        }
        lemma_path_active(ctx, act, p2, u);
        assert(lists(ctx.adj, p[p.len() - 2], p[p.len() - 1]));
        assert(ctx.s[v] == TileState::Polluted);
    }
}

/// The atomic commit of a tick: marked tiles become Polluted, all others
/// keep their snapshot state.
pub open spec fn commit_spec(s: Seq<TileState>, m: Seq<bool>) -> Seq<TileState> {
    Seq::new(
        s.len(),
        |i: int|
            if 0 <= i < m.len() && m[i] {
                TileState::Polluted
            } else {
                s[i]
            },
    )
}

/// Tile monotonicity within a tick: the commit is set-based, so committing
/// a mark set twice equals committing it once — duplicate marks collapse
/// and no tile transitions twice.
pub proof fn lemma_commit_idempotent(s: Seq<TileState>, m: Seq<bool>)
    ensures
        commit_spec(commit_spec(s, m), m) == commit_spec(s, m),
{
    assert(commit_spec(commit_spec(s, m), m) =~= commit_spec(s, m));
}

/// A commit never cures: a Polluted tile stays Polluted.
pub proof fn lemma_commit_monotone(s: Seq<TileState>, m: Seq<bool>, i: int)
    requires
        0 <= i < s.len(),
        s[i] == TileState::Polluted,
    ensures
        commit_spec(s, m)[i] == TileState::Polluted,
{
}

/// Contagion reachability bound: a tile that no factory seeding and no
/// active-front spread accounts for keeps its exact pre-tick state,
/// whatever the random draws were. In particular a Polluted island with no
/// Polluted path to factory-proximal pollution never infects its neighbors.
pub proof fn lemma_unjustified_tile_unchanged(ctx: TickCtx, m: Seq<bool>, i: int)
    requires
        0 <= i < ctx.s.len(),
        m.len() == ctx.s.len(),
        forall|j: int| 0 <= j < m.len() && m[j] ==> #[trigger] ctx.justified(j),
        !ctx.justified(i),
    ensures
        commit_spec(ctx.s, m)[i] == ctx.s[i],
{
}

/// With no factories there is neither seeding nor an active front, so a
/// tick leaves every tile exactly as it was.
pub proof fn lemma_no_factories_no_infection(ctx: TickCtx, m: Seq<bool>, i: int)
    requires
        0 <= i < ctx.s.len(),
        m.len() == ctx.s.len(),
        ctx.factories.len() == 0,
        forall|j: int| 0 <= j < m.len() && m[j] ==> #[trigger] ctx.justified(j),
    ensures
        commit_spec(ctx.s, m)[i] == ctx.s[i],
{
    assert(!ctx.justified(i)) by {
        if ctx.spread_justified(i) {
            let a = choose|a: int|
                #![auto]
                0 <= a < ctx.s.len() && ctx.active(a) && (lists(ctx.adj, a, i) || exists|t: int|
                    #![auto]
                    0 <= t < ctx.s.len() && lists(ctx.adj, a, t) && ctx.s[t]
                        != TileState::Polluted && lists(ctx.adj, t, i));
            let p = choose|p: Seq<int>| ctx.polluted_path(p, a);
            assert(false);
        }
    }
    lemma_unjustified_tile_unchanged(ctx, m, i);
}

/// How many entries of a boolean sequence are set.
pub closed spec fn count_true(s: Seq<bool>) -> int
    decreases s.len(),
{
    if s.len() == 0 {
        0
    } else {
        count_true(s.drop_last()) + (if s.last() {
            1int
        } else {
            0int
        })
    }
}

proof fn lemma_count_true_le_len(s: Seq<bool>)
    ensures
        0 <= count_true(s) <= s.len(),
    decreases s.len(),
{
    if s.len() > 0 {
        lemma_count_true_le_len(s.drop_last());
    }
}

proof fn lemma_count_true_set(s: Seq<bool>, i: int)
    requires
        0 <= i < s.len(),
        !s[i],
    ensures
        count_true(s.update(i, true)) == count_true(s) + 1,
    decreases s.len(),
{
    let t = s.update(i, true);
    if i == s.len() - 1 {
        assert(t.drop_last() =~= s.drop_last());
    } else {
        assert(t.drop_last() =~= s.drop_last().update(i, true));
        lemma_count_true_set(s.drop_last(), i);
    }
}

/// A vector of `n` cleared flags.
fn false_vec(n: usize) -> (r: Vec<bool>)
    ensures
        r@.len() == n,
        forall|i: int| 0 <= i < n ==> !r@[i],
{
    let mut r: Vec<bool> = Vec::new();
    let mut i: usize = 0;
    while i < n
        invariant
            0 <= i <= n,
            r@.len() == i,
            forall|j: int| 0 <= j < i ==> !r@[j],
        decreases n - i,
    {
        r.push(false);
        i = i + 1;
    }
    r
}

/// World position of one unit-sphere vertex.
fn world_of(p: &Vec3Milli, radius: i64) -> (w: Vec3Milli)
    requires
        p@.bounded(2_000),
        1 <= radius <= 1_000_000,
    ensures
        w@ == world_pos(p@, radius as int),
        w@.bounded(2_000_000),
{
    let w: Vec3Milli = p.scale_div(radius, 1000);
    proof {
        assert(w@.bounded(2_000 * (radius as int) / 1000));
        vstd::arithmetic::div_mod::lemma_div_is_ordered(
            2_000 * (radius as int),
            2_000_000_000,
            1000,
        );
        assert(2_000_000_000int / 1000int == 2_000_000int);
    }
    w
}

/// Whether `w` lies strictly within `r_sq` of any factory.
fn near_any(w: &Vec3Milli, factories: &Vec<Vec3Milli>, r_sq: i64) -> (r: bool)
    requires
        w@.bounded(2_000_000),
        all_bounded(factories@, 400_000_000),
    ensures
        r == exists|k: int|
            #![auto]
            0 <= k < factories@.len() && within(w@, factories@[k]@, r_sq as int),
{
    let m: usize = factories.len();
    let mut k: usize = 0;
    while k < m
        invariant
            0 <= k <= m,
            m == factories@.len(),
            w@.bounded(2_000_000),
            all_bounded(factories@, 400_000_000),
            forall|j: int| #![auto] 0 <= j < k ==> !within(w@, factories@[j]@, r_sq as int),
        decreases m - k,
    {
        let d: i64 = w.dist_sq(&factories[k]);
        if d < r_sq {
            return true;
        }
        k = k + 1;
    }
    false
}

/// Seeding: a factory whose root vertices are all free of pollution rolls
/// the seed chance; on success its root vertices and their direct neighbors
/// are marked for infection.
fn seed_phase(
    states: &Vec<TileState>,
    adj: &Vec<Vec<usize>>,
    positions: &Vec<Vec3Milli>,
    radius: i64,
    factories: &Vec<Vec3Milli>,
    root_sq: i64,
    conn_sq: i64,
    marks: &mut Vec<bool>,
)
    requires
        states@.len() == positions@.len(),
        adjacency_wf(adj@, positions@.len() as int),
        all_bounded(positions@, 2_000),
        all_bounded(factories@, 400_000_000),
        1 <= radius <= 1_000_000,
        old(marks)@.len() == positions@.len(),
    ensures
        final(marks)@.len() == old(marks)@.len(),
        forall|i: int| 0 <= i < old(marks)@.len() && old(marks)@[i] ==> final(marks)@[i],
        forall|i: int|
            0 <= i < old(marks)@.len() && final(marks)@[i] && !old(marks)@[i]
                ==> #[trigger] tick_ctx(
                states@,
                adj@,
                positions@,
                radius as int,
                factories@,
                root_sq as int,
                conn_sq as int,
            ).seed_justified(i),
{
    let ghost ctx = tick_ctx(
        states@,
        adj@,
        positions@,
        radius as int,
        factories@,
        root_sq as int,
        conn_sq as int,
    );
    let ghost marks0 = marks@;
    let n: usize = positions.len();
    let fcount: usize = factories.len();
    let mut k: usize = 0;
    while k < fcount
        invariant
            0 <= k <= fcount,
            n == positions@.len(),
            fcount == factories@.len(),
            states@.len() == n,
            adjacency_wf(adj@, n as int),
            all_bounded(positions@, 2_000),
            all_bounded(factories@, 400_000_000),
            1 <= radius <= 1_000_000,
            marks@.len() == n,
            marks0.len() == n,
            ctx == tick_ctx(
                states@,
                adj@,
                positions@,
                radius as int,
                factories@,
                root_sq as int,
                conn_sq as int,
            ),
            forall|i: int| 0 <= i < n && marks0[i] ==> marks@[i],
            forall|i: int|
                0 <= i < n && marks@[i] && !marks0[i] ==> #[trigger] ctx.seed_justified(i),
        decreases fcount - k,
    {
        let mut has_polluted: bool = false;
        let mut roots: Vec<usize> = Vec::new();
        let mut i: usize = 0;
        while i < n
            invariant
                0 <= i <= n,
                k < fcount,
                n == positions@.len(),
                fcount == factories@.len(),
                states@.len() == n,
                all_bounded(positions@, 2_000),
                all_bounded(factories@, 400_000_000),
                1 <= radius <= 1_000_000,
                ctx == tick_ctx(
                    states@,
                    adj@,
                    positions@,
                    radius as int,
                    factories@,
                    root_sq as int,
                    conn_sq as int,
                ),
                forall|j: int|
                    0 <= j < roots@.len() ==> (#[trigger] roots@[j]) < n && ctx.near(
                        factories@[k as int]@,
                        roots@[j] as int,
                        root_sq as int,
                    ),
                has_polluted ==> exists|x: int|
                    #![auto]
                    0 <= x < n && ctx.near(factories@[k as int]@, x, root_sq as int) && states@[x]
                        == TileState::Polluted,
                !has_polluted ==> forall|x: int|
                    0 <= x < i && #[trigger] ctx.near(factories@[k as int]@, x, root_sq as int)
                        ==> states@[x] != TileState::Polluted,
            decreases n - i,
        {
            let w: Vec3Milli = world_of(&positions[i], radius);
            let d: i64 = w.dist_sq(&factories[k]);
            if d < root_sq {
                roots.push(i);
                if matches!(states[i], TileState::Polluted) {
                    has_polluted = true;
                }
            }
            i = i + 1;
        }
        if !has_polluted && roots.len() > 0 {
            proof {
                assert(ctx.factory_unpolluted(k as int));
            }
            if rand_below(1000) < SEED_CHANCE_MILLI {
                let rcount: usize = roots.len();
                let mut ri: usize = 0;
                while ri < rcount
                    invariant
                        0 <= ri <= rcount,
                        rcount == roots@.len(),
                        k < fcount,
                        n == positions@.len(),
                        fcount == factories@.len(),
                        states@.len() == n,
                        adjacency_wf(adj@, n as int),
                        marks@.len() == n,
                        marks0.len() == n,
                        ctx == tick_ctx(
                            states@,
                            adj@,
                            positions@,
                            radius as int,
                            factories@,
                            root_sq as int,
                            conn_sq as int,
                        ),
                        ctx.factory_unpolluted(k as int),
                        forall|j: int|
                            0 <= j < roots@.len() ==> (#[trigger] roots@[j]) < n && ctx.near(
                                factories@[k as int]@,
                                roots@[j] as int,
                                root_sq as int,
                            ),
                        forall|i2: int| 0 <= i2 < n && marks0[i2] ==> marks@[i2],
                        forall|i2: int|
                            0 <= i2 < n && marks@[i2] && !marks0[i2] ==> #[trigger] ctx.seed_justified(
                                i2,
                            ),
                    decreases rcount - ri,
                {
                    let rv: usize = roots[ri];
                    marks.set(rv, true);
                    proof {
                        assert(ctx.seed_justified(rv as int));
                    }
                    let deg: usize = adj[rv].len();
                    let mut j: usize = 0;
                    while j < deg
                        invariant
                            0 <= j <= deg,
                            rv < n,
                            k < fcount,
                            n == positions@.len(),
                            fcount == factories@.len(),
                            states@.len() == n,
                            adjacency_wf(adj@, n as int),
                            deg == adj@[rv as int]@.len(),
                            marks@.len() == n,
                            marks0.len() == n,
                            ctx == tick_ctx(
                                states@,
                                adj@,
                                positions@,
                                radius as int,
                                factories@,
                                root_sq as int,
                                conn_sq as int,
                            ),
                            ctx.factory_unpolluted(k as int),
                            ctx.near(factories@[k as int]@, rv as int, root_sq as int),
                            forall|i2: int| 0 <= i2 < n && marks0[i2] ==> marks@[i2],
                            forall|i2: int|
                                0 <= i2 < n && marks@[i2] && !marks0[i2]
                                    ==> #[trigger] ctx.seed_justified(i2),
                        decreases deg - j,
                    {
                        let nb: usize = adj[rv][j];
                        marks.set(nb, true);
                        proof {
                            assert(lists(adj@, rv as int, nb as int));
                            assert(ctx.adj == adj@ && ctx.s == states@ && ctx.factories
                                == factories@ && ctx.root_sq == root_sq as int);
                            assert(ctx.near(ctx.factories[k as int]@, rv as int, ctx.root_sq));
                            assert(lists(ctx.adj, rv as int, nb as int));
                            assert(0 <= (rv as int) < ctx.s.len());
                            assert(exists|r: int|
                                #![auto]
                                0 <= r < ctx.s.len() && ctx.near(
                                    ctx.factories[k as int]@,
                                    r,
                                    ctx.root_sq,
                                ) && lists(ctx.adj, r, nb as int));
                            assert(ctx.seed_justified(nb as int));
                        }
                        j = j + 1;
                    }
                    ri = ri + 1;
                }
            }
        }
        k = k + 1;
    }
}

/// Front activation: Polluted vertices within the connect radius of any
/// factory seed a traversal that marks every Polluted vertex reachable
/// through Polluted neighbors. Every flag it sets is justified by a
/// Polluted path from factory-proximal pollution.
fn front_phase(
    states: &Vec<TileState>,
    adj: &Vec<Vec<usize>>,
    positions: &Vec<Vec3Milli>,
    radius: i64,
    factories: &Vec<Vec3Milli>,
    root_sq: i64,
    conn_sq: i64,
) -> (active: Vec<bool>)
    requires
        states@.len() == positions@.len(),
        adjacency_wf(adj@, positions@.len() as int),
        all_bounded(positions@, 2_000),
        all_bounded(factories@, 400_000_000),
        1 <= radius <= 1_000_000,
    ensures
        active@.len() == positions@.len(),
        forall|v: int|
            0 <= v < active@.len() && active@[v] ==> #[trigger] tick_ctx(
                states@,
                adj@,
                positions@,
                radius as int,
                factories@,
                root_sq as int,
                conn_sq as int,
            ).active(v),
        forall|v: int|
            0 <= v < active@.len() && #[trigger] tick_ctx(
                states@,
                adj@,
                positions@,
                radius as int,
                factories@,
                root_sq as int,
                conn_sq as int,
            ).active(v) ==> active@[v],
{
    let ghost ctx = tick_ctx(
        states@,
        adj@,
        positions@,
        radius as int,
        factories@,
        root_sq as int,
        conn_sq as int,
    );
    let n: usize = positions.len();
    let mut active: Vec<bool> = false_vec(n);
    let mut queue: Vec<usize> = Vec::new();
    proof {
        lemma_count_true_le_len(active@);
    }
    let mut i: usize = 0;
    while i < n
        invariant
            0 <= i <= n,
            n == positions@.len(),
            states@.len() == n,
            all_bounded(positions@, 2_000),
            all_bounded(factories@, 400_000_000),
            1 <= radius <= 1_000_000,
            active@.len() == n,
            ctx == tick_ctx(
                states@,
                adj@,
                positions@,
                radius as int,
                factories@,
                root_sq as int,
                conn_sq as int,
            ),
            forall|v: int| i <= v < n ==> !active@[v],
            forall|v: int| 0 <= v < n && active@[v] ==> #[trigger] ctx.active(v),
            forall|v: int| 0 <= v < i && #[trigger] ctx.front_seed(v) ==> active@[v],
            forall|v: int|
                0 <= v < n && #[trigger] active@[v] ==> exists|jq: int|
                    0 <= jq < queue@.len() && queue@[jq] == v,
            forall|j: int|
                0 <= j < queue@.len() ==> (#[trigger] queue@[j]) < n && active@[queue@[j] as int],
            queue@.len() <= count_true(active@),
        decreases n - i,
    {
        if matches!(states[i], TileState::Polluted) {
            let w: Vec3Milli = world_of(&positions[i], radius);
            if near_any(&w, factories, conn_sq) {
                proof {
                    lemma_count_true_set(active@, i as int);
                    let p: Seq<int> = seq![i as int];
                    assert(p[0] == i as int);
                    assert(p[p.len() - 1] == i as int);
                    let k = choose|k: int|
                        0 <= k < factories@.len() && within(
                            w@,
                            factories@[k]@,
                            conn_sq as int,
                        );
                    assert(ctx.near(ctx.factories[k]@, i as int, ctx.conn_sq));
                    assert(ctx.polluted_path(p, i as int));
                }
                let ghost pre_active = active@;
                let ghost pre_queue = queue@;
                active.set(i, true);
                queue.push(i);
                proof {
                    assert forall|v: int|
                        0 <= v < n && #[trigger] active@[v] implies exists|jq: int|
                        0 <= jq < queue@.len() && queue@[jq] == v by {
                        if v == i as int {
                            assert(queue@[queue@.len() - 1] == v);
                        } else {
                            assert(pre_active[v]);
                            let jq = choose|jq: int|
                                0 <= jq < pre_queue.len() && pre_queue[jq] == v;
                            assert(queue@[jq] == v);
                        }
                    }
                }
            } else {
                proof {
                    if ctx.front_seed(i as int) {
                        let k = choose|k: int|
                            #![auto]
                            0 <= k < ctx.factories.len() && ctx.near(
                                ctx.factories[k]@,
                                i as int,
                                ctx.conn_sq,
                            );
                        assert(within(w@, factories@[k]@, conn_sq as int));
                        assert(false);
                    }
                }
            }
        }
        i = i + 1;
    }
    proof {
        lemma_count_true_le_len(active@);
    }
    let mut qi: usize = 0;
    while qi < queue.len()
        invariant
            0 <= qi <= queue@.len(),
            n == positions@.len(),
            states@.len() == n,
            adjacency_wf(adj@, n as int),
            active@.len() == n,
            ctx == tick_ctx(
                states@,
                adj@,
                positions@,
                radius as int,
                factories@,
                root_sq as int,
                conn_sq as int,
            ),
            forall|v: int| 0 <= v < n && active@[v] ==> #[trigger] ctx.active(v),
            forall|v: int| 0 <= v < n && #[trigger] ctx.front_seed(v) ==> active@[v],
            forall|v: int|
                0 <= v < n && #[trigger] active@[v] ==> exists|jq: int|
                    0 <= jq < queue@.len() && queue@[jq] == v,
            forall|j: int|
                0 <= j < queue@.len() ==> (#[trigger] queue@[j]) < n && active@[queue@[j] as int],
            queue@.len() <= count_true(active@),
            processed(adj@, states@, active@, queue@, qi as int),
        decreases n - qi,
    {
        proof {
            lemma_count_true_le_len(active@);
        }
        let cur: usize = queue[qi];
        let deg: usize = adj[cur].len();
        let mut j: usize = 0;
        while j < deg
            invariant
                0 <= j <= deg,
                cur < n,
                qi < queue@.len(),
                queue@[qi as int] == cur,
                active@[cur as int],
                n == positions@.len(),
                states@.len() == n,
                adjacency_wf(adj@, n as int),
                deg == adj@[cur as int]@.len(),
                active@.len() == n,
                ctx == tick_ctx(
                    states@,
                    adj@,
                    positions@,
                    radius as int,
                    factories@,
                    root_sq as int,
                    conn_sq as int,
                ),
                forall|v: int| 0 <= v < n && active@[v] ==> #[trigger] ctx.active(v),
                forall|v: int| 0 <= v < n && #[trigger] ctx.front_seed(v) ==> active@[v],
                forall|v: int|
                    0 <= v < n && #[trigger] active@[v] ==> exists|jq: int|
                        0 <= jq < queue@.len() && queue@[jq] == v,
                forall|jq: int|
                    0 <= jq < queue@.len() ==> (#[trigger] queue@[jq]) < n && active@[queue@[jq] as int],
                queue@.len() <= count_true(active@),
                processed(adj@, states@, active@, queue@, qi as int),
                forall|kk: int|
                    0 <= kk < j ==> (states@[adj@[cur as int]@[kk] as int] == TileState::Polluted
                        ==> active@[#[trigger] adj@[cur as int]@[kk] as int]),
            decreases deg - j,
        {
            let nb: usize = adj[cur][j];
            if !active[nb] && matches!(states[nb], TileState::Polluted) {
                proof {
                    lemma_count_true_set(active@, nb as int);
                    assert(ctx.active(cur as int));
                    let p = choose|p: Seq<int>| ctx.polluted_path(p, cur as int);
                    let p2 = p.push(nb as int);
                    assert(lists(adj@, cur as int, nb as int));
                    assert(p2[p2.len() - 1] == nb as int);
                    assert(p2[0] == p[0]);
                    assert forall|jj: int| 0 <= jj < p2.len() - 1 implies lists(
                        ctx.adj,
                        #[trigger] p2[jj],
                        p2[jj + 1],
                    ) by {
                        if jj < p.len() - 1 {
                            assert(p2[jj] == p[jj] && p2[jj + 1] == p[jj + 1]);
                        } else {
                            assert(p2[jj] == p[p.len() - 1] && p2[jj + 1] == nb as int);
                        }
                    }
                    assert(ctx.polluted_path(p2, nb as int));
                }
                let ghost pre_active = active@;
                let ghost pre_queue = queue@;
                active.set(nb, true);
                queue.push(nb);
                proof {
                    assert forall|v: int|
                        0 <= v < n && #[trigger] active@[v] implies exists|jq2: int|
                        0 <= jq2 < queue@.len() && queue@[jq2] == v by {
                        if v == nb as int {
                            assert(queue@[queue@.len() - 1] == v);
                        } else {
                            assert(pre_active[v]);
                            let jq2 = choose|jq2: int|
                                0 <= jq2 < pre_queue.len() && pre_queue[jq2] == v;
                            assert(queue@[jq2] == v);
                        }
                    }
                }
            }
            j = j + 1;
        }
        proof {
            assert forall|jq: int, k: int|
                0 <= jq < qi + 1 && 0 <= k < adj@[queue@[jq] as int]@.len() implies {
                let nb2 = #[trigger] adj@[queue@[jq] as int]@[k];
                states@[nb2 as int] == TileState::Polluted ==> active@[nb2 as int]
            } by {
                if jq == qi as int {
                    assert(queue@[jq] == cur);
                }
            }
        }
        qi = qi + 1;
    }
    proof {
        assert forall|a: int, b: int|
            0 <= a < n && active@[a] && #[trigger] lists(ctx.adj, a, b) && 0 <= b < n
                && ctx.s[b] == TileState::Polluted implies active@[b] by {
            let jq = choose|jq: int| 0 <= jq < queue@.len() && queue@[jq] == a;
            let k = choose|k: int| 0 <= k < ctx.adj[a]@.len() && ctx.adj[a]@[k] == b;
            assert(adj@[queue@[jq] as int]@[k] == b);
        }
        assert forall|v: int| 0 <= v < n && #[trigger] ctx.active(v) implies active@[v] by {
            let p = choose|p: Seq<int>| ctx.polluted_path(p, v);
            lemma_path_active(ctx, active@, p, v);
        }
    }
    active
}

/// Spread: every active vertex with at least one non-Polluted neighbor
/// picks one uniformly and, with the configured chance, marks it and its
/// siblings for infection.
fn spread_phase(
    states: &Vec<TileState>,
    adj: &Vec<Vec<usize>>,
    positions: &Vec<Vec3Milli>,
    radius: i64,
    factories: &Vec<Vec3Milli>,
    root_sq: i64,
    conn_sq: i64,
    active: &Vec<bool>,
    chance_milli: usize,
    marks: &mut Vec<bool>,
)
    requires
        states@.len() == positions@.len(),
        adjacency_wf(adj@, positions@.len() as int),
        active@.len() == positions@.len(),
        forall|v: int|
            0 <= v < active@.len() && active@[v] ==> #[trigger] tick_ctx(
                states@,
                adj@,
                positions@,
                radius as int,
                factories@,
                root_sq as int,
                conn_sq as int,
            ).active(v),
        old(marks)@.len() == positions@.len(),
    ensures
        final(marks)@.len() == old(marks)@.len(),
        forall|i: int| 0 <= i < old(marks)@.len() && old(marks)@[i] ==> final(marks)@[i],
        forall|i: int|
            0 <= i < old(marks)@.len() && final(marks)@[i] && !old(marks)@[i]
                ==> #[trigger] tick_ctx(
                states@,
                adj@,
                positions@,
                radius as int,
                factories@,
                root_sq as int,
                conn_sq as int,
            ).spread_justified(i),
        chance_milli >= 1000 ==> forall|a: int|
            0 <= a < active@.len() && active@[a] && #[trigger] tick_ctx(
                states@,
                adj@,
                positions@,
                radius as int,
                factories@,
                root_sq as int,
                conn_sq as int,
            ).has_candidate(a) ==> tick_ctx(
                states@,
                adj@,
                positions@,
                radius as int,
                factories@,
                root_sq as int,
                conn_sq as int,
            ).served(final(marks)@, a),
{
    let ghost ctx = tick_ctx(
        states@,
        adj@,
        positions@,
        radius as int,
        factories@,
        root_sq as int,
        conn_sq as int,
    );
    let ghost marks0 = marks@;
    let n: usize = positions.len();
    let mut idx: usize = 0;
    while idx < n
        invariant
            0 <= idx <= n,
            n == positions@.len(),
            states@.len() == n,
            adjacency_wf(adj@, n as int),
            active@.len() == n,
            marks@.len() == n,
            marks0.len() == n,
            ctx == tick_ctx(
                states@,
                adj@,
                positions@,
                radius as int,
                factories@,
                root_sq as int,
                conn_sq as int,
            ),
            forall|v: int| 0 <= v < n && active@[v] ==> #[trigger] ctx.active(v),
            forall|i: int| 0 <= i < n && marks0[i] ==> marks@[i],
            forall|i: int|
                0 <= i < n && marks@[i] && !marks0[i] ==> #[trigger] ctx.spread_justified(i),
            chance_milli >= 1000 ==> forall|a: int|
                0 <= a < idx && active@[a] && #[trigger] ctx.has_candidate(a) ==> ctx.served(
                    marks@,
                    a,
                ),
        decreases n - idx,
    {
        let ghost m_it = marks@;
        if active[idx] {
            let deg: usize = adj[idx].len();
            let mut targets: Vec<usize> = Vec::new();
            let mut j: usize = 0;
            while j < deg
                invariant
                    0 <= j <= deg,
                    idx < n,
                    n == positions@.len(),
                    states@.len() == n,
                    adjacency_wf(adj@, n as int),
                    deg == adj@[idx as int]@.len(),
                    ctx == tick_ctx(
                        states@,
                        adj@,
                        positions@,
                        radius as int,
                        factories@,
                        root_sq as int,
                        conn_sq as int,
                    ),
                    forall|t: int|
                        0 <= t < targets@.len() ==> (#[trigger] targets@[t]) < n && lists(
                            adj@,
                            idx as int,
                            targets@[t] as int,
                        ) && states@[targets@[t] as int] != TileState::Polluted,
                    targets@.len() == 0 ==> forall|kk: int|
                        0 <= kk < j ==> states@[#[trigger] adj@[idx as int]@[kk] as int]
                            == TileState::Polluted,
                decreases deg - j,
            {
                let nb: usize = adj[idx][j];
                if !matches!(states[nb], TileState::Polluted) {
                    proof {
                        assert(lists(adj@, idx as int, nb as int));
                    }
                    targets.push(nb);
                }
                j = j + 1;
            }
            if targets.len() > 0 {
                let pick: usize = targets[rand_below(targets.len())];
                let roll: usize = rand_below(1000);
                if roll < chance_milli {
                    marks.set(pick, true);
                    proof {
                        assert(ctx.active(idx as int));
                        assert(ctx.spread_justified(pick as int));
                    }
                    let pdeg: usize = adj[pick].len();
                    let mut j2: usize = 0;
                    while j2 < pdeg
                        invariant
                            0 <= j2 <= pdeg,
                            idx < n,
                            pick < n,
                            n == positions@.len(),
                            states@.len() == n,
                            adjacency_wf(adj@, n as int),
                            pdeg == adj@[pick as int]@.len(),
                            marks@.len() == n,
                            marks0.len() == n,
                            m_it.len() == n,
                            ctx == tick_ctx(
                                states@,
                                adj@,
                                positions@,
                                radius as int,
                                factories@,
                                root_sq as int,
                                conn_sq as int,
                            ),
                            ctx.active(idx as int),
                            lists(adj@, idx as int, pick as int),
                            states@[pick as int] != TileState::Polluted,
                            marks@[pick as int],
                            forall|i: int| 0 <= i < n && marks0[i] ==> marks@[i],
                            forall|i: int| 0 <= i < n && m_it[i] ==> marks@[i],
                            forall|i: int|
                                0 <= i < n && marks@[i] && !marks0[i]
                                    ==> #[trigger] ctx.spread_justified(i),
                            forall|kk: int|
                                0 <= kk < j2 ==> marks@[#[trigger] adj@[pick as int]@[kk] as int],
                        decreases pdeg - j2,
                    {
                        let sib: usize = adj[pick][j2];
                        let ghost pre_sib = marks@;
                        marks.set(sib, true);
                        proof {
                            assert(lists(adj@, pick as int, sib as int));
                            assert(ctx.spread_justified(sib as int));
                            assert forall|kk: int|
                                0 <= kk < j2 + 1 implies marks@[(#[trigger] adj@[pick as int]@[kk]) as int] by {
                                if kk < j2 {
                                    assert(pre_sib[adj@[pick as int]@[kk] as int]);
                                }
                            }
                        }
                        j2 = j2 + 1;
                    }
                    proof {
                        if chance_milli >= 1000 {
                            assert forall|sib: int|
                                0 <= sib < ctx.s.len() && #[trigger] lists(
                                    ctx.adj,
                                    pick as int,
                                    sib,
                                ) implies marks@[sib] by {
                                let kk = choose|kk: int|
                                    0 <= kk < ctx.adj[pick as int]@.len()
                                        && ctx.adj[pick as int]@[kk] == sib;
                                assert(marks@[adj@[pick as int]@[kk] as int]);
                            }
                            assert(ctx.served(marks@, idx as int));
                        }
                    }
                } else {
                    proof {
                        if chance_milli >= 1000 {
                            assert(false);
                        }
                    }
                }
            } else {
                proof {
                    if ctx.has_candidate(idx as int) {
                        let c = choose|c: int|
                            #![auto]
                            0 <= c < ctx.s.len() && lists(ctx.adj, idx as int, c) && ctx.s[c]
                                != TileState::Polluted;
                        let kk = choose|kk: int|
                            0 <= kk < ctx.adj[idx as int]@.len() && ctx.adj[idx as int]@[kk]
                                == c;
                        assert(states@[adj@[idx as int]@[kk] as int]
                            == TileState::Polluted);
                        assert(false);
                    }
                }
            }
        }
        proof {
            if chance_milli >= 1000 {
                assert forall|a: int|
                    0 <= a < idx + 1 && active@[a] && #[trigger] ctx.has_candidate(a) implies ctx.served(
                    marks@,
                    a,
                ) by {
                    if a < idx {
                        assert(ctx.served(m_it, a));
                        let t = choose|t: int|
                            #![auto]
                            0 <= t < ctx.s.len() && lists(ctx.adj, a, t) && ctx.s[t]
                                != TileState::Polluted && m_it[t] && (forall|sib: int|
                                0 <= sib < ctx.s.len() && #[trigger] lists(ctx.adj, t, sib)
                                    ==> m_it[sib]);
                        assert(marks@[t]);
                        assert forall|sib: int|
                            0 <= sib < ctx.s.len() && #[trigger] lists(
                                ctx.adj,
                                t,
                                sib,
                            ) implies marks@[sib] by {
                            assert(m_it[sib]);
                        }
                        assert(ctx.served(marks@, a));
                    }
                }
            }
        }
        idx = idx + 1;
    }
}

impl PlanetData {
    /// One contagion tick: seed near starved factories, activate the
    /// factory-connected pollution front, spread from it at random, and
    /// commit all marks at once. Returns the mark set that was committed.
    ///
    /// Whatever the random draws, the tick only turns tiles Polluted, and
    /// only tiles justified by a seeding factory or by the active front.
    /// With a certain spread chance (1000 per thousand) every vertex of
    /// the active front that has a non-Polluted neighbor infects one such
    /// neighbor together with all of that neighbor's siblings. With an
    /// empty adjacency graph (builder not run yet) the tick is a no-op.
    pub fn contagion_tick(
        &mut self,
        positions: &Vec<Vec3Milli>,
        radius: i64,
        factories: &Vec<Vec3Milli>,
        settings: &EnemySettings,
    ) -> (marked: Vec<bool>)
        requires
            old(self).vertex_states@.len() == positions@.len(),
            old(self).adjacency@.len() == 0 || adjacency_wf(
                old(self).adjacency@,
                positions@.len() as int,
            ),
            all_bounded(positions@, 2_000),
            all_bounded(factories@, 400_000_000),
            1 <= radius <= 1_000_000,
            0 <= settings.pollution_radius <= 1_000_000,
        ensures
            final(self).adjacency == old(self).adjacency,
            marked@.len() == old(self).vertex_states@.len(),
            final(self).vertex_states@ == commit_spec(old(self).vertex_states@, marked@),
            forall|i: int|
                0 <= i < marked@.len() && marked@[i] ==> #[trigger] tick_ctx(
                    old(self).vertex_states@,
                    old(self).adjacency@,
                    positions@,
                    radius as int,
                    factories@,
                    root_radius_sq(settings.pollution_radius as int),
                    connect_radius_sq(settings.pollution_radius as int),
                ).justified(i),
            old(self).adjacency@.len() == 0 ==> final(self).vertex_states@ == old(
                self,
            ).vertex_states@,
            old(self).adjacency@.len() != 0 && settings.natural_spread_chance >= 1000
                ==> forall|a: int|
                0 <= a < old(self).vertex_states@.len() && #[trigger] tick_ctx(
                    old(self).vertex_states@,
                    old(self).adjacency@,
                    positions@,
                    radius as int,
                    factories@,
                    root_radius_sq(settings.pollution_radius as int),
                    connect_radius_sq(settings.pollution_radius as int),
                ).active(a) && tick_ctx(
                    old(self).vertex_states@,
                    old(self).adjacency@,
                    positions@,
                    radius as int,
                    factories@,
                    root_radius_sq(settings.pollution_radius as int),
                    connect_radius_sq(settings.pollution_radius as int),
                ).has_candidate(a) ==> tick_ctx(
                    old(self).vertex_states@,
                    old(self).adjacency@,
                    positions@,
                    radius as int,
                    factories@,
                    root_radius_sq(settings.pollution_radius as int),
                    connect_radius_sq(settings.pollution_radius as int),
                ).served(marked@, a),
    {
        let n: usize = positions.len();
        if self.adjacency.len() == 0 {
            let marks: Vec<bool> = false_vec(n);
            proof {
                assert(commit_spec(self.vertex_states@, marks@) =~= self.vertex_states@);
            }
            return marks;
        }
        let pr: i64 = settings.pollution_radius;
        let root_r: i64 = ((pr as u64) / 2) as i64;
        let conn_r: i64 = (((pr as u64) * 12) / 10) as i64;
        proof {
            vstd::arithmetic::div_mod::lemma_div_is_ordered(pr as int, 1_000_000int, 2);
            vstd::arithmetic::div_mod::lemma_div_is_ordered(
                (pr as int) * 12,
                12_000_000int,
                10,
            );
            crate::vecmath::lemma_mul_abs_bound(root_r as int, root_r as int, 500_000, 500_000);
            crate::vecmath::lemma_mul_abs_bound(
                conn_r as int,
                conn_r as int,
                1_200_000,
                1_200_000,
            );
        }
        let root_sq: i64 = root_r * root_r;
        let conn_sq: i64 = conn_r * conn_r;
        proof {
            assert(root_sq as int == root_radius_sq(pr as int));
            assert(conn_sq as int == connect_radius_sq(pr as int));
        }
        let mut marks: Vec<bool> = false_vec(n);
        seed_phase(
            &self.vertex_states,
            &self.adjacency,
            positions,
            radius,
            factories,
            root_sq,
            conn_sq,
            &mut marks,
        );
        let active: Vec<bool> = front_phase(
            &self.vertex_states,
            &self.adjacency,
            positions,
            radius,
            factories,
            root_sq,
            conn_sq,
        );
        spread_phase(
            &self.vertex_states,
            &self.adjacency,
            positions,
            radius,
            factories,
            root_sq,
            conn_sq,
            &active,
            settings.natural_spread_chance,
            &mut marks,
        );
        proof {
            let ctx = tick_ctx(
                self.vertex_states@,
                self.adjacency@,
                positions@,
                radius as int,
                factories@,
                root_sq as int,
                conn_sq as int,
            );
            if settings.natural_spread_chance >= 1000 {
                assert forall|a: int|
                    0 <= a < n && #[trigger] ctx.active(a) && ctx.has_candidate(a) implies ctx.served(
                    marks@,
                    a,
                ) by {
                    assert(active@[a]);
                }
            }
        }
        let ghost s0 = self.vertex_states@;
        let mut i: usize = 0;
        while i < n
            invariant
                0 <= i <= n,
                n == positions@.len(),
                s0.len() == n,
                marks@.len() == n,
                self.vertex_states@.len() == n,
                self.adjacency == old(self).adjacency,
                forall|j: int|
                    0 <= j < i ==> self.vertex_states@[j] == commit_spec(s0, marks@)[j],
                forall|j: int| i <= j < n ==> self.vertex_states@[j] == s0[j],
            decreases n - i,
        {
            if marks[i] {
                self.vertex_states.set(i, TileState::Polluted);
            }
            i = i + 1;
        }
        proof {
            assert(self.vertex_states@ =~= commit_spec(s0, marks@));
        }
        marks
    }
}

} // verus!
