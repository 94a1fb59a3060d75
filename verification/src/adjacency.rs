//! Builds the planet's adjacency graph from the mesh's per-triangle vertex
//! positions.
//!
//! Flat-shaded meshes duplicate each corner once per triangle; two slots are
//! treated as the same corner exactly when their fixed-point (quantized)
//! positions coincide. The graph connects (a) the position groups at the two
//! ends of every triangle edge, all-to-all, and (b) all slots sharing one
//! position (siblings), so duplicates are adjacency-equivalent. A trailing
//! partial triangle (vertex count not divisible by three) is ignored.

use vstd::prelude::*;

use crate::tiles::{adjacency_wf, lists};
use crate::vecmath::Vec3Milli;

verus! {

/// Two vertex slots carry the same quantized position.
pub open spec fn same_pos(pos: Seq<Vec3Milli>, a: int, b: int) -> bool {
    pos[a] == pos[b]
}

/// Edge `e` of triangle `t` joins `a`'s position group to `b`'s, in either
/// orientation.
pub open spec fn edge_pair(pos: Seq<Vec3Milli>, t: int, e: int, a: int, b: int) -> bool {
    let u = 3 * t + e;
    let v = 3 * t + (e + 1) % 3;
    (same_pos(pos, a, u) && same_pos(pos, b, v)) || (same_pos(pos, a, v) && same_pos(pos, b, u))
}

/// Some edge of triangle `t` joins the position groups of `a` and `b`.
pub open spec fn edge_joins(pos: Seq<Vec3Milli>, t: int, a: int, b: int) -> bool {
    exists|e: int| 0 <= e < 3 && edge_pair(pos, t, e, a, b)
}

/// The intended adjacency relation: two distinct slots are neighbors when
/// they share a position (siblings) or some triangle edge joins their
/// position groups.
pub open spec fn adjacent_spec(pos: Seq<Vec3Milli>, a: int, b: int) -> bool {
    &&& a != b
    &&& (same_pos(pos, a, b) || exists|t: int|
        0 <= t < pos.len() / 3 && edge_joins(pos, t, a, b))
}

/// Adjacency symmetry: the relation holds of `(a, b)` exactly when it holds
/// of `(b, a)`.
pub proof fn lemma_adjacent_sym(pos: Seq<Vec3Milli>, a: int, b: int)
    ensures
        adjacent_spec(pos, a, b) <==> adjacent_spec(pos, b, a),
{
    assert forall|x: int, y: int| adjacent_spec(pos, x, y) implies adjacent_spec(pos, y, x) by {
        if !same_pos(pos, x, y) {
            let t = choose|t: int| 0 <= t < pos.len() / 3 && edge_joins(pos, t, x, y);
            let e = choose|e: int| 0 <= e < 3 && edge_pair(pos, t, e, x, y);
            assert(edge_pair(pos, t, e, y, x));
            assert(edge_joins(pos, t, y, x));
        }
    }
}

/// Adjacency completeness for siblings: two distinct slots sharing one
/// quantized position are always neighbors.
pub proof fn lemma_siblings_adjacent(pos: Seq<Vec3Milli>, a: int, b: int)
    requires
        a != b,
        same_pos(pos, a, b),
    ensures
        adjacent_spec(pos, a, b),
{
}

/// Scans all full triangles for an edge joining the position groups of `a`
/// and `b`.
fn edge_scan(positions: &Vec<Vec3Milli>, a: usize, b: usize) -> (r: bool)
    requires
        a < positions@.len(),
        b < positions@.len(),
    ensures
        r == exists|t: int|
            0 <= t < positions@.len() / 3 && edge_joins(positions@, t, a as int, b as int),
{
    let n: usize = positions.len();
    let tc: usize = n / 3;
    let pa: Vec3Milli = positions[a];
    let pb: Vec3Milli = positions[b];
    let mut t: usize = 0;
    while t < tc
        invariant
            0 <= t <= tc,
            tc == positions@.len() / 3,
            positions@.len() <= usize::MAX,
            a < positions@.len(),
            b < positions@.len(),
            pa == positions@[a as int],
            pb == positions@[b as int],
            forall|s: int| 0 <= s < t ==> !edge_joins(positions@, s, a as int, b as int),
        decreases tc - t,
    {
        proof {
            vstd::arithmetic::div_mod::lemma_fundamental_div_mod(positions@.len() as int, 3);
            assert(0 <= (positions@.len() as int) % 3 < 3);
            assert(3 * (t as int) + 2 < positions@.len());
        }
        let u0: usize = 3 * t;
        let u1: usize = 3 * t + 1;
        let u2: usize = 3 * t + 2;
        let p0: Vec3Milli = positions[u0];
        let p1: Vec3Milli = positions[u1];
        let p2: Vec3Milli = positions[u2];
        let m01: bool = (pa == p0 && pb == p1) || (pa == p1 && pb == p0);
        let m12: bool = (pa == p1 && pb == p2) || (pa == p2 && pb == p1);
        let m20: bool = (pa == p2 && pb == p0) || (pa == p0 && pb == p2);
        if m01 || m12 || m20 {
            proof {
                if m01 {
                    assert(edge_pair(positions@, t as int, 0, a as int, b as int));
                } else if m12 {
                    assert(edge_pair(positions@, t as int, 1, a as int, b as int));
                } else {
                    assert(edge_pair(positions@, t as int, 2, a as int, b as int));
                }
                assert(0 <= (t as int) < positions@.len() / 3 && edge_joins(
                    positions@,
                    t as int,
                    a as int,
                    b as int,
                ));
            }
            return true;
        }
        proof {
            assert forall|e: int| 0 <= e < 3 implies !edge_pair(
                positions@,
                t as int,
                e,
                a as int,
                b as int,
            ) by {
                if e == 0 {
                    assert(!m01);
                } else if e == 1 {
                    assert(!m12);
                } else {
                    assert(!m20);
                }
            }
        }
        t = t + 1;
    }
    false
}

/// Builds the symmetric, self-loop-free adjacency graph over the mesh's raw
/// vertex slots, as characterized by [`adjacent_spec`].
pub fn build_adjacency(positions: &Vec<Vec3Milli>) -> (adj: Vec<Vec<usize>>)
    ensures
        adjacency_wf(adj@, positions@.len() as int),
        forall|a: int, b: int|
            0 <= a < positions@.len() && 0 <= b < positions@.len() ==> (#[trigger] lists(
                adj@,
                a,
                b,
            ) <==> adjacent_spec(positions@, a, b)),
{
    let n: usize = positions.len();
    let mut adj: Vec<Vec<usize>> = Vec::new();
    let mut a: usize = 0;
    while a < n
        invariant
            0 <= a <= n,
            n == positions@.len(),
            adj@.len() == a,
            forall|x: int, k: int|
                0 <= x < a && 0 <= k < adj@[x]@.len() ==> (#[trigger] adj@[x]@[k]) < n
                    && adj@[x]@[k] != x,
            forall|x: int, b: int|
                0 <= x < a && 0 <= b < n ==> (#[trigger] lists(adj@, x, b) <==> adjacent_spec(
                    positions@,
                    x,
                    b,
                )),
        decreases n - a,
    {
        let mut row: Vec<usize> = Vec::new();
        let mut b: usize = 0;
        while b < n
            invariant
                0 <= b <= n,
                a < n,
                n == positions@.len(),
                forall|k: int|
                    0 <= k < row@.len() ==> (#[trigger] row@[k]) < b && adjacent_spec(
                        positions@,
                        a as int,
                        row@[k] as int,
                    ),
                forall|y: int|
                    0 <= y < b && adjacent_spec(positions@, a as int, y) ==> exists|k: int|
                        0 <= k < row@.len() && row@[k] == y,
            decreases n - b,
        {
            let mut joined: bool = false;
            if b != a {
                if positions[a] == positions[b] {
                    joined = true;
                } else {
                    joined = edge_scan(positions, a, b);
                }
            }
            proof {
                assert(joined == adjacent_spec(positions@, a as int, b as int));
            }
            if joined {
                let ghost prew = row@;
                row.push(b);
                proof {
                    assert forall|y: int|
                        0 <= y < b + 1 && adjacent_spec(positions@, a as int, y) implies exists|
                        k: int,
                    |
                        0 <= k < row@.len() && row@[k] == y by {
                        if y == b as int {
                            assert(row@[row@.len() - 1] == b);
                        } else {
                            let k = choose|k: int| 0 <= k < prew.len() && prew[k] == y;
                            assert(row@[k] == y);
                        }
                    }
                }
            }
            b = b + 1;
        }
        let ghost pre = adj@;
        let ghost rowv = row@;
        adj.push(row);
        proof {
            assert(adj@ == pre.push(adj@[a as int]));
            assert(adj@[a as int]@ == rowv);
            assert forall|k: int|
                0 <= k < adj@[a as int]@.len() implies (#[trigger] adj@[a as int]@[k]) < n
                && adj@[a as int]@[k] != a by {
                assert(adjacent_spec(positions@, a as int, rowv[k] as int));
            }
            assert forall|x: int, y: int|
                0 <= x < a + 1 && 0 <= y < n implies (#[trigger] lists(adj@, x, y)
                <==> adjacent_spec(positions@, x, y)) by {
                if x < a {
                    assert(adj@[x] == pre[x]);
                    assert(lists(adj@, x, y) <==> lists(pre, x, y));
                } else {
                    if adjacent_spec(positions@, x, y) {
                        let k = choose|k: int| 0 <= k < rowv.len() && rowv[k] == y;
                        assert(adj@[x]@[k] == y);
                    }
                    if lists(adj@, x, y) {
                        let k = choose|k: int| 0 <= k < adj@[x]@.len() && adj@[x]@[k] == y;
                        assert(adjacent_spec(positions@, a as int, rowv[k] as int));
                    }
                }
            }
        }
        a = a + 1;
    }
    proof {
        assert forall|x: int, y: int|
            0 <= x < n && 0 <= y < n && #[trigger] lists(adj@, x, y) implies lists(
            adj@,
            y,
            x,
        ) by {
            lemma_adjacent_sym(positions@, x, y);
        }
    }
    adj
}

} // verus!
