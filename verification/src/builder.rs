//! One-shot construction of a mesh from a flat index buffer and a flat
//! coordinate buffer.
//!
//! The builder creates one vertex per coordinate triple, one face per
//! index triple, infers shared edges by keying each directed edge on its
//! canonicalized endpoint pair, and finally synthesizes a twin for every
//! half-edge left unpaired, so the twin relation is total on the result.

use vstd::prelude::*;

use std::collections::HashMap;

use crate::connectivity::ConnectivityInfo;
use crate::connectivity::Face;
use crate::connectivity::HalfEdge;
use crate::connectivity::Vertex;
use crate::connectivity::assign_anchor;
use crate::connectivity::triangle_halfedges;
use crate::ids::FaceID;
use crate::ids::HalfEdgeID;
use crate::ids::VertexID;
use crate::mesh::Mesh;
use crate::vector::COORD_LIMIT;
use crate::vector::Vec3;
use crate::vector::position_in_range;

verus! {

broadcast use vstd::std_specs::hash::group_hash_axioms;

/// The order-independent key of the undirected edge between two
/// vertices: the smaller handle in the high 32 bits, the larger in the
/// low 32 bits.
pub open spec fn spec_edge_key(a: VertexID, b: VertexID) -> int {
    if a.0 <= b.0 {
        (a.0 as u64) * 0x1_0000_0000 + (b.0 as u64)
    } else {
        (b.0 as u64) * 0x1_0000_0000 + (a.0 as u64)
    }
}

/// Two directed edges with the same key join the same two vertices.
proof fn lemma_edge_key_injective(a1: VertexID, b1: VertexID, a2: VertexID, b2: VertexID)
    requires
        spec_edge_key(a1, b1) == spec_edge_key(a2, b2),
    ensures
        (a1 == a2 && b1 == b2) || (a1 == b2 && b1 == a2),
{
}

/// Computes the canonical undirected-edge key of two vertex handles.
fn edge_key(a: VertexID, b: VertexID) -> (k: u64)
    ensures
        k == spec_edge_key(a, b),
{
    if a.0 <= b.0 {
        (a.0 as u64) * 0x1_0000_0000 + (b.0 as u64)
    } else {
        (b.0 as u64) * 0x1_0000_0000 + (a.0 as u64)
    }
}


/// The corner the directed edge at `j` targets: within face `j / 3`, the
/// corner after `j` in winding order.
pub open spec fn edge_target_at(indices: Seq<u32>, j: int) -> u32 {
    indices[3 * (j / 3) + ((j % 3 + 1) % 3)]
}

/// The canonical undirected key of the directed edge at `j`, which runs
/// from corner `indices[j]` to the following corner of its face.
pub open spec fn edge_key_at(indices: Seq<u32>, j: int) -> int {
    spec_edge_key(VertexID(indices[j]), VertexID(edge_target_at(indices, j)))
}

/// How many directed edges before `j` canonicalize to key `k`.
pub open spec fn count_key_before(indices: Seq<u32>, k: int, j: int) -> int
    decreases j,
{
    if j <= 0 {
        0
    } else {
        count_key_before(indices, k, j - 1) + (if edge_key_at(indices, j - 1) == k {
            1int
        } else {
            0int
        })
    }
}

/// The occurrence rank of the directed edge at `j` among the edges of
/// its key: 0 for the first sight, 1 for the second, and so on.
pub open spec fn edge_rank(indices: Seq<u32>, j: int) -> int {
    count_key_before(indices, edge_key_at(indices, j), j)
}

/// The latest directed edge before `j` with key `k`, or -1 if none.
pub open spec fn prev_with_key(indices: Seq<u32>, k: int, j: int) -> int
    decreases j,
{
    if j <= 0 {
        -1
    } else if edge_key_at(indices, j - 1) == k {
        j - 1
    } else {
        prev_with_key(indices, k, j - 1)
    }
}

/// The earliest directed edge in `(j, p)` with key `k`, or `p` if none.
pub open spec fn next_with_key(indices: Seq<u32>, k: int, j: int, p: int) -> int
    decreases p - j,
{
    if j + 1 >= p {
        p
    } else if edge_key_at(indices, j + 1) == k {
        j + 1
    } else {
        next_with_key(indices, k, j + 1, p)
    }
}

/// The directed edge at `j` is left unpaired by stitching: it is a
/// first, third, ... sight of its key and no later edge shares the key.
pub open spec fn unmatched_edge(indices: Seq<u32>, j: int) -> bool {
    edge_rank(indices, j) % 2 == 0 && next_with_key(
        indices,
        edge_key_at(indices, j),
        j,
        indices.len() as int,
    ) == indices.len()
}

/// How many directed edges before `j` stitching leaves unpaired.
pub open spec fn unmatched_before(indices: Seq<u32>, j: int) -> int
    decreases j,
{
    if j <= 0 {
        0
    } else {
        unmatched_before(indices, j - 1) + (if unmatched_edge(indices, j - 1) {
            1int
        } else {
            0int
        })
    }
}

/// The exact outcome of twin stitching and boundary closure, as a
/// function of the index buffer alone: a second, fourth, ... sight of an
/// undirected edge is the twin of the sight just before it; a first,
/// third, ... sight is the twin of the following sight when one exists
/// (so on non-manifold input the first two sights pair and later ones do
/// not re-link), and otherwise of a synthesized boundary half-edge,
/// appended in the order the unpaired edges were created.
pub open spec fn stitched_twins_ok(c: ConnectivityInfo, indices: Seq<u32>) -> bool {
    let n = indices.len() as int;
    &&& c.hs().len() == n + unmatched_before(indices, n)
    &&& forall|j: int|
        0 <= j < n && edge_rank(indices, j) % 2 == 1 ==> (#[trigger] c.hs()[j]).twin == Some(
            HalfEdgeID(prev_with_key(indices, edge_key_at(indices, j), j) as u32),
        )
    &&& forall|j: int|
        0 <= j < n && edge_rank(indices, j) % 2 == 0 && !unmatched_edge(indices, j) ==> (
        #[trigger] c.hs()[j]).twin == Some(
            HalfEdgeID(next_with_key(indices, edge_key_at(indices, j), j, n) as u32),
        )
    &&& forall|j: int|
        0 <= j < n && unmatched_edge(indices, j) ==> {
            let b = n + unmatched_before(indices, j);
            &&& (#[trigger] c.hs()[j]).twin == Some(HalfEdgeID(b as u32))
            &&& c.hs()[b] == (HalfEdge {
                vertex: Some(VertexID(indices[j])),
                twin: Some(HalfEdgeID(j as u32)),
                next: None,
                face: None,
            })
        }
}

/// Edge keys are nonnegative and fit in 64 bits.
proof fn lemma_edge_key_bounds(a: VertexID, b: VertexID)
    ensures
        0 <= spec_edge_key(a, b) < 0x1_0000_0000_0000_0000,
{
}

/// `prev_with_key` finds the latest earlier sight of the key: it carries
/// the key and nothing between it and `j` does.
proof fn lemma_prev_with_key(indices: Seq<u32>, k: int, j: int)
    requires
        0 <= j,
    ensures
        ({
            let e = prev_with_key(indices, k, j);
            &&& -1 <= e < j
            &&& (e >= 0 ==> edge_key_at(indices, e) == k)
            &&& forall|x: int| e < x < j ==> edge_key_at(indices, x) != k
        }),
    decreases j,
{
    if j > 0 && edge_key_at(indices, j - 1) != k {
        lemma_prev_with_key(indices, k, j - 1);
    }
}

/// `next_with_key` finds the earliest later sight of the key within the
/// bound: it carries the key and nothing between `j` and it does.
proof fn lemma_next_with_key(indices: Seq<u32>, k: int, j: int, p: int)
    requires
        j < p,
    ensures
        ({
            let r = next_with_key(indices, k, j, p);
            &&& j < r <= p
            &&& (r < p ==> edge_key_at(indices, r) == k)
            &&& forall|x: int| j < x < r ==> edge_key_at(indices, x) != k
        }),
    decreases p - j,
{
    if j + 1 < p && edge_key_at(indices, j + 1) != k {
        lemma_next_with_key(indices, k, j + 1, p);
    }
}

/// Extending the scan bound by one edge: an existing hit stays; a miss
/// extends to the new edge exactly when it carries the key.
proof fn lemma_next_with_key_extend(indices: Seq<u32>, k: int, j: int, p: int)
    requires
        j < p,
    ensures
        ({
            let r = next_with_key(indices, k, j, p);
            next_with_key(indices, k, j, p + 1) == (if r < p {
                r
            } else if edge_key_at(indices, p) == k {
                p
            } else {
                p + 1
            })
        }),
    decreases p - j,
{
    if j + 1 < p {
        if edge_key_at(indices, j + 1) == k {
            assert(next_with_key(indices, k, j, p) == j + 1);
            assert(next_with_key(indices, k, j, p + 1) == j + 1);
        } else {
            lemma_next_with_key_extend(indices, k, j + 1, p);
            assert(next_with_key(indices, k, j, p) == next_with_key(indices, k, j + 1, p));
            assert(next_with_key(indices, k, j, p + 1) == next_with_key(indices, k, j + 1, p + 1));
        }
    } else {
        assert(next_with_key(indices, k, j, p) == p);
        if edge_key_at(indices, p) == k {
            assert(next_with_key(indices, k, j, p + 1) == p);
        } else {
            assert(next_with_key(indices, k, j, p + 1) == next_with_key(indices, k, p, p + 1));
            assert(next_with_key(indices, k, p, p + 1) == p + 1);
        }
    }
}

/// The occurrence count of a key is unchanged over a stretch without it.
proof fn lemma_count_stable(indices: Seq<u32>, k: int, a: int, b: int)
    requires
        0 <= a <= b,
        forall|x: int| a <= x < b ==> #[trigger] edge_key_at(indices, x) != k,
    ensures
        count_key_before(indices, k, b) == count_key_before(indices, k, a),
    decreases b - a,
{
    if a < b {
        lemma_count_stable(indices, k, a, b - 1);
    }
}


/// The per-edge bookkeeping of twin stitching: the transient map holds
/// exactly the keys seen an odd number of times so far, each mapped to
/// its latest sight, and every processed edge already carries the
/// stitched twin state.
#[verifier::opaque]
pub open spec fn stitch_progress(
    c: ConnectivityInfo,
    m: Map<u64, u32>,
    indices: Seq<u32>,
    p: int,
) -> bool {
    &&& forall|k: u64|
        #[trigger] m.dom().contains(k) ==> count_key_before(indices, k as int, p) % 2 == 1
            && m[k] == prev_with_key(indices, k as int, p)
    &&& forall|k: u64|
        #[trigger] count_key_before(indices, k as int, p) % 2 == 1 ==> m.dom().contains(k)
    &&& forall|j: int|
        0 <= j < p && edge_rank(indices, j) % 2 == 1 ==> (#[trigger] c.hs()[j]).twin == Some(
            HalfEdgeID(prev_with_key(indices, edge_key_at(indices, j), j) as u32),
        )
    &&& forall|j: int|
        0 <= j < p && edge_rank(indices, j) % 2 == 0 ==> (#[trigger] c.hs()[j]).twin == (
        if next_with_key(indices, edge_key_at(indices, j), j, p) < p {
            Some(HalfEdgeID(next_with_key(indices, edge_key_at(indices, j), j, p) as u32))
        } else {
            None
        })
}

/// Processing one directed edge advances the stitching bookkeeping by
/// one: pairing on an odd sight, recording on an even one.
#[verifier::rlimit(100)]
proof fn lemma_stitch_advance(
    c_pre: ConnectivityInfo,
    c_post: ConnectivityInfo,
    m_pre: Map<u64, u32>,
    m_post: Map<u64, u32>,
    indices: Seq<u32>,
    q: int,
)
    requires
        0 <= q < indices.len(),
        indices.len() <= u32::MAX,
        q < c_pre.hs().len(),
        c_post.hs().len() == c_pre.hs().len(),
        stitch_progress(c_pre, m_pre, indices, q),
        c_pre.hs()[q].twin is None,
        ({
            let k = edge_key_at(indices, q) as u64;
            if m_pre.dom().contains(k) {
                let e = HalfEdgeID(m_pre[k]);
                &&& m_post == m_pre.remove(k)
                &&& c_post.he(HalfEdgeID(q as u32)).twin == Some(e)
                &&& c_post.he(e).twin == Some(HalfEdgeID(q as u32))
                &&& forall|j: int|
                    0 <= j < c_pre.hs().len() && j != q && j != e.0
                        ==> #[trigger] c_post.hs()[j] == c_pre.hs()[j]
            } else {
                &&& m_post == m_pre.insert(k, q as u32)
                &&& c_post == c_pre
            }
        }),
    ensures
        stitch_progress(c_post, m_post, indices, q + 1),
{
    reveal(stitch_progress);
    let kq = edge_key_at(indices, q);
    assert(0 <= kq < 0x1_0000_0000_0000_0000) by {
        lemma_edge_key_bounds(VertexID(indices[q]), VertexID(edge_target_at(indices, q)));
    }
    let ku = kq as u64;
    assert(ku as int == kq);
    assert(count_key_before(indices, kq, q + 1) == count_key_before(indices, kq, q) + 1);
    assert forall|k2: int| k2 != kq implies #[trigger] count_key_before(indices, k2, q + 1)
        == count_key_before(indices, k2, q) by {
        assert(count_key_before(indices, k2, q + 1) == count_key_before(indices, k2, q) + (
        if edge_key_at(indices, q) == k2 {
            1int
        } else {
            0int
        }));
    }
    assert(prev_with_key(indices, kq, q + 1) == q);
    assert forall|k2: int| k2 != kq implies #[trigger] prev_with_key(indices, k2, q + 1)
        == prev_with_key(indices, k2, q) by {
        assert(prev_with_key(indices, k2, q + 1) == (if edge_key_at(indices, q) == k2 {
            q
        } else {
            prev_with_key(indices, k2, q)
        }));
    }
    if m_pre.dom().contains(ku) {
        let e = m_pre[ku] as int;
        assert(count_key_before(indices, kq, q) % 2 == 1);
        assert(e == prev_with_key(indices, kq, q));
        lemma_prev_with_key(indices, kq, q);
        if e < 0 {
            lemma_count_stable(indices, kq, 0, q);
            assert(false);
        }
        assert(0 <= e < q && edge_key_at(indices, e) == kq);
        lemma_count_stable(indices, kq, e + 1, q);
        assert(count_key_before(indices, kq, e + 1) == count_key_before(indices, kq, e) + 1);
        assert(edge_rank(indices, e) % 2 == 0);
        assert(edge_rank(indices, q) % 2 == 1);
        // the twin of q matches the odd-rank clause
        assert(c_post.hs()[q].twin == Some(HalfEdgeID(e as u32)));
        // the twin of e matches the even-rank clause at the new bound
        lemma_next_with_key(indices, kq, e, q + 1);
        assert(next_with_key(indices, kq, e, q + 1) == q) by {
            let r = next_with_key(indices, kq, e, q + 1);
            if r < q {
                assert(edge_key_at(indices, r) != kq);
            } else if r == q + 1 {
                assert(edge_key_at(indices, q) != kq);
            }
        }
        assert(c_post.hs()[e].twin == Some(HalfEdgeID(q as u32)));
        // map bookkeeping
        assert forall|k: u64| #[trigger] m_post.dom().contains(k) implies count_key_before(
            indices,
            k as int,
            q + 1,
        ) % 2 == 1 && m_post[k] == prev_with_key(indices, k as int, q + 1) by {
            assert(k != ku && m_pre.dom().contains(k) && m_pre[k] == m_post[k]);
            assert(k as int != kq);
        }
        assert forall|k: u64|
            #[trigger] count_key_before(indices, k as int, q + 1) % 2 == 1 implies
            m_post.dom().contains(k) by {
            if k as int == kq {
                assert(count_key_before(indices, kq, q + 1) % 2 == 0);
                assert(false);
            } else {
                assert(count_key_before(indices, k as int, q) % 2 == 1);
                assert(m_pre.dom().contains(k));
            }
        }
        // processed edges keep or gain the stitched twin state
        assert forall|j: int|
            0 <= j < q + 1 && edge_rank(indices, j) % 2 == 1 implies (#[trigger] c_post.hs()[j]).twin
            == Some(HalfEdgeID(prev_with_key(indices, edge_key_at(indices, j), j) as u32)) by {
            if j == q {
            } else if j == e {
                assert(false);
            } else {
                assert(c_post.hs()[j] == c_pre.hs()[j]);
                assert(c_pre.hs()[j] == c_pre.hs()[j]);
            }
        }
        assert forall|j: int|
            0 <= j < q + 1 && edge_rank(indices, j) % 2 == 0 implies (#[trigger] c_post.hs()[j]).twin
            == (if next_with_key(indices, edge_key_at(indices, j), j, q + 1) < q + 1 {
            Some(HalfEdgeID(next_with_key(indices, edge_key_at(indices, j), j, q + 1) as u32))
        } else {
            None
        }) by {
            let kj = edge_key_at(indices, j);
            if j == q {
                assert(false);
            } else if j == e {
                assert(next_with_key(indices, kq, e, q + 1) == q);
            } else {
                assert(c_post.hs()[j] == c_pre.hs()[j]);
                assert(c_pre.hs()[j] == c_pre.hs()[j]);
                lemma_next_with_key_extend(indices, kj, j, q);
                let r = next_with_key(indices, kj, j, q);
                if r >= q && kj == kq {
                    // impossible: e would be a sight of the key in (j, q)
                    // or j a sight in (e, q)
                    lemma_next_with_key(indices, kj, j, q);
                    if j < e {
                        assert(edge_key_at(indices, e) != kq);
                    } else {
                        assert(edge_key_at(indices, j) != kq);
                    }
                    assert(false);
                }
            }
        }
        assert(stitch_progress(c_post, m_post, indices, q + 1));
    } else {
        assert(count_key_before(indices, kq, q) % 2 != 1);
        assert(edge_rank(indices, q) % 2 == 0);
        assert(next_with_key(indices, kq, q, q + 1) == q + 1);
        assert(c_post.hs()[q].twin is None);
        // map bookkeeping
        assert forall|k: u64| #[trigger] m_post.dom().contains(k) implies count_key_before(
            indices,
            k as int,
            q + 1,
        ) % 2 == 1 && m_post[k] == prev_with_key(indices, k as int, q + 1) by {
            if k == ku {
                assert(m_post[k] == q as u32);
            } else {
                assert(m_pre.dom().contains(k) && m_pre[k] == m_post[k]);
                assert(k as int != kq);
            }
        }
        assert forall|k: u64|
            #[trigger] count_key_before(indices, k as int, q + 1) % 2 == 1 implies
            m_post.dom().contains(k) by {
            if k as int == kq {
                assert(k == ku);
            } else {
                assert(count_key_before(indices, k as int, q) % 2 == 1);
            }
        }
        // processed edges keep the stitched twin state
        assert forall|j: int|
            0 <= j < q + 1 && edge_rank(indices, j) % 2 == 1 implies (#[trigger] c_post.hs()[j]).twin
            == Some(HalfEdgeID(prev_with_key(indices, edge_key_at(indices, j), j) as u32)) by {
            if j < q {
                assert(c_pre.hs()[j] == c_pre.hs()[j]);
            } else {
                assert(false);
            }
        }
        assert forall|j: int|
            0 <= j < q + 1 && edge_rank(indices, j) % 2 == 0 implies (#[trigger] c_post.hs()[j]).twin
            == (if next_with_key(indices, edge_key_at(indices, j), j, q + 1) < q + 1 {
            Some(HalfEdgeID(next_with_key(indices, edge_key_at(indices, j), j, q + 1) as u32))
        } else {
            None
        }) by {
            let kj = edge_key_at(indices, j);
            if j < q {
                assert(c_pre.hs()[j] == c_pre.hs()[j]);
                lemma_next_with_key_extend(indices, kj, j, q);
                let r = next_with_key(indices, kj, j, q);
                if r >= q && kj == kq {
                    // impossible: the key would then have been seen an
                    // even number of times plus the sight at j itself,
                    // leaving an odd count and hence a map entry
                    lemma_next_with_key(indices, kj, j, q);
                    lemma_count_stable(indices, kq, j + 1, q);
                    assert(count_key_before(indices, kq, j + 1) == edge_rank(indices, j) + 1);
                    assert(count_key_before(indices, kq, q) % 2 == 1);
                    assert(false);
                }
            }
        }
        assert(stitch_progress(c_post, m_post, indices, q + 1));
    }
}


/// Pointwise agreement of the two unpaired counts: a half-edge of the
/// face phase lacks a twin exactly when its directed edge is unmatched.
proof fn lemma_unmatched_counts_agree(hs: Seq<HalfEdge>, indices: Seq<u32>, j: int)
    requires
        0 <= j <= indices.len(),
        hs.len() == indices.len(),
        forall|x: int|
            0 <= x < indices.len() ==> ((#[trigger] hs[x]).twin is None <==> unmatched_edge(
                indices,
                x,
            )),
    ensures
        twinless_before(hs, j) == unmatched_before(indices, j),
    decreases j,
{
    if j > 0 {
        lemma_unmatched_counts_agree(hs, indices, j - 1);
        assert(hs[j - 1] == hs[j - 1]);
    }
}

/// Boundary closure on top of a fully stitched face phase yields the
/// exact twin assignment that `stitched_twins_ok` states of the index
/// buffer alone.
#[verifier::rlimit(100)]
proof fn lemma_assemble_stitched(
    c_mid: ConnectivityInfo,
    c: ConnectivityInfo,
    m: Map<u64, u32>,
    indices: Seq<u32>,
)
    requires
        indices.len() % 3 == 0,
        indices.len() <= u32::MAX,
        c_mid.hs().len() == indices.len(),
        stitch_progress(c_mid, m, indices, indices.len() as int),
        forall|g: int|
            0 <= g < indices.len() / 3 ==> #[trigger] face_wiring_ok(c_mid, indices, g),
        boundary_inv(c_mid, c, indices.len() as int, c.hs().len() as int),
        c.hs().len() == indices.len() + twinless_before(c_mid.hs(), indices.len() as int),
    ensures
        stitched_twins_ok(c, indices),
{
    reveal(stitch_progress);
    let nn = indices.len() as int;
    assert(3 * (nn / 3) == nn);
    // the origin of each face half-edge is its corner of the buffer
    assert forall|j: int| 0 <= j < nn implies c_mid.origin_of(HalfEdgeID(j as u32)) == Some(
        VertexID(indices[j]),
    ) by {
        let g = j / 3;
        assert(face_wiring_ok(c_mid, indices, g));
        assert(j == 3 * g || j == 3 * g + 1 || j == 3 * g + 2);
        assert(3 * g + 2 < nn);
    }
    // a face half-edge lacks a twin exactly when its edge is unmatched
    assert forall|x: int| 0 <= x < nn implies ((#[trigger] c_mid.hs()[x]).twin is None
        <==> unmatched_edge(indices, x)) by {
        assert(c_mid.hs()[x] == c_mid.hs()[x]);
        let kx = edge_key_at(indices, x);
        if edge_rank(indices, x) % 2 == 0 {
            lemma_next_with_key(indices, kx, x, nn);
        }
    }
    lemma_unmatched_counts_agree(c_mid.hs(), indices, nn);
    assert(c.hs().len() == nn + unmatched_before(indices, nn));
    assert forall|j: int|
        0 <= j < nn && edge_rank(indices, j) % 2 == 1 implies (#[trigger] c.hs()[j]).twin == Some(
        HalfEdgeID(prev_with_key(indices, edge_key_at(indices, j), j) as u32),
    ) by {
        assert(c_mid.hs()[j] == c_mid.hs()[j]);
        assert(c.hs()[j] == c_mid.hs()[j]);
    }
    assert forall|j: int|
        0 <= j < nn && edge_rank(indices, j) % 2 == 0 && !unmatched_edge(indices, j) implies (
    #[trigger] c.hs()[j]).twin == Some(
        HalfEdgeID(next_with_key(indices, edge_key_at(indices, j), j, nn) as u32),
    ) by {
        assert(c_mid.hs()[j] == c_mid.hs()[j]);
        lemma_next_with_key(indices, edge_key_at(indices, j), j, nn);
        assert(next_with_key(indices, edge_key_at(indices, j), j, nn) < nn);
        assert(c_mid.hs()[j].twin is Some);
        assert(c.hs()[j] == c_mid.hs()[j]);
    }
    assert forall|j: int|
        0 <= j < nn && unmatched_edge(indices, j) implies {
        let b = nn + unmatched_before(indices, j);
        &&& (#[trigger] c.hs()[j]).twin == Some(HalfEdgeID(b as u32))
        &&& c.hs()[b] == (HalfEdge {
            vertex: Some(VertexID(indices[j])),
            twin: Some(HalfEdgeID(j as u32)),
            next: None,
            face: None,
        })
    } by {
        assert(c_mid.hs()[j] == c_mid.hs()[j]);
        assert(c_mid.hs()[j].twin is None);
        lemma_unmatched_counts_agree(c_mid.hs(), indices, j);
        assert(twinless_before(c_mid.hs(), j) == unmatched_before(indices, j));
        assert(c.hs()[j].twin == Some(
            HalfEdgeID((nn + twinless_before(c_mid.hs(), j)) as u32),
        ));
        assert(c.hs()[nn + twinless_before(c_mid.hs(), j)] == (HalfEdge {
            vertex: c_mid.origin_of(HalfEdgeID(j as u32)),
            twin: Some(HalfEdgeID(j as u32)),
            next: None,
            face: None,
        }));
        assert(c_mid.origin_of(HalfEdgeID(j as u32)) == Some(VertexID(indices[j])));
    }
    assert(stitched_twins_ok(c, indices));
}

/// The wiring `create_face` gives the three half-edges of face `g` of an
/// index buffer: targets follow the input winding and the next pointers
/// close the directed cycle.
pub open spec fn face_wiring_ok(c: ConnectivityInfo, indices: Seq<u32>, g: int) -> bool {
    &&& c.fs()[g].halfedge == Some(HalfEdgeID((3 * g) as u32))
    &&& c.hs()[3 * g].vertex == Some(VertexID(indices[3 * g + 1]))
    &&& c.hs()[3 * g + 1].vertex == Some(VertexID(indices[3 * g + 2]))
    &&& c.hs()[3 * g + 2].vertex == Some(VertexID(indices[3 * g]))
    &&& c.hs()[3 * g].next == Some(HalfEdgeID((3 * g + 1) as u32))
    &&& c.hs()[3 * g + 1].next == Some(HalfEdgeID((3 * g + 2) as u32))
    &&& c.hs()[3 * g + 2].next == Some(HalfEdgeID((3 * g) as u32))
    &&& c.hs()[3 * g].face == Some(FaceID(g as u32))
    &&& c.hs()[3 * g + 1].face == Some(FaceID(g as u32))
    &&& c.hs()[3 * g + 2].face == Some(FaceID(g as u32))
}

/// The invariant of twin stitching: twin links made so far are mutual
/// and join the two directions of one undirected edge, and the transient
/// map holds, per key, a live unpaired face half-edge whose endpoints
/// canonicalize to that key.
pub open spec fn stitch_inv(c: ConnectivityInfo, m: Map<u64, u32>) -> bool {
    &&& c.twins_consistent()
    &&& c.twin_ends_match()
    &&& forall|k: u64|
        #[trigger] m.dom().contains(k) ==> {
            let e = HalfEdgeID(m[k]);
            &&& c.valid_halfedge(e)
            &&& c.he(e).twin is None
            &&& c.he(e).face is Some
            &&& c.he(e).vertex is Some
            &&& c.origin_of(e) is Some
            &&& spec_edge_key(c.origin_of(e)->0, c.he(e).vertex->0) == k
        }
}

/// How many of the first `j` half-edges of a collection lack a twin.
pub open spec fn twinless_before(hs: Seq<HalfEdge>, j: int) -> int
    decreases j,
{
    if j <= 0 {
        0
    } else {
        twinless_before(hs, j - 1) + (if hs[j - 1].twin is None {
            1int
        } else {
            0int
        })
    }
}

/// Handles one directed edge `a -> b` carried by half-edge `h` during
/// twin stitching: on first sight of the edge's key the half-edge is
/// recorded; on second sight the recorded half-edge and this one are
/// linked as twins and the entry is cleared, so a third occurrence of
/// the key (non-manifold input) starts a fresh entry instead of
/// re-linking.
fn stitch_edge(
    conn: &mut ConnectivityInfo,
    twins: &mut HashMap<u64, u32>,
    a: VertexID,
    b: VertexID,
    h: HalfEdgeID,
)
    requires
        stitch_inv(*old(conn), old(twins)@),
        old(conn).valid_halfedge(h),
        old(conn).he(h).twin is None,
        old(conn).he(h).face is Some,
        old(conn).he(h).vertex == Some(b),
        old(conn).origin_of(h) == Some(a),
        forall|k: u64| #[trigger] old(twins)@.dom().contains(k) ==> old(twins)@[k] != h.0,
    ensures
        stitch_inv(*final(conn), final(twins)@),
        final(conn).hs().len() == old(conn).hs().len(),
        final(conn).vs() == old(conn).vs(),
        final(conn).fs() == old(conn).fs(),
        forall|j: int|
            0 <= j < old(conn).hs().len() ==> {
                &&& (#[trigger] final(conn).hs()[j]).vertex == old(conn).hs()[j].vertex
                &&& final(conn).hs()[j].next == old(conn).hs()[j].next
                &&& final(conn).hs()[j].face == old(conn).hs()[j].face
            },
        forall|j: int|
            0 <= j < old(conn).hs().len() && old(conn).hs()[j].twin is Some
                ==> (#[trigger] final(conn).hs()[j]).twin == old(conn).hs()[j].twin,
        forall|j: int|
            0 <= j < old(conn).hs().len() && j != h.0 && (forall|k: u64|
                #[trigger] old(twins)@.dom().contains(k) ==> old(twins)@[k] != j) ==> (
            #[trigger] final(conn).hs()[j]).twin == old(conn).hs()[j].twin,
        forall|k: u64|
            #[trigger] final(twins)@.dom().contains(k) ==> final(twins)@[k] == h.0
                || (old(twins)@.dom().contains(k) && old(twins)@[k] == final(twins)@[k]),
        ({
            let k = spec_edge_key(a, b) as u64;
            if old(twins)@.dom().contains(k) {
                let e = HalfEdgeID(old(twins)@[k]);
                &&& final(twins)@ == old(twins)@.remove(k)
                &&& final(conn).he(h).twin == Some(e)
                &&& final(conn).he(e).twin == Some(h)
                &&& forall|j: int|
                    0 <= j < old(conn).hs().len() && j != h.0 && j != e.0
                        ==> #[trigger] final(conn).hs()[j] == old(conn).hs()[j]
            } else {
                &&& final(twins)@ == old(twins)@.insert(k, h.0)
                &&& *final(conn) == *old(conn)
            }
        }),
{
    let key = edge_key(a, b);
    proof {
        lemma_edge_key_bounds(a, b);
        assert(key as int == spec_edge_key(a, b));
    }
    let found: Option<u32> = match twins.get(&key) {
        Some(t) => Some(*t),
        None => None,
    };
    match found {
        Some(t) => {
            let tid = HalfEdgeID(t);
            proof {
                assert(old(twins)@.dom().contains(key) && old(twins)@[key] == t);
            }
            conn.set_halfedge_twin(h, tid);
            twins.remove(&key);
            proof {
                let c0 = *old(conn);
                let c1 = *conn;
                // Only the twin fields of h and tid changed.
                assert(forall|j: int|
                    0 <= j < c0.hs().len() && j != h.0 && j != tid.0 ==> c1.hs()[j] == c0.hs()[j]);
                // Origins are unaffected: both h and tid lie on faces, and
                // origins of face half-edges read only next and vertex fields.
                assert(forall|x: HalfEdgeID|
                    c1.valid_halfedge(x) ==> #[trigger] c1.origin_of(x) == c0.origin_of(x) || !(
                    c0.he(x).face is Some));
                // The recorded half-edge and h share one undirected edge.
                lemma_edge_key_injective(a, b, c0.origin_of(tid)->0, c0.he(tid).vertex->0);
                assert forall|x: HalfEdgeID|
                    c1.valid_halfedge(x) && (#[trigger] c1.he(x)).twin is Some implies {
                    let tw = c1.he(x).twin->0;
                    &&& c1.valid_halfedge(tw)
                    &&& tw != x
                    &&& c1.he(tw).twin == Some(x)
                } by {
                    if x.0 != h.0 && x.0 != tid.0 {
                        assert(c0.he(x).twin is Some);
                        let tw = c0.he(x).twin->0;
                        assert(c0.he(tw).twin == Some(x));
                        assert(tw != h && tw != tid);
                    }
                }
                assert forall|x: HalfEdgeID|
                    c1.valid_halfedge(x) && (#[trigger] c1.he(x)).twin is Some implies {
                    let tw = c1.he(x).twin->0;
                    let ht = c1.he(x).vertex;
                    let tt = c1.he(tw).vertex;
                    let ho = c1.origin_of(x);
                    let to = c1.origin_of(tw);
                    (tt == ho && to == ht) || (tt == ht && to == ho)
                } by {
                    if x.0 != h.0 && x.0 != tid.0 {
                        assert(c0.he(x).twin is Some);
                        let tw = c0.he(x).twin->0;
                        assert(tw != h && tw != tid);
                        assert(c0.he(x).face is Some || c0.he(x).twin is Some);
                    }
                }
            }
        },
        None => {
            twins.insert(key, h.0);
        },
    }
}


/// The running state of boundary closure: the store `c` after visiting
/// the first `i` half-edges, starting from a state `c0` whose `n0`
/// half-edges all lay on faces.
pub open spec fn boundary_inv(c0: ConnectivityInfo, c: ConnectivityInfo, n0: int, i: int) -> bool {
    &&& c.vs() == c0.vs()
    &&& c.fs() == c0.fs()
    &&& n0 <= c.hs().len()
    // fields other than twin are stable on the original prefix
    &&& forall|j: int|
        0 <= j < n0 ==> {
            &&& (#[trigger] c.hs()[j]).vertex == c0.hs()[j].vertex
            &&& c.hs()[j].next == c0.hs()[j].next
            &&& c.hs()[j].face == c0.hs()[j].face
        }
    // synthesized half-edges are boundary and already twinned
    &&& forall|j: int|
        n0 <= j < c.hs().len() ==> {
            &&& (#[trigger] c.hs()[j]).face is None
            &&& c.hs()[j].next is None
            &&& c.hs()[j].vertex is Some
            &&& c.hs()[j].twin is Some
        }
    // every half-edge already visited has a twin
    &&& forall|j: int| 0 <= j < i && j < c.hs().len() ==> (#[trigger] c.hs()[j]).twin is Some
    // half-edges not yet visited keep their original twin
    &&& forall|j: int| i <= j < n0 ==> (#[trigger] c.hs()[j]).twin == c0.hs()[j].twin
    // visited: twinned records kept whole, twin-less ones got their
    // pinned fresh boundary twin
    &&& forall|j: int|
        0 <= j < i && j < n0 && c0.hs()[j].twin is Some ==> (#[trigger] c.hs()[j]) == c0.hs()[j]
    &&& forall|j: int|
        0 <= j < i && j < n0 && c0.hs()[j].twin is None ==> {
            let b = n0 + twinless_before(c0.hs(), j);
            &&& (#[trigger] c.hs()[j]).twin == Some(HalfEdgeID(b as u32))
            &&& c.hs()[b] == (HalfEdge {
                vertex: c0.origin_of(HalfEdgeID(j as u32)),
                twin: Some(HalfEdgeID(j as u32)),
                next: None,
                face: None,
            })
        }
    &&& c.hs().len() == n0 + twinless_before(
        c0.hs(),
        (if i <= n0 {
            i
        } else {
            n0
        }),
    )
    &&& c.ids_valid()
    &&& c.targets_present()
    &&& c.twins_consistent()
    &&& c.twin_ends_match()
    &&& c.cycles_are_triangles()
}

/// The twin-less count over a prefix never exceeds the prefix length.
proof fn lemma_twinless_bounds(hs: Seq<HalfEdge>, j: int)
    requires
        0 <= j,
    ensures
        0 <= twinless_before(hs, j) <= j,
    decreases j,
{
    if j > 0 {
        lemma_twinless_bounds(hs, j - 1);
    }
}

/// The twin-less count over a prefix grows monotonically with the
/// prefix.
proof fn lemma_twinless_mono(hs: Seq<HalfEdge>, a: int, b: int)
    requires
        0 <= a <= b,
    ensures
        twinless_before(hs, a) <= twinless_before(hs, b),
    decreases b - a,
{
    if a < b {
        lemma_twinless_mono(hs, a, b - 1);
    }
}

/// One synthesis step of boundary closure preserves mutual twin links
/// and matching twin ends.
#[verifier::rlimit(100)]
proof fn lemma_boundary_step_twins(
    c_pre: ConnectivityInfo,
    c1: ConnectivityInfo,
    i: int,
    b: HalfEdgeID,
    vertex: Option<VertexID>,
)
    requires
        c_pre.ids_valid(),
        c_pre.twins_consistent(),
        c_pre.twin_ends_match(),
        0 <= i < c_pre.hs().len(),
        c_pre.hs().len() < u32::MAX,
        c_pre.hs()[i].twin is None,
        c_pre.hs()[i].face is Some,
        vertex == c_pre.origin_of(HalfEdgeID(i as u32)),
        b.0 as int == c_pre.hs().len(),
        c1.hs() == c_pre.hs().push(
            (HalfEdge { vertex, twin: None, next: None, face: None }),
        ).update(i, (HalfEdge { twin: Some(b), ..c_pre.hs()[i] })).update(
            b.0 as int,
            (HalfEdge { vertex, twin: Some(HalfEdgeID(i as u32)), next: None, face: None }),
        ),
    ensures
        c1.twins_consistent(),
        c1.twin_ends_match(),
{
    let h = HalfEdgeID(i as u32);
    assert(c1.hs().len() == c_pre.hs().len() + 1);
    assert(forall|j: int|
        0 <= j < c_pre.hs().len() && j != i ==> c1.hs()[j] == c_pre.hs()[j]);
    assert(c1.he(h).twin == Some(b));
    assert(c1.he(b).twin == Some(h));
    assert(c1.he(h).face is Some);
    assert forall|x: HalfEdgeID|
        c1.valid_halfedge(x) && (#[trigger] c1.he(x)).twin is Some implies {
        let tw = c1.he(x).twin->0;
        &&& c1.valid_halfedge(tw)
        &&& tw != x
        &&& c1.he(tw).twin == Some(x)
    } by {
        if x.0 != h.0 && x.0 != b.0 {
            assert(c_pre.he(x).twin is Some);
            let tw = c_pre.he(x).twin->0;
            assert(c_pre.he(tw).twin == Some(x));
            assert(tw != h && tw != b);
        }
    }
    assert forall|x: HalfEdgeID|
        c1.valid_halfedge(x) && (#[trigger] c1.he(x)).twin is Some implies {
        let tw = c1.he(x).twin->0;
        let ht = c1.he(x).vertex;
        let tt = c1.he(tw).vertex;
        let ho = c1.origin_of(x);
        let to = c1.origin_of(tw);
        (tt == ho && to == ht) || (tt == ht && to == ho)
    } by {
        if x.0 == h.0 || x.0 == b.0 {
            assert(c1.origin_of(h) == vertex);
            assert(c1.origin_of(b) == c1.he(h).vertex);
        } else {
            assert(c_pre.he(x).twin is Some);
            let tw = c_pre.he(x).twin->0;
            assert(tw != h && tw != b);
            assert(c_pre.origin_of(x) == c1.origin_of(x));
            assert(c_pre.origin_of(tw) == c1.origin_of(tw));
        }
    }
}

/// One synthesis step of boundary closure preserves handle validity,
/// target presence and triangle cycles.
#[verifier::rlimit(100)]
proof fn lemma_boundary_step_ids(
    c_pre: ConnectivityInfo,
    c1: ConnectivityInfo,
    n0: int,
    i: int,
    b: HalfEdgeID,
    vertex: Option<VertexID>,
)
    requires
        c_pre.ids_valid(),
        c_pre.targets_present(),
        c_pre.cycles_are_triangles(),
        0 <= i < n0 <= c_pre.hs().len(),
        c_pre.hs().len() < u32::MAX,
        forall|j: int| n0 <= j < c_pre.hs().len() ==> (#[trigger] c_pre.hs()[j]).next is None,
        c_pre.hs()[i].twin is None,
        vertex is Some,
        c_pre.valid_vertex(vertex->0),
        b.0 as int == c_pre.hs().len(),
        c1.vs() == c_pre.vs(),
        c1.fs() == c_pre.fs(),
        c1.hs() == c_pre.hs().push(
            (HalfEdge { vertex, twin: None, next: None, face: None }),
        ).update(i, (HalfEdge { twin: Some(b), ..c_pre.hs()[i] })).update(
            b.0 as int,
            (HalfEdge { vertex, twin: Some(HalfEdgeID(i as u32)), next: None, face: None }),
        ),
    ensures
        c1.ids_valid(),
        c1.targets_present(),
{
    let h = HalfEdgeID(i as u32);
    assert(c1.hs().len() == c_pre.hs().len() + 1);
    assert(forall|j: int|
        0 <= j < c_pre.hs().len() && j != i ==> c1.hs()[j] == c_pre.hs()[j]);
    assert forall|x: HalfEdgeID| c1.valid_halfedge(x) implies {
        let e = #[trigger] c1.he(x);
        &&& e.vertex is Some
        &&& (e.vertex is Some ==> c1.valid_vertex(e.vertex->0))
        &&& (e.twin is Some ==> c1.valid_halfedge(e.twin->0))
        &&& (e.next is Some ==> c1.valid_halfedge(e.next->0))
        &&& (e.face is Some ==> c1.valid_face(e.face->0))
    } by {
        if x.0 != h.0 && x.0 != b.0 && (x.0 as int) < c_pre.hs().len() {
            assert(c1.he(x) == c_pre.he(x));
            assert(c_pre.he(x) == c_pre.he(x));
        } else {
            assert(c_pre.he(h) == c_pre.he(h));
        }
    }
    assert forall|v: VertexID|
        c1.valid_vertex(v) && (#[trigger] c1.vx(v)).halfedge is Some implies c1.valid_halfedge(
        c1.vx(v).halfedge->0) by {
        assert(c_pre.vx(v) == c1.vx(v));
        assert(c_pre.vx(v) == c_pre.vx(v));
    }
    assert forall|ff: FaceID|
        c1.valid_face(ff) && (#[trigger] c1.fc(ff)).halfedge is Some implies c1.valid_halfedge(
        c1.fc(ff).halfedge->0) by {
        assert(c_pre.fc(ff) == c1.fc(ff));
        assert(c_pre.fc(ff) == c_pre.fc(ff));
    }
    assert(c1.ids_valid());
    assert(c1.targets_present());
}

/// One synthesis step of boundary closure preserves triangle cycles.
#[verifier::rlimit(100)]
proof fn lemma_boundary_step_cycles(
    c_pre: ConnectivityInfo,
    c1: ConnectivityInfo,
    n0: int,
    i: int,
    b: HalfEdgeID,
    vertex: Option<VertexID>,
)
    requires
        c_pre.ids_valid(),
        c_pre.cycles_are_triangles(),
        0 <= i < n0 <= c_pre.hs().len(),
        c_pre.hs().len() < u32::MAX,
        forall|j: int| n0 <= j < c_pre.hs().len() ==> (#[trigger] c_pre.hs()[j]).next is None,
        b.0 as int == c_pre.hs().len(),
        c1.hs() == c_pre.hs().push(
            (HalfEdge { vertex, twin: None, next: None, face: None }),
        ).update(i, (HalfEdge { twin: Some(b), ..c_pre.hs()[i] })).update(
            b.0 as int,
            (HalfEdge { vertex, twin: Some(HalfEdgeID(i as u32)), next: None, face: None }),
        ),
    ensures
        c1.cycles_are_triangles(),
{
    let h = HalfEdgeID(i as u32);
    assert(c1.hs().len() == c_pre.hs().len() + 1);
    assert(forall|j: int|
        0 <= j < c_pre.hs().len() && j != i ==> c1.hs()[j] == c_pre.hs()[j]);
    assert forall|x: HalfEdgeID|
        c1.valid_halfedge(x) && (#[trigger] c1.he(x)).next is Some implies {
        let n = c1.he(x).next->0;
        &&& c1.valid_halfedge(n)
        &&& c1.he(n).face == c1.he(x).face
        &&& c1.step_next(c1.step_next(Some(n))) == Some(x)
    } by {
        assert((x.0 as int) < c_pre.hs().len() && x.0 != b.0);
        assert(c1.he(x).next == c_pre.he(x).next);
        assert(c1.he(x).face == c_pre.he(x).face);
        let n = c_pre.he(x).next->0;
        assert(c_pre.valid_halfedge(n));
        assert(c1.he(n).next == c_pre.he(n).next);
        assert(c1.he(n).face == c_pre.he(n).face);
        if c_pre.he(n).next is Some {
            let nn = c_pre.he(n).next->0;
            assert(c_pre.valid_halfedge(nn));
            assert(c1.he(nn).next == c_pre.he(nn).next);
        }
    }
    assert(c1.cycles_are_triangles());
}

/// One synthesis step of boundary closure: giving the twin-less
/// half-edge at `i` a fresh boundary twin advances the closure state.
#[verifier::rlimit(100)]
proof fn lemma_boundary_step(
    c0: ConnectivityInfo,
    c_pre: ConnectivityInfo,
    c1: ConnectivityInfo,
    n0: int,
    i: int,
    b: HalfEdgeID,
    vertex: Option<VertexID>,
)
    requires
        c0.ids_valid(),
        c0.targets_present(),
        c0.cycles_are_triangles(),
        forall|h: HalfEdgeID|
            c0.valid_halfedge(h) ==> (#[trigger] c0.he(h)).face is Some && c0.he(h).next is Some,
        n0 == c0.hs().len(),
        2 * n0 <= u32::MAX,
        boundary_inv(c0, c_pre, n0, i),
        0 <= i < n0,
        c_pre.hs()[i].twin is None,
        vertex == c0.origin_of(HalfEdgeID(i as u32)),
        vertex is Some,
        c0.valid_vertex(vertex->0),
        b.0 as int == c_pre.hs().len(),
        c1.vs() == c_pre.vs(),
        c1.fs() == c_pre.fs(),
        c1.hs() == c_pre.hs().push(
            (HalfEdge { vertex, twin: None, next: None, face: None }),
        ).update(i, (HalfEdge { twin: Some(b), ..c_pre.hs()[i] })).update(
            b.0 as int,
            (HalfEdge { vertex, twin: Some(HalfEdgeID(i as u32)), next: None, face: None }),
        ),
    ensures
        boundary_inv(c0, c1, n0, i + 1),
{
    let h = HalfEdgeID(i as u32);
    lemma_twinless_bounds(c0.hs(), i);
    assert(c_pre.hs().len() == n0 + twinless_before(c0.hs(), i));
    assert(c_pre.hs().len() < u32::MAX);
    assert(c1.hs().len() == c_pre.hs().len() + 1);
    assert(forall|j: int|
        0 <= j < c_pre.hs().len() && j != i ==> c1.hs()[j] == c_pre.hs()[j]);
    assert(c1.hs()[i] == (HalfEdge { twin: Some(b), ..c_pre.hs()[i] }));
    assert(c1.hs()[b.0 as int] == (HalfEdge {
        vertex,
        twin: Some(h),
        next: None,
        face: None,
    }));
    assert(c1.he(h).face is Some);
    assert(c1.hs().len() == n0 + twinless_before(c0.hs(), i + 1));
    assert(c_pre.origin_of(h) == c0.origin_of(h));
    lemma_boundary_step_twins(c_pre, c1, i, b, vertex);
    lemma_boundary_step_ids(c_pre, c1, n0, i, b, vertex);
    lemma_boundary_step_cycles(c_pre, c1, n0, i, b, vertex);
    assert forall|j: int| 0 <= j < n0 implies {
        &&& (#[trigger] c1.hs()[j]).vertex == c0.hs()[j].vertex
        &&& c1.hs()[j].next == c0.hs()[j].next
        &&& c1.hs()[j].face == c0.hs()[j].face
    } by {
        if j != i {
            assert(c1.hs()[j] == c_pre.hs()[j]);
        }
        assert(c_pre.hs()[j] == c_pre.hs()[j]);
    }
    assert forall|j: int| n0 <= j < c1.hs().len() implies {
        &&& (#[trigger] c1.hs()[j]).face is None
        &&& c1.hs()[j].next is None
        &&& c1.hs()[j].vertex is Some
        &&& c1.hs()[j].twin is Some
    } by {
        if j != b.0 as int {
            assert(c1.hs()[j] == c_pre.hs()[j]);
            assert(c_pre.hs()[j] == c_pre.hs()[j]);
        }
    }
    assert forall|j: int| 0 <= j < i + 1 && j < c1.hs().len() implies (
    #[trigger] c1.hs()[j]).twin is Some by {
        if j != i {
            assert(c1.hs()[j] == c_pre.hs()[j]);
            assert(c_pre.hs()[j] == c_pre.hs()[j]);
        }
    }
    assert forall|j: int| i + 1 <= j < n0 implies (#[trigger] c1.hs()[j]).twin == c0.hs()[j].twin
        by {
        assert(c1.hs()[j] == c_pre.hs()[j]);
        assert(c_pre.hs()[j] == c_pre.hs()[j]);
    }
    assert forall|j: int|
        0 <= j < i + 1 && j < n0 && c0.hs()[j].twin is Some implies (#[trigger] c1.hs()[j])
        == c0.hs()[j] by {
        assert(j != i);
        assert(c1.hs()[j] == c_pre.hs()[j]);
        assert(c_pre.hs()[j] == c_pre.hs()[j]);
    }
    assert forall|j: int|
        0 <= j < i + 1 && j < n0 && c0.hs()[j].twin is None implies {
        let bb = n0 + twinless_before(c0.hs(), j);
        &&& (#[trigger] c1.hs()[j]).twin == Some(HalfEdgeID(bb as u32))
        &&& c1.hs()[bb] == (HalfEdge {
            vertex: c0.origin_of(HalfEdgeID(j as u32)),
            twin: Some(HalfEdgeID(j as u32)),
            next: None,
            face: None,
        })
    } by {
        let bb = n0 + twinless_before(c0.hs(), j);
        lemma_twinless_bounds(c0.hs(), j);
        if j < i {
            assert(c_pre.hs()[j] == c_pre.hs()[j]);
            assert(c_pre.hs()[j].twin == Some(HalfEdgeID(bb as u32)));
            lemma_twinless_mono(c0.hs(), j + 1, i);
            assert(twinless_before(c0.hs(), j) + 1 == twinless_before(c0.hs(), j + 1));
            assert(bb < c_pre.hs().len());
            assert(c1.hs()[j] == c_pre.hs()[j]);
            assert(c1.hs()[bb] == c_pre.hs()[bb]);
        } else {
            assert(j == i);
            assert(bb == b.0 as int);
        }
    }
    assert(boundary_inv(c0, c1, n0, i + 1));
}

impl Mesh {
    /// Gives every half-edge still lacking a twin a synthesized boundary
    /// twin: a new half-edge with no face and no next pointer whose
    /// target is the origin of the half-edge it twins, so the pair runs
    /// the same undirected edge in opposite directions.  Half-edges that
    /// already have twins, and all vertices and faces, are untouched;
    /// the collection grows by exactly the number of twin-less
    /// half-edges, and the fresh twin of the `k`-th twin-less half-edge
    /// is appended `k`-th.
    #[verifier::rlimit(100)]
    pub fn create_boundary_edges(&mut self)
        requires
            old(self).connectivity_info.ids_valid(),
            old(self).connectivity_info.targets_present(),
            old(self).connectivity_info.twins_consistent(),
            old(self).connectivity_info.twin_ends_match(),
            old(self).connectivity_info.cycles_are_triangles(),
            forall|h: HalfEdgeID|
                old(self).connectivity_info.valid_halfedge(h)
                    ==> (#[trigger] old(self).connectivity_info.he(h)).face is Some
                    && old(self).connectivity_info.he(h).next is Some,
            2 * old(self).connectivity_info.hs().len() <= u32::MAX,
        ensures
            boundary_inv(
                old(self).connectivity_info,
                final(self).connectivity_info,
                old(self).connectivity_info.hs().len() as int,
                final(self).connectivity_info.hs().len() as int,
            ),
            final(self).connectivity_info.twins_total(),
            final(self).connectivity_info.face_iff_next(),
            final(self).connectivity_info.hs().len() == old(self).connectivity_info.hs().len()
                + twinless_before(
                old(self).connectivity_info.hs(),
                old(self).connectivity_info.hs().len() as int,
            ),
            old(self).connectivity_info.hs().len() <= final(self).connectivity_info.hs().len() <= 2
                * old(self).connectivity_info.hs().len(),
    {
        let ghost c0 = self.connectivity_info;
        let ghost n0 = self.connectivity_info.hs().len() as int;
        let mut i: usize = 0;
        while i < self.connectivity_info.no_halfedges()
            invariant
                n0 == c0.hs().len(),
                2 * n0 <= u32::MAX,
                c0.ids_valid(),
                c0.targets_present(),
                c0.cycles_are_triangles(),
                forall|h: HalfEdgeID|
                    c0.valid_halfedge(h) ==> (#[trigger] c0.he(h)).face is Some && c0.he(
                        h,
                    ).next is Some,
                boundary_inv(c0, self.connectivity_info, n0, i as int),
                i <= self.connectivity_info.hs().len(),
            decreases 2 * n0 - i,
        {
            let h = HalfEdgeID(i as u32);
            let e = self.connectivity_info.halfedge(h);
            if e.twin.is_none() {
                proof {
                    assert(h.0 as int == i as int);
                    assert(self.connectivity_info.hs()[i as int].twin is None);
                    assert((i as int) < n0);
                    assert(c0.hs()[i as int].twin is None);
                    assert(c0.he(h).face is Some && c0.he(h).next is Some);
                    assert(self.connectivity_info.he(h).face is Some);
                    assert(self.connectivity_info.he(h).next == c0.he(h).next);
                }
                // the origin of h: the vertex its cycle predecessor targets
                let n1 = match e.next {
                    Some(n1) => n1,
                    None => {
                        proof {
                            assert(false);
                        }
                        h
                    },
                };
                proof {
                    assert(c0.valid_halfedge(n1) && (n1.0 as int) < n0);
                    assert(c0.he(n1).next is Some);
                    assert(self.connectivity_info.he(n1).next == c0.he(n1).next);
                }
                let n2 = match self.connectivity_info.halfedge(n1).next {
                    Some(n2) => n2,
                    None => {
                        proof {
                            assert(false);
                        }
                        h
                    },
                };
                let vertex = self.connectivity_info.halfedge(n2).vertex;
                proof {
                    assert(c0.valid_halfedge(n2));
                    assert(self.connectivity_info.he(n2).vertex == c0.he(n2).vertex);
                    assert(self.connectivity_info.origin_of(h) == vertex);
                    assert(c0.origin_of(h) == vertex);
                    assert(vertex is Some);
                    assert(c0.valid_vertex(vertex->0));
                    lemma_twinless_bounds(c0.hs(), i as int);
                    assert(self.connectivity_info.hs().len() == n0 + twinless_before(
                        c0.hs(),
                        i as int,
                    ));
                    assert(self.connectivity_info.hs().len() < u32::MAX);
                }
                let ghost c_pre = self.connectivity_info;
                let b = self.connectivity_info.new_halfedge(vertex, None, None);
                self.connectivity_info.set_halfedge_twin(h, b);
                proof {
                    assert(self.connectivity_info.hs() == c_pre.hs().push(
                        (HalfEdge { vertex, twin: None, next: None, face: None }),
                    ).update(i as int, (HalfEdge { twin: Some(b), ..c_pre.hs()[i as int] })).update(
                        b.0 as int,
                        (HalfEdge {
                            vertex,
                            twin: Some(HalfEdgeID(i as u32)),
                            next: None,
                            face: None,
                        }),
                    ));
                    lemma_boundary_step(
                        c0,
                        c_pre,
                        self.connectivity_info,
                        n0,
                        i as int,
                        b,
                        vertex,
                    );
                }
            } else {
                proof {
                    let c = self.connectivity_info;
                    if (i as int) < n0 {
                        assert(c.hs()[i as int].twin == c0.hs()[i as int].twin);
                        assert(c.hs()[i as int] == c0.hs()[i as int]);
                        assert(twinless_before(c0.hs(), i as int + 1) == twinless_before(
                            c0.hs(),
                            i as int,
                        ));
                    }
                    assert(boundary_inv(c0, c, n0, i as int + 1));
                }
            }
            i = i + 1;
            proof {
                lemma_twinless_bounds(c0.hs(), (if i as int <= n0 {
                    i as int
                } else {
                    n0
                }));
                assert(self.connectivity_info.hs().len() <= 2 * n0);
            }
        }
        proof {
            let c = self.connectivity_info;
            assert forall|h: HalfEdgeID| c.valid_halfedge(h) implies ((#[trigger] c.he(h)).face
                is Some <==> c.he(h).next is Some) by {
                if (h.0 as int) < n0 {
                    assert(c.hs()[h.0 as int].face == c0.hs()[h.0 as int].face);
                    assert(c0.he(h).face is Some && c0.he(h).next is Some);
                } else {
                    assert(c.hs()[h.0 as int].face is None && c.hs()[h.0 as int].next is None);
                }
            }
            assert forall|h: HalfEdgeID| c.valid_halfedge(h) implies (#[trigger] c.he(
                h,
            )).twin is Some by {
                assert(c.hs()[h.0 as int].twin is Some);
            }
            lemma_twinless_bounds(c0.hs(), n0);
            assert(c.hs().len() == n0 + twinless_before(c0.hs(), n0));
            assert(boundary_inv(c0, c, n0, c.hs().len() as int));
        }
    }
}


/// The state of the store after the first `f` faces of an index buffer
/// have been created: counts, per-face wiring, and the structural
/// predicates the final mesh must satisfy, as far as they already hold.
pub open spec fn build_state_ok(c: ConnectivityInfo, indices: Seq<u32>, f: int, nv: int) -> bool {
    &&& c.vs().len() == nv
    &&& c.hs().len() == 3 * f
    &&& c.fs().len() == f
    &&& forall|g: int| 0 <= g < f ==> #[trigger] face_wiring_ok(c, indices, g)
    &&& forall|j: int|
        0 <= j < 3 * f ==> (#[trigger] c.hs()[j]).face is Some && c.hs()[j].next is Some
            && c.hs()[j].vertex is Some
    &&& c.ids_valid()
    &&& c.cycles_are_triangles()
    &&& c.vertex_anchors_leave_their_vertex()
}

/// The stitching bookkeeping carries over to a store whose processed
/// prefix is unchanged.
#[verifier::rlimit(100)]
proof fn lemma_progress_transfer(
    c0: ConnectivityInfo,
    c1: ConnectivityInfo,
    m: Map<u64, u32>,
    indices: Seq<u32>,
    p: int,
)
    requires
        0 <= p,
        stitch_progress(c0, m, indices, p),
        forall|j: int| 0 <= j < p ==> #[trigger] c1.hs()[j] == c0.hs()[j],
    ensures
        stitch_progress(c1, m, indices, p),
{
    reveal(stitch_progress);
    assert forall|j: int|
        0 <= j < p && edge_rank(indices, j) % 2 == 1 implies (#[trigger] c1.hs()[j]).twin == Some(
        HalfEdgeID(prev_with_key(indices, edge_key_at(indices, j), j) as u32),
    ) by {
        assert(c0.hs()[j] == c0.hs()[j]);
    }
    assert forall|j: int|
        0 <= j < p && edge_rank(indices, j) % 2 == 0 implies (#[trigger] c1.hs()[j]).twin == (
    if next_with_key(indices, edge_key_at(indices, j), j, p) < p {
        Some(HalfEdgeID(next_with_key(indices, edge_key_at(indices, j), j, p) as u32))
    } else {
        None
    }) by {
        assert(c0.hs()[j] == c0.hs()[j]);
    }
}

/// The three directed edges of face `f` and their canonical keys.
proof fn lemma_face_edge_keys(indices: Seq<u32>, f: int)
    requires
        0 <= f,
        3 * f + 2 < indices.len(),
    ensures
        edge_target_at(indices, 3 * f) == indices[3 * f + 1],
        edge_target_at(indices, 3 * f + 1) == indices[3 * f + 2],
        edge_target_at(indices, 3 * f + 2) == indices[3 * f],
        edge_key_at(indices, 3 * f) == spec_edge_key(
            VertexID(indices[3 * f]),
            VertexID(indices[3 * f + 1]),
        ),
        edge_key_at(indices, 3 * f + 1) == spec_edge_key(
            VertexID(indices[3 * f + 1]),
            VertexID(indices[3 * f + 2]),
        ),
        edge_key_at(indices, 3 * f + 2) == spec_edge_key(
            VertexID(indices[3 * f + 2]),
            VertexID(indices[3 * f]),
        ),
{
    assert((3 * f) / 3 == f && (3 * f) % 3 == 0);
    assert((3 * f + 1) / 3 == f && (3 * f + 1) % 3 == 1);
    assert((3 * f + 2) / 3 == f && (3 * f + 2) % 3 == 2);
}

/// After `create_face` appends the triangle of face `f`, the build state
/// advances by one face, the stitch invariant still holds on the grown
/// store, the three fresh half-edges leave their expected corners and
/// are still unpaired, and positions and previously assigned anchors are
/// untouched.
#[verifier::rlimit(100)]
proof fn lemma_after_create_face(
    c0: ConnectivityInfo,
    c1: ConnectivityInfo,
    m: Map<u64, u32>,
    indices: Seq<u32>,
    f: int,
    nv: int,
)
    requires
        0 <= f,
        3 * f + 2 < indices.len(),
        indices.len() <= u32::MAX,
        forall|j: int| 0 <= j < indices.len() ==> (#[trigger] indices[j] as int) < nv,
        build_state_ok(c0, indices, f, nv),
        stitch_inv(c0, m),
        forall|k: u64| #[trigger] m.dom().contains(k) ==> m[k] < 3 * f,
        c1.fs() == c0.fs().push((Face { halfedge: Some(HalfEdgeID((3 * f) as u32)) })),
        c1.hs() == c0.hs() + triangle_halfedges(
            3 * f,
            FaceID(f as u32),
            VertexID(indices[3 * f]),
            VertexID(indices[3 * f + 1]),
            VertexID(indices[3 * f + 2]),
        ),
        c1.vs() == assign_anchor(
            assign_anchor(
                assign_anchor(c0.vs(), VertexID(indices[3 * f]), HalfEdgeID((3 * f) as u32)),
                VertexID(indices[3 * f + 1]),
                HalfEdgeID((3 * f + 1) as u32),
            ),
            VertexID(indices[3 * f + 2]),
            HalfEdgeID((3 * f + 2) as u32),
        ),
    ensures
        build_state_ok(c1, indices, f + 1, nv),
        stitch_inv(c1, m),
        forall|k: u64| #[trigger] m.dom().contains(k) ==> m[k] < 3 * f + 3,
        c1.origin_of(HalfEdgeID((3 * f) as u32)) == Some(VertexID(indices[3 * f])),
        c1.origin_of(HalfEdgeID((3 * f + 1) as u32)) == Some(VertexID(indices[3 * f + 1])),
        c1.origin_of(HalfEdgeID((3 * f + 2) as u32)) == Some(VertexID(indices[3 * f + 2])),
        c1.he(HalfEdgeID((3 * f) as u32)).twin is None,
        c1.he(HalfEdgeID((3 * f + 1) as u32)).twin is None,
        c1.he(HalfEdgeID((3 * f + 2) as u32)).twin is None,
        c1.he(HalfEdgeID((3 * f) as u32)).vertex == Some(VertexID(indices[3 * f + 1])),
        c1.he(HalfEdgeID((3 * f + 1) as u32)).vertex == Some(VertexID(indices[3 * f + 2])),
        c1.he(HalfEdgeID((3 * f + 2) as u32)).vertex == Some(VertexID(indices[3 * f])),
        c1.he(HalfEdgeID((3 * f) as u32)).face is Some,
        c1.he(HalfEdgeID((3 * f + 1) as u32)).face is Some,
        c1.he(HalfEdgeID((3 * f + 2) as u32)).face is Some,
        forall|j: int| 0 <= j < nv ==> (#[trigger] c1.vs()[j]).position == c0.vs()[j].position,
        forall|j: int|
            0 <= j < nv && c0.vs()[j].halfedge is Some ==> (#[trigger] c1.vs()[j]).halfedge == c0.vs()[j].halfedge,
        c1.vs()[indices[3 * f] as int].halfedge is Some,
        c1.vs()[indices[3 * f + 1] as int].halfedge is Some,
        c1.vs()[indices[3 * f + 2] as int].halfedge is Some,
{
    let base = 3 * f;
    let v0 = VertexID(indices[3 * f]);
    let v1 = VertexID(indices[3 * f + 1]);
    let v2 = VertexID(indices[3 * f + 2]);
    let h0 = HalfEdgeID((3 * f) as u32);
    let h1 = HalfEdgeID((3 * f + 1) as u32);
    let h2 = HalfEdgeID((3 * f + 2) as u32);
    let face = FaceID(f as u32);
    assert(c1.hs().len() == base + 3);
    assert(c1.hs()[base] == triangle_halfedges(base, face, v0, v1, v2)[0]);
    assert(c1.hs()[base + 1] == triangle_halfedges(base, face, v0, v1, v2)[1]);
    assert(c1.hs()[base + 2] == triangle_halfedges(base, face, v0, v1, v2)[2]);
    assert(forall|j: int| 0 <= j < base ==> c1.hs()[j] == c0.hs()[j]);
    assert(forall|j: int| 0 <= j < f ==> c1.fs()[j] == c0.fs()[j]);
    assert(face_wiring_ok(c1, indices, f));
    assert forall|g: int| 0 <= g < f implies #[trigger] face_wiring_ok(c1, indices, g) by {
        assert(face_wiring_ok(c0, indices, g));
        assert(3 * g + 2 < base);
    }
    // anchors after the three opportunistic assignments
    let vs0 = c0.vs();
    let vs3 = c1.vs();
    assert(vs3.len() == nv);
    assert forall|j: int| 0 <= j < nv implies {
        &&& (#[trigger] vs3[j]).position == vs0[j].position
        &&& (vs0[j].halfedge is Some ==> vs3[j].halfedge == vs0[j].halfedge)
        &&& (vs3[j].halfedge == vs0[j].halfedge || (j == v0.0 && vs3[j].halfedge == Some(h0)) || (j
            == v1.0 && vs3[j].halfedge == Some(h1)) || (j == v2.0 && vs3[j].halfedge == Some(h2)))
    } by {
        assert(vs0[j] == vs0[j]);
    }
    assert(vs3[v0.0 as int].halfedge is Some);
    assert(vs3[v1.0 as int].halfedge is Some);
    assert(vs3[v2.0 as int].halfedge is Some);
    // the new cycle: origins of the three fresh half-edges
    assert(c1.origin_of(h0) == Some(v0));
    assert(c1.origin_of(h1) == Some(v1));
    assert(c1.origin_of(h2) == Some(v2));
    // old origins are untouched by appending three half-edges
    assert forall|x: HalfEdgeID|
        c0.valid_halfedge(x) && (#[trigger] c0.he(x)).face is Some implies c1.origin_of(x)
        == c0.origin_of(x) by {
        assert(c1.he(x) == c0.he(x));
        if c0.he(x).next is Some {
            let nx = c0.he(x).next->0;
            assert(c0.valid_halfedge(nx));
            assert(c1.he(nx) == c0.he(nx));
            if c0.he(nx).next is Some {
                let nnx = c0.he(nx).next->0;
                assert(c0.valid_halfedge(nnx));
                assert(c1.he(nnx) == c0.he(nnx));
            }
        }
    }
    assert forall|x: HalfEdgeID| c1.valid_halfedge(x) implies {
        let e = #[trigger] c1.he(x);
        &&& (e.vertex is Some ==> c1.valid_vertex(e.vertex->0))
        &&& (e.twin is Some ==> c1.valid_halfedge(e.twin->0))
        &&& (e.next is Some ==> c1.valid_halfedge(e.next->0))
        &&& (e.face is Some ==> c1.valid_face(e.face->0))
    } by {
        if (x.0 as int) < base {
            assert(c1.he(x) == c0.he(x));
            assert(c0.he(x) == c0.he(x));
        }
    }
    assert forall|v: VertexID|
        c1.valid_vertex(v) && (#[trigger] c1.vx(v)).halfedge is Some implies c1.valid_halfedge(
        c1.vx(v).halfedge->0) by {
        if c0.vx(v).halfedge is Some && c1.vx(v).halfedge == c0.vx(v).halfedge {
            assert(c0.vx(v) == c0.vx(v));
        }
    }
    assert forall|ff: FaceID|
        c1.valid_face(ff) && (#[trigger] c1.fc(ff)).halfedge is Some implies c1.valid_halfedge(
        c1.fc(ff).halfedge->0) by {
        if (ff.0 as int) < f {
            assert(c1.fc(ff) == c0.fc(ff));
            assert(c0.fc(ff) == c0.fc(ff));
        }
    }
    assert(c1.ids_valid());
    assert forall|x: HalfEdgeID|
        c1.valid_halfedge(x) && (#[trigger] c1.he(x)).next is Some implies {
        let n = c1.he(x).next->0;
        &&& c1.valid_halfedge(n)
        &&& c1.he(n).face == c1.he(x).face
        &&& c1.step_next(c1.step_next(Some(n))) == Some(x)
    } by {
        if (x.0 as int) < base {
            assert(c1.he(x) == c0.he(x));
            let n = c0.he(x).next->0;
            assert(c0.valid_halfedge(n));
            assert(c1.he(n) == c0.he(n));
            if c0.he(n).next is Some {
                let nn = c0.he(n).next->0;
                assert(c0.valid_halfedge(nn));
                assert(c1.he(nn) == c0.he(nn));
            }
        }
    }
    assert(c1.cycles_are_triangles());
    assert forall|v: VertexID|
        c1.valid_vertex(v) && (#[trigger] c1.vx(v)).halfedge is Some implies {
        let a = c1.vx(v).halfedge->0;
        &&& c1.valid_halfedge(a)
        &&& c1.he(a).face is Some
        &&& c1.step_target(c1.step_prev(Some(a))) == Some(v)
    } by {
        if c0.vx(v).halfedge is Some && c1.vx(v).halfedge == c0.vx(v).halfedge {
            let a = c0.vx(v).halfedge->0;
            assert(c0.vx(v) == c0.vx(v));
            assert(c0.he(a).face is Some);
            assert(c1.he(a) == c0.he(a));
            if c0.he(a).next is Some {
                let na = c0.he(a).next->0;
                assert(c0.valid_halfedge(na));
                assert(c1.he(na) == c0.he(na));
                if c0.he(na).next is Some {
                    let nna = c0.he(na).next->0;
                    assert(c0.valid_halfedge(nna));
                    assert(c1.he(nna) == c0.he(nna));
                }
            }
        }
    }
    assert(c1.vertex_anchors_leave_their_vertex());
    assert forall|x: HalfEdgeID|
        c1.valid_halfedge(x) && (#[trigger] c1.he(x)).twin is Some implies {
        let tw = c1.he(x).twin->0;
        &&& c1.valid_halfedge(tw)
        &&& tw != x
        &&& c1.he(tw).twin == Some(x)
    } by {
        if (x.0 as int) < base {
            assert(c1.he(x) == c0.he(x));
            let tw = c0.he(x).twin->0;
            assert(c0.valid_halfedge(tw));
            assert(c1.he(tw) == c0.he(tw));
        }
    }
    assert(c1.twins_consistent());
    assert forall|x: HalfEdgeID|
        c1.valid_halfedge(x) && (#[trigger] c1.he(x)).twin is Some implies {
        let tw = c1.he(x).twin->0;
        let ht = c1.he(x).vertex;
        let tt = c1.he(tw).vertex;
        let ho = c1.origin_of(x);
        let to = c1.origin_of(tw);
        (tt == ho && to == ht) || (tt == ht && to == ho)
    } by {
        if (x.0 as int) < base {
            assert(c1.he(x) == c0.he(x));
            assert(c0.he(x).face is Some);
            let tw = c0.he(x).twin->0;
            assert(c1.he(tw) == c0.he(tw));
            assert(c0.he(tw).face is Some);
            assert(c1.origin_of(x) == c0.origin_of(x));
            assert(c1.origin_of(tw) == c0.origin_of(tw));
        }
    }
    assert(c1.twin_ends_match());
    // map entries still satisfy the stitch invariant on the grown store
    assert forall|k: u64| #[trigger] m.dom().contains(k) implies {
        let e = HalfEdgeID(m[k]);
        &&& c1.valid_halfedge(e)
        &&& c1.he(e).twin is None
        &&& c1.he(e).face is Some
        &&& c1.he(e).vertex is Some
        &&& c1.origin_of(e) is Some
        &&& spec_edge_key(c1.origin_of(e)->0, c1.he(e).vertex->0) == k
    } by {
        let e = HalfEdgeID(m[k]);
        assert(c0.valid_halfedge(e));
        assert(c1.he(e) == c0.he(e));
        assert(c0.he(e).face is Some);
        assert(c1.origin_of(e) == c0.origin_of(e));
    }
    assert(stitch_inv(c1, m));
}

/// A stitching step writes only twin fields, so every structural fact of
/// the build state survives it, and the origin of every face half-edge
/// is unchanged.
#[verifier::rlimit(100)]
proof fn lemma_stitch_preserves(
    c1: ConnectivityInfo,
    c2: ConnectivityInfo,
    indices: Seq<u32>,
    f: int,
    nv: int,
)
    requires
        build_state_ok(c1, indices, f, nv),
        c2.vs() == c1.vs(),
        c2.fs() == c1.fs(),
        c2.hs().len() == c1.hs().len(),
        forall|j: int|
            0 <= j < c1.hs().len() ==> {
                &&& (#[trigger] c2.hs()[j]).vertex == c1.hs()[j].vertex
                &&& c2.hs()[j].next == c1.hs()[j].next
                &&& c2.hs()[j].face == c1.hs()[j].face
            },
        c2.twins_consistent(),
    ensures
        build_state_ok(c2, indices, f, nv),
        forall|x: HalfEdgeID|
            c1.valid_halfedge(x) && (#[trigger] c1.he(x)).face is Some ==> c2.origin_of(x)
                == c1.origin_of(x),
{
    assert forall|g: int| 0 <= g < f implies #[trigger] face_wiring_ok(c2, indices, g) by {
        assert(face_wiring_ok(c1, indices, g));
        assert(c2.hs()[3 * g].vertex == c1.hs()[3 * g].vertex);
        assert(c2.hs()[3 * g + 1].vertex == c1.hs()[3 * g + 1].vertex);
        assert(c2.hs()[3 * g + 2].vertex == c1.hs()[3 * g + 2].vertex);
    }
    assert forall|x: HalfEdgeID|
        c1.valid_halfedge(x) && (#[trigger] c1.he(x)).face is Some implies c2.origin_of(x)
        == c1.origin_of(x) by {
        assert(c2.he(x).next == c1.he(x).next);
        assert(c2.he(x).face == c1.he(x).face);
        if c1.he(x).next is Some {
            let nx = c1.he(x).next->0;
            assert(c1.valid_halfedge(nx));
            assert(c2.he(nx).next == c1.he(nx).next);
            if c1.he(nx).next is Some {
                let nnx = c1.he(nx).next->0;
                assert(c1.valid_halfedge(nnx));
                assert(c2.he(nnx).vertex == c1.he(nnx).vertex);
            }
        }
    }
    assert forall|x: HalfEdgeID| c2.valid_halfedge(x) implies {
        let e = #[trigger] c2.he(x);
        &&& (e.vertex is Some ==> c2.valid_vertex(e.vertex->0))
        &&& (e.twin is Some ==> c2.valid_halfedge(e.twin->0))
        &&& (e.next is Some ==> c2.valid_halfedge(e.next->0))
        &&& (e.face is Some ==> c2.valid_face(e.face->0))
    } by {
        assert(c2.he(x).vertex == c1.he(x).vertex);
        assert(c2.he(x).next == c1.he(x).next);
        assert(c2.he(x).face == c1.he(x).face);
        assert(c1.he(x) == c1.he(x));
        if c2.he(x).twin is Some {
            assert(c2.he(x) == c2.he(x));
        }
    }
    assert forall|v: VertexID|
        c2.valid_vertex(v) && (#[trigger] c2.vx(v)).halfedge is Some implies c2.valid_halfedge(
        c2.vx(v).halfedge->0) by {
        assert(c1.vx(v) == c2.vx(v));
        assert(c1.vx(v) == c1.vx(v));
    }
    assert forall|ff: FaceID|
        c2.valid_face(ff) && (#[trigger] c2.fc(ff)).halfedge is Some implies c2.valid_halfedge(
        c2.fc(ff).halfedge->0) by {
        assert(c1.fc(ff) == c2.fc(ff));
        assert(c1.fc(ff) == c1.fc(ff));
    }
    assert(c2.ids_valid());
    assert forall|x: HalfEdgeID|
        c2.valid_halfedge(x) && (#[trigger] c2.he(x)).next is Some implies {
        let n = c2.he(x).next->0;
        &&& c2.valid_halfedge(n)
        &&& c2.he(n).face == c2.he(x).face
        &&& c2.step_next(c2.step_next(Some(n))) == Some(x)
    } by {
        assert(c2.he(x).next == c1.he(x).next);
        assert(c1.he(x) == c1.he(x));
        let n = c1.he(x).next->0;
        assert(c1.valid_halfedge(n));
        assert(c2.he(n).next == c1.he(n).next);
        assert(c2.he(n).face == c1.he(n).face);
        if c1.he(n).next is Some {
            let nn = c1.he(n).next->0;
            assert(c1.valid_halfedge(nn));
            assert(c2.he(nn).next == c1.he(nn).next);
        }
    }
    assert(c2.cycles_are_triangles());
    assert forall|v: VertexID|
        c2.valid_vertex(v) && (#[trigger] c2.vx(v)).halfedge is Some implies {
        let a = c2.vx(v).halfedge->0;
        &&& c2.valid_halfedge(a)
        &&& c2.he(a).face is Some
        &&& c2.step_target(c2.step_prev(Some(a))) == Some(v)
    } by {
        assert(c1.vx(v) == c2.vx(v));
        assert(c1.vx(v) == c1.vx(v));
        let a = c1.vx(v).halfedge->0;
        assert(c1.valid_halfedge(a));
        assert(c1.he(a).face is Some);
        assert(c2.he(a).face == c1.he(a).face);
        assert(c2.he(a).next == c1.he(a).next);
        if c1.he(a).next is Some {
            let na = c1.he(a).next->0;
            assert(c1.valid_halfedge(na));
            assert(c2.he(na).next == c1.he(na).next);
            if c1.he(na).next is Some {
                let nna = c1.he(na).next->0;
                assert(c1.valid_halfedge(nna));
                assert(c2.he(nna).vertex == c1.he(nna).vertex);
            }
        }
    }
    assert(c2.vertex_anchors_leave_their_vertex());
    assert(build_state_ok(c2, indices, f, nv));
}

/// Builds the half-edge graph of an indexed triangle list.
impl Mesh {
    /// Creates a mesh from a flat index buffer (three vertex indices per
    /// face, in winding order) and a flat coordinate buffer (three
    /// fixed-point coordinates per vertex).
    ///
    /// The result is structurally complete — every half-edge has a twin,
    /// every face is a proper triangle cycle — whatever the input: the
    /// builder never rejects degenerate or non-manifold index data, and
    /// leaves such problems for the validator to flag.
    #[verifier::rlimit(100)]
    pub fn new(indices: Vec<u32>, positions: Vec<i64>) -> (m: Mesh)
        requires
            indices@.len() % 3 == 0,
            positions@.len() % 3 == 0,
            positions@.len() / 3 < u32::MAX,
            2 * indices@.len() <= u32::MAX,
            forall|i: int|
                0 <= i < indices@.len() ==> (#[trigger] indices@[i] as int) < positions@.len() / 3,
            forall|i: int|
                0 <= i < positions@.len() ==> -COORD_LIMIT <= #[trigger] positions@[i]
                    <= COORD_LIMIT,
        ensures
            m.well_formed(),
            m.connectivity_info.twin_ends_match(),
            m.connectivity_info.positions_in_range(),
            m.vertices().len() == positions@.len() / 3,
            m.faces().len() == indices@.len() / 3,
            indices@.len() <= m.halfedges().len() <= 2 * indices@.len(),
            forall|i: int|
                0 <= i < positions@.len() / 3 ==> (#[trigger] m.vertices()[i]).position == (Vec3 {
                    x: positions@[3 * i],
                    y: positions@[3 * i + 1],
                    z: positions@[3 * i + 2],
                }),
            forall|g: int|
                0 <= g < indices@.len() / 3 ==> #[trigger] face_wiring_ok(
                    m.connectivity_info,
                    indices@,
                    g,
                ),
            forall|j: int|
                0 <= j < indices@.len() ==> (#[trigger] m.halfedges()[j]).face == Some(
                    FaceID((j / 3) as u32),
                ),
            forall|j: int|
                indices@.len() <= j < m.halfedges().len() ==> (#[trigger] m.halfedges()[j]).face is None,
            forall|i: int|
                0 <= i < indices@.len() ==> (#[trigger] m.vertices()[indices@[i] as int]).halfedge is Some,
            stitched_twins_ok(m.connectivity_info, indices@),
    {
        let no_vertices = positions.len() / 3;
        let no_faces = indices.len() / 3;
        let ghost nv = no_vertices as int;
        let mut mesh = Mesh::new_internal(ConnectivityInfo::new());

        // Create one vertex per coordinate triple, in input order.
        let mut i: usize = 0;
        while i < no_vertices
            invariant
                no_vertices == positions@.len() / 3,
                positions@.len() % 3 == 0,
                positions@.len() <= usize::MAX,
                no_vertices < u32::MAX,
                forall|j: int|
                    0 <= j < positions@.len() ==> -COORD_LIMIT <= #[trigger] positions@[j]
                        <= COORD_LIMIT,
                i <= no_vertices,
                mesh.connectivity_info.vs().len() == i,
                mesh.connectivity_info.hs().len() == 0,
                mesh.connectivity_info.fs().len() == 0,
                forall|j: int|
                    0 <= j < i ==> (#[trigger] mesh.connectivity_info.vs()[j]) == (Vertex {
                        position: Vec3 {
                            x: positions@[3 * j],
                            y: positions@[3 * j + 1],
                            z: positions@[3 * j + 2],
                        },
                        halfedge: None,
                    }),
            decreases no_vertices - i,
        {
            proof {
                assert(3 * (i as int) + 2 < positions@.len());
            }
            mesh.create_vertex(
                Vec3 { x: positions[3 * i], y: positions[3 * i + 1], z: positions[3 * i + 2] },
            );
            i = i + 1;
        }

        // Create the faces, inferring shared edges as they appear.
        let mut twins: HashMap<u64, u32> = HashMap::new();
        proof {
            reveal(stitch_progress);
            assert(stitch_progress(mesh.connectivity_info, twins@, indices@, 0));
        }
        let mut f: usize = 0;
        while f < no_faces
            invariant
                no_faces == indices@.len() / 3,
                indices@.len() % 3 == 0,
                indices@.len() <= usize::MAX,
                nv == positions@.len() / 3,
                nv == no_vertices,
                no_vertices < u32::MAX,
                2 * indices@.len() <= u32::MAX,
                forall|j: int|
                    0 <= j < indices@.len() ==> (#[trigger] indices@[j] as int) < nv,
                f <= no_faces,
                build_state_ok(mesh.connectivity_info, indices@, f as int, nv),
                stitch_inv(mesh.connectivity_info, twins@),
                stitch_progress(mesh.connectivity_info, twins@, indices@, 3 * (f as int)),
                forall|k: u64| #[trigger] twins@.dom().contains(k) ==> twins@[k] < 3 * f,
                forall|j: int|
                    0 <= j < nv ==> (#[trigger] mesh.connectivity_info.vs()[j]).position == (Vec3 {
                        x: positions@[3 * j],
                        y: positions@[3 * j + 1],
                        z: positions@[3 * j + 2],
                    }),
                forall|j: int|
                    0 <= j < 3 * f ==> (#[trigger] mesh.connectivity_info.vs()[indices@[j] as int]).halfedge is Some,
            decreases no_faces - f,
        {
            proof {
                assert(3 * (f as int) + 2 < indices@.len());
            }
            let v0 = VertexID(indices[3 * f]);
            let v1 = VertexID(indices[3 * f + 1]);
            let v2 = VertexID(indices[3 * f + 2]);
            let h0 = HalfEdgeID((3 * f) as u32);
            let h1 = HalfEdgeID((3 * f + 1) as u32);
            let h2 = HalfEdgeID((3 * f + 2) as u32);
            let ghost c_before = mesh.connectivity_info;
            mesh.connectivity_info.create_face(v0, v1, v2);
            let ghost c_cf = mesh.connectivity_info;
            let ghost m_cf = twins@;
            proof {
                lemma_after_create_face(
                    c_before,
                    c_cf,
                    twins@,
                    indices@,
                    f as int,
                    nv,
                );
                assert(forall|j: int|
                    0 <= j < 3 * (f as int) ==> #[trigger] c_cf.hs()[j] == c_before.hs()[j]);
                lemma_progress_transfer(c_before, c_cf, twins@, indices@, 3 * (f as int));
                lemma_face_edge_keys(indices@, f as int);
            }
            stitch_edge(&mut mesh.connectivity_info, &mut twins, v0, v1, h0);
            let ghost c_s0 = mesh.connectivity_info;
            let ghost m_s0 = twins@;
            proof {
                lemma_stitch_preserves(c_cf, c_s0, indices@, f as int + 1, nv);
                assert(edge_key_at(indices@, 3 * (f as int)) == spec_edge_key(v0, v1));
                lemma_stitch_advance(c_cf, c_s0, m_cf, m_s0, indices@, 3 * (f as int));
                assert(c_s0.he(h1).twin is None);
                assert(c_s0.he(h2).twin is None);
                assert(c_s0.origin_of(h1) == Some(v1));
                assert(c_s0.origin_of(h2) == Some(v2));
                assert(c_s0.he(h1).vertex == Some(v2));
                assert(c_s0.he(h2).vertex == Some(v0));
                assert(c_s0.he(h1).face is Some);
                assert(c_s0.he(h2).face is Some);
                assert(forall|k: u64| #[trigger] m_s0.dom().contains(k) ==> m_s0[k] != h1.0);
                assert(forall|k: u64| #[trigger] m_s0.dom().contains(k) ==> m_s0[k] != h2.0);
            }
            stitch_edge(&mut mesh.connectivity_info, &mut twins, v1, v2, h1);
            let ghost c_s1 = mesh.connectivity_info;
            let ghost m_s1 = twins@;
            proof {
                lemma_stitch_preserves(c_s0, c_s1, indices@, f as int + 1, nv);
                assert(edge_key_at(indices@, 3 * (f as int) + 1) == spec_edge_key(v1, v2));
                lemma_stitch_advance(c_s0, c_s1, m_s0, m_s1, indices@, 3 * (f as int) + 1);
                assert(c_s1.he(h2).twin is None);
                assert(c_s1.origin_of(h2) == Some(v2));
                assert(c_s1.he(h2).vertex == Some(v0));
                assert(c_s1.he(h2).face is Some);
                assert(forall|k: u64| #[trigger] m_s1.dom().contains(k) ==> m_s1[k] != h2.0);
            }
            stitch_edge(&mut mesh.connectivity_info, &mut twins, v2, v0, h2);
            proof {
                let c = mesh.connectivity_info;
                lemma_stitch_preserves(c_s1, c, indices@, f as int + 1, nv);
                assert(edge_key_at(indices@, 3 * (f as int) + 2) == spec_edge_key(v2, v0));
                lemma_stitch_advance(c_s1, c, m_s1, twins@, indices@, 3 * (f as int) + 2);
                assert(stitch_progress(c, twins@, indices@, 3 * (f as int + 1)));
                assert(forall|k: u64| #[trigger] twins@.dom().contains(k) ==> twins@[k] < 3 * (
                f as int + 1));
                assert(c.vs() == c_cf.vs());
                assert forall|j: int| 0 <= j < 3 * (f as int + 1) implies (
                #[trigger] mesh.connectivity_info.vs()[indices@[j] as int]).halfedge is Some by {
                    if j < 3 * (f as int) {
                        assert(c_before.vs()[indices@[j] as int].halfedge is Some);
                        assert(c_cf.vs()[indices@[j] as int].halfedge is Some);
                    } else {
                        assert(c_cf.vs()[indices@[j] as int].halfedge is Some);
                    }
                }
                assert forall|j: int| 0 <= j < nv implies (
                #[trigger] mesh.connectivity_info.vs()[j]).position == (Vec3 {
                    x: positions@[3 * j],
                    y: positions@[3 * j + 1],
                    z: positions@[3 * j + 2],
                }) by {
                    assert(c_before.vs()[j].position == (Vec3 {
                        x: positions@[3 * j],
                        y: positions@[3 * j + 1],
                        z: positions@[3 * j + 2],
                    }));
                    assert(c_cf.vs()[j].position == c_before.vs()[j].position);
                }
            }
            f = f + 1;
        }

        // Boundary closure: synthesize a twin for every unpaired half-edge.
        proof {
            let c = mesh.connectivity_info;
            assert forall|h: HalfEdgeID| c.valid_halfedge(h) implies {
                &&& (#[trigger] c.he(h)).vertex is Some
                &&& c.he(h).face is Some
                &&& c.he(h).next is Some
            } by {
                assert(c.hs()[h.0 as int].face is Some);
                assert(c.hs()[h.0 as int].next is Some);
                assert(c.hs()[h.0 as int].vertex is Some);
            }
            assert(c.targets_present());
            assert(c.hs().len() == 3 * (indices@.len() / 3));
            assert(2 * c.hs().len() <= u32::MAX);
        }
        let ghost c_mid = mesh.connectivity_info;
        let ghost m_mid = twins@;
        mesh.create_boundary_edges();
        proof {
            let c = mesh.connectivity_info;
            let nf = indices@.len() / 3;
            assert(c_mid.hs().len() == indices@.len());
            assert(stitch_progress(c_mid, m_mid, indices@, indices@.len() as int));
            lemma_assemble_stitched(c_mid, c, m_mid, indices@);
            assert forall|g: int| 0 <= g < nf implies #[trigger] face_wiring_ok(
                c,
                indices@,
                g,
            ) by {
                assert(face_wiring_ok(c_mid, indices@, g));
                assert(c.hs()[3 * g].vertex == c_mid.hs()[3 * g].vertex);
                assert(c.hs()[3 * g + 1].vertex == c_mid.hs()[3 * g + 1].vertex);
                assert(c.hs()[3 * g + 2].vertex == c_mid.hs()[3 * g + 2].vertex);
            }
            assert forall|j: int| 0 <= j < indices@.len() implies (#[trigger] c.hs()[j]).face
                == Some(FaceID((j / 3) as u32)) by {
                let g = j / 3;
                assert(face_wiring_ok(c, indices@, g));
                assert(j == 3 * g || j == 3 * g + 1 || j == 3 * g + 2);
            }
            assert forall|ff: FaceID| c.valid_face(ff) implies {
                let a = (#[trigger] c.fc(ff)).halfedge;
                &&& a is Some
                &&& c.valid_halfedge(a->0)
                &&& c.he(a->0).face == Some(ff)
            } by {
                assert(face_wiring_ok(c, indices@, ff.0 as int));
                assert(c.fc(ff) == c.fs()[ff.0 as int]);
                assert(c.hs()[3 * (ff.0 as int)].face == Some(FaceID(ff.0)));
            }
            assert(c.face_anchors_consistent());
            assert forall|v: VertexID|
                c.valid_vertex(v) && (#[trigger] c.vx(v)).halfedge is Some implies {
                let a = c.vx(v).halfedge->0;
                &&& c.valid_halfedge(a)
                &&& c.he(a).face is Some
                &&& c.step_target(c.step_prev(Some(a))) == Some(v)
            } by {
                assert(c_mid.vx(v) == c.vx(v));
                assert(c_mid.vx(v) == c_mid.vx(v));
                let a = c_mid.vx(v).halfedge->0;
                assert(c_mid.valid_halfedge(a));
                assert(c_mid.he(a).face is Some);
                assert(c.hs()[a.0 as int].face == c_mid.hs()[a.0 as int].face);
                assert(c.hs()[a.0 as int].next == c_mid.hs()[a.0 as int].next);
                if c_mid.he(a).next is Some {
                    let na = c_mid.he(a).next->0;
                    assert(c_mid.valid_halfedge(na));
                    assert(c.hs()[na.0 as int].next == c_mid.hs()[na.0 as int].next);
                    if c_mid.he(na).next is Some {
                        let nna = c_mid.he(na).next->0;
                        assert(c_mid.valid_halfedge(nna));
                        assert(c.hs()[nna.0 as int].vertex == c_mid.hs()[nna.0 as int].vertex);
                    }
                }
            }
            assert(c.vertex_anchors_leave_their_vertex());
            assert(c.well_formed());
            assert forall|v: VertexID| c.valid_vertex(v) implies position_in_range(
                (#[trigger] c.vx(v)).position,
            ) by {
                let j = v.0 as int;
                assert(c.vx(v).position == (Vec3 {
                    x: positions@[3 * j],
                    y: positions@[3 * j + 1],
                    z: positions@[3 * j + 2],
                }));
                assert(-COORD_LIMIT <= positions@[3 * j] <= COORD_LIMIT);
                assert(-COORD_LIMIT <= positions@[3 * j + 1] <= COORD_LIMIT);
                assert(-COORD_LIMIT <= positions@[3 * j + 2] <= COORD_LIMIT);
            }
            assert(c.positions_in_range());
        }
        mesh
    }
}

} // verus!
