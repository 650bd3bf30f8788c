//! The topological laws of the half-edge graph, stated once and proved
//! from the structural guarantees of the builder and the validator.

use vstd::prelude::*;

use crate::ids::HalfEdgeID;
use crate::ids::VertexID;
use crate::mesh::Mesh;

verus! {

/// Law: the twin relation is an involution.  In a well-formed mesh every
/// half-edge has a twin — interior or synthesized boundary alike — and
/// following the twin twice returns to the starting half-edge.
pub proof fn lemma_twin_involution(m: Mesh, h: HalfEdgeID)
    requires
        m.well_formed(),
        m.connectivity_info.valid_halfedge(h),
    ensures
        m.connectivity_info.step_twin(m.connectivity_info.step_twin(Some(h))) == Some(h),
{
    let c = m.connectivity_info;
    // mention the record of h so the structural quantifiers apply to it
    assert(c.he(h) == c.he(h));
}

/// Law: face cycles are triangles.  For every half-edge that bounds a
/// face, following `next` three times returns to it, and the derived
/// previous of its next half-edge is the half-edge itself.
pub proof fn lemma_triangle_cycle(m: Mesh, h: HalfEdgeID)
    requires
        m.well_formed(),
        m.connectivity_info.valid_halfedge(h),
        m.connectivity_info.he(h).face is Some,
    ensures
        m.connectivity_info.step_next(
            m.connectivity_info.step_next(m.connectivity_info.step_next(Some(h))),
        ) == Some(h),
        m.connectivity_info.step_prev(m.connectivity_info.step_next(Some(h))) == Some(h),
{
    let c = m.connectivity_info;
    // mention the records along the cycle so the quantifiers apply to them
    assert(c.he(h) == c.he(h));
    let n = c.he(h).next->0;
    assert(c.he(n) == c.he(n));
}

/// Law: a vertex's anchor leads home.  In a well-formed mesh whose twin
/// links join the two directions of one undirected edge and whose twin
/// pairs target distinct vertices, the twin of any assigned vertex
/// anchor targets that same vertex.
///
/// The distinct-targets premise is what the validator's orientation
/// check certifies; index buffers in which two faces traverse one edge
/// in the same direction can produce a mesh that violates it.
pub proof fn lemma_anchor_round_trip(m: Mesh, v: VertexID)
    requires
        m.well_formed(),
        m.connectivity_info.twin_ends_match(),
        m.connectivity_info.twin_targets_distinct(),
        m.connectivity_info.valid_vertex(v),
        m.connectivity_info.vx(v).halfedge is Some,
    ensures
        m.connectivity_info.step_target(
            m.connectivity_info.step_twin(m.connectivity_info.vx(v).halfedge),
        ) == Some(v),
{
    let c = m.connectivity_info;
    let a = c.vx(v).halfedge->0;
    // mention the vertex and anchor records so the quantifiers apply
    assert(c.vx(v) == c.vx(v));
    assert(c.he(a) == c.he(a));
    assert(c.origin_of(a) == c.step_target(c.step_prev(Some(a))));
    assert(c.origin_of(a) == Some(v));
    let t = c.he(a).twin->0;
    assert(c.he(t).vertex != c.he(a).vertex);
}

/// A mesh the validator accepts has distinct twin targets: the check it
/// runs on every half-edge is exactly this property.
pub proof fn lemma_valid_implies_distinct_targets(m: Mesh)
    requires
        m.spec_valid(),
    ensures
        m.connectivity_info.twin_targets_distinct(),
{
    let c = m.connectivity_info;
    assert forall|h: HalfEdgeID|
        c.valid_halfedge(h) && (#[trigger] c.he(h)).twin is Some implies c.he(
        c.he(h).twin->0).vertex != c.he(h).vertex by {
        assert(m.spec_halfedge_ok(h));
    }
}

/// On a validated mesh the anchor law needs no side conditions: the
/// validator checks it for every vertex directly.
pub proof fn lemma_valid_mesh_anchor(m: Mesh, v: VertexID)
    requires
        m.spec_valid(),
        m.connectivity_info.valid_vertex(v),
    ensures
        m.connectivity_info.vx(v).halfedge is Some,
        m.connectivity_info.step_target(
            m.connectivity_info.step_twin(m.connectivity_info.vx(v).halfedge),
        ) == Some(v),
{
    assert(m.spec_vertex_ok(v));
}

} // verus!
