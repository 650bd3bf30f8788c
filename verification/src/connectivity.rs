//! The connectivity store: the sole owner of all adjacency state.
//!
//! Three append-only collections hold the vertices, half-edges and faces.
//! Every adjacency relation is a small integer handle into one of them,
//! and a missing relation (no twin yet, no face on a boundary half-edge)
//! is an explicit `None`, never a sentinel.
//!
//! The store exposes low-level creation and mutation primitives; the
//! builder drives them, and every other component only reads.

use vstd::prelude::*;

use crate::ids::FaceID;
use crate::ids::HalfEdgeID;
use crate::ids::VertexID;
use crate::vector::Vec3;
use crate::vector::position_in_range;

verus! {

/// A vertex: a position and an optional anchor half-edge.  The anchor,
/// once assigned, is a half-edge leaving this vertex: the half-edge whose
/// cycle predecessor (and, once twins are stitched, whose twin) targets
/// this vertex.
#[derive(Clone, Copy, Debug)]
pub struct Vertex {
    pub position: Vec3,
    pub halfedge: Option<HalfEdgeID>,
}

/// One direction of an edge: the vertex it points to, the oppositely
/// directed half-edge of the same undirected edge, and — only when the
/// half-edge bounds a face — the following half-edge of that face's cycle
/// and the face itself.
#[derive(Clone, Copy, Debug)]
pub struct HalfEdge {
    pub vertex: Option<VertexID>,
    pub twin: Option<HalfEdgeID>,
    pub next: Option<HalfEdgeID>,
    pub face: Option<FaceID>,
}

/// A face: one anchor half-edge into its triangular cycle.
#[derive(Clone, Copy, Debug)]
pub struct Face {
    pub halfedge: Option<HalfEdgeID>,
}

/// The three entity collections.  Only the store's own primitives and the
/// builder mutate them; all other components read through the `Walker`.
#[derive(Debug)]
pub struct ConnectivityInfo {
    pub vertices: Vec<Vertex>,
    pub halfedges: Vec<HalfEdge>,
    pub faces: Vec<Face>,
}

impl ConnectivityInfo {
    /// The vertex collection, as a sequence in creation order.
    pub open spec fn vs(self) -> Seq<Vertex> {
        self.vertices@
    }

    /// The half-edge collection, as a sequence in creation order.
    pub open spec fn hs(self) -> Seq<HalfEdge> {
        self.halfedges@
    }

    /// The face collection, as a sequence in creation order.
    pub open spec fn fs(self) -> Seq<Face> {
        self.faces@
    }

    /// Whether a vertex handle refers to a live vertex.
    pub open spec fn valid_vertex(self, v: VertexID) -> bool {
        (v.0 as int) < self.vs().len()
    }

    /// Whether a half-edge handle refers to a live half-edge.
    pub open spec fn valid_halfedge(self, h: HalfEdgeID) -> bool {
        (h.0 as int) < self.hs().len()
    }

    /// Whether a face handle refers to a live face.
    pub open spec fn valid_face(self, f: FaceID) -> bool {
        (f.0 as int) < self.fs().len()
    }

    /// The vertex record a handle refers to.
    pub open spec fn vx(self, v: VertexID) -> Vertex {
        self.vs()[v.0 as int]
    }

    /// The half-edge record a handle refers to.
    pub open spec fn he(self, h: HalfEdgeID) -> HalfEdge {
        self.hs()[h.0 as int]
    }

    /// The face record a handle refers to.
    pub open spec fn fc(self, f: FaceID) -> Face {
        self.fs()[f.0 as int]
    }

    /// One cursor movement to the twin, propagating absence.
    pub open spec fn step_twin(self, c: Option<HalfEdgeID>) -> Option<HalfEdgeID> {
        match c {
            Some(h) => if self.valid_halfedge(h) {
                self.he(h).twin
            } else {
                None
            },
            None => None,
        }
    }

    /// One cursor movement to the next half-edge, propagating absence.
    pub open spec fn step_next(self, c: Option<HalfEdgeID>) -> Option<HalfEdgeID> {
        match c {
            Some(h) => if self.valid_halfedge(h) {
                self.he(h).next
            } else {
                None
            },
            None => None,
        }
    }

    /// The derived movement to the cycle predecessor: because every face
    /// is a triangle, the previous half-edge is `next` applied twice.
    pub open spec fn step_prev(self, c: Option<HalfEdgeID>) -> Option<HalfEdgeID> {
        self.step_next(self.step_next(c))
    }

    /// The target vertex of the half-edge a cursor rests on.
    pub open spec fn step_target(self, c: Option<HalfEdgeID>) -> Option<VertexID> {
        match c {
            Some(h) => if self.valid_halfedge(h) {
                self.he(h).vertex
            } else {
                None
            },
            None => None,
        }
    }

    /// The face of the half-edge a cursor rests on.
    pub open spec fn step_face(self, c: Option<HalfEdgeID>) -> Option<FaceID> {
        match c {
            Some(h) => if self.valid_halfedge(h) {
                self.he(h).face
            } else {
                None
            },
            None => None,
        }
    }

    /// The origin vertex of a half-edge: for a half-edge on a face, the
    /// vertex its cycle predecessor targets; for a boundary half-edge,
    /// the vertex its twin targets.
    pub open spec fn origin_of(self, h: HalfEdgeID) -> Option<VertexID> {
        if self.valid_halfedge(h) && self.he(h).face is Some {
            self.step_target(self.step_prev(Some(h)))
        } else {
            self.step_target(self.step_twin(Some(h)))
        }
    }

    /// Every stored handle refers to a live entity.
    pub open spec fn ids_valid(self) -> bool {
        &&& forall|h: HalfEdgeID|
            self.valid_halfedge(h) ==> {
                let e = #[trigger] self.he(h);
                &&& (e.vertex is Some ==> self.valid_vertex(e.vertex->0))
                &&& (e.twin is Some ==> self.valid_halfedge(e.twin->0))
                &&& (e.next is Some ==> self.valid_halfedge(e.next->0))
                &&& (e.face is Some ==> self.valid_face(e.face->0))
            }
        &&& forall|v: VertexID|
            self.valid_vertex(v) && (#[trigger] self.vx(v)).halfedge is Some
                ==> self.valid_halfedge(self.vx(v).halfedge->0)
        &&& forall|f: FaceID|
            self.valid_face(f) && (#[trigger] self.fc(f)).halfedge is Some
                ==> self.valid_halfedge(self.fc(f).halfedge->0)
    }

    /// Every vertex position lies in the accepted coordinate range.
    pub open spec fn positions_in_range(self) -> bool {
        forall|v: VertexID|
            self.valid_vertex(v) ==> position_in_range((#[trigger] self.vx(v)).position)
    }

    /// Every half-edge has a target vertex.
    pub open spec fn targets_present(self) -> bool {
        forall|h: HalfEdgeID|
            self.valid_halfedge(h) ==> (#[trigger] self.he(h)).vertex is Some
    }

    /// Every assigned twin link is valid, mutual, and joins two distinct
    /// half-edges.
    pub open spec fn twins_consistent(self) -> bool {
        forall|h: HalfEdgeID|
            self.valid_halfedge(h) && (#[trigger] self.he(h)).twin is Some ==> {
                let t = self.he(h).twin->0;
                &&& self.valid_halfedge(t)
                &&& t != h
                &&& self.he(t).twin == Some(h)
            }
    }

    /// Every half-edge has a twin.
    pub open spec fn twins_total(self) -> bool {
        forall|h: HalfEdgeID|
            self.valid_halfedge(h) ==> (#[trigger] self.he(h)).twin is Some
    }

    /// A half-edge bounds a face exactly when it has a next half-edge.
    pub open spec fn face_iff_next(self) -> bool {
        forall|h: HalfEdgeID|
            self.valid_halfedge(h) ==> ((#[trigger] self.he(h)).face is Some <==> self.he(
                h,
            ).next is Some)
    }

    /// Every next chain closes into a three-cycle that stays on one face.
    pub open spec fn cycles_are_triangles(self) -> bool {
        forall|h: HalfEdgeID|
            self.valid_halfedge(h) && (#[trigger] self.he(h)).next is Some ==> {
                let n = self.he(h).next->0;
                &&& self.valid_halfedge(n)
                &&& self.he(n).face == self.he(h).face
                &&& self.step_next(self.step_next(Some(n))) == Some(h)
            }
    }

    /// Every face's anchor half-edge exists and lies on that face.
    pub open spec fn face_anchors_consistent(self) -> bool {
        forall|f: FaceID|
            self.valid_face(f) ==> {
                let a = (#[trigger] self.fc(f)).halfedge;
                &&& a is Some
                &&& self.valid_halfedge(a->0)
                &&& self.he(a->0).face == Some(f)
            }
    }

    /// Every assigned vertex anchor lies on a face and leaves its vertex:
    /// the anchor's cycle predecessor targets the vertex.
    pub open spec fn vertex_anchors_leave_their_vertex(self) -> bool {
        forall|v: VertexID|
            self.valid_vertex(v) && (#[trigger] self.vx(v)).halfedge is Some ==> {
                let a = self.vx(v).halfedge->0;
                &&& self.valid_halfedge(a)
                &&& self.he(a).face is Some
                &&& self.step_target(self.step_prev(Some(a))) == Some(v)
            }
    }

    /// Every twin pair targets two distinct vertices: the two ends of an
    /// undirected edge differ.
    pub open spec fn twin_targets_distinct(self) -> bool {
        forall|h: HalfEdgeID|
            self.valid_halfedge(h) && (#[trigger] self.he(h)).twin is Some ==> self.he(
                self.he(h).twin->0,
            ).vertex != self.he(h).vertex
    }

    /// Every twin link joins the two directions of one undirected vertex
    /// pair: the twin's origin and target are the half-edge's target and
    /// origin, in one order or the other.
    pub open spec fn twin_ends_match(self) -> bool {
        forall|h: HalfEdgeID|
            self.valid_halfedge(h) && (#[trigger] self.he(h)).twin is Some ==> {
                let t = self.he(h).twin->0;
                let ht = self.he(h).vertex;
                let tt = self.he(t).vertex;
                let ho = self.origin_of(h);
                let to = self.origin_of(t);
                (tt == ho && to == ht) || (tt == ht && to == ho)
            }
    }

    /// The structural guarantee the builder establishes: all handles
    /// resolve, every half-edge has a target and a twin, twin links are
    /// mutual involutions, a face exists exactly where a next exists,
    /// cycles are triangles, and the anchors of faces and vertices are
    /// consistent with the graph.
    pub open spec fn well_formed(self) -> bool {
        &&& self.ids_valid()
        &&& self.targets_present()
        &&& self.twins_total()
        &&& self.twins_consistent()
        &&& self.face_iff_next()
        &&& self.cycles_are_triangles()
        &&& self.face_anchors_consistent()
        &&& self.vertex_anchors_leave_their_vertex()
    }

    /// A fresh, empty store.
    pub fn new() -> (c: ConnectivityInfo)
        ensures
            c.vs().len() == 0,
            c.hs().len() == 0,
            c.fs().len() == 0,
    {
        ConnectivityInfo { vertices: Vec::new(), halfedges: Vec::new(), faces: Vec::new() }
    }

    /// Number of live vertices.
    pub fn no_vertices(&self) -> (n: usize)
        ensures
            n == self.vs().len(),
    {
        self.vertices.len()
    }

    /// Number of live half-edges.
    pub fn no_halfedges(&self) -> (n: usize)
        ensures
            n == self.hs().len(),
    {
        self.halfedges.len()
    }

    /// Number of live faces.
    pub fn no_faces(&self) -> (n: usize)
        ensures
            n == self.fs().len(),
    {
        self.faces.len()
    }

    /// The record of a live half-edge.
    pub fn halfedge(&self, h: HalfEdgeID) -> (e: HalfEdge)
        requires
            self.valid_halfedge(h),
        ensures
            e == self.he(h),
    {
        self.halfedges[h.0 as usize]
    }

    /// The record of a live vertex.
    pub fn vertex(&self, v: VertexID) -> (r: Vertex)
        requires
            self.valid_vertex(v),
        ensures
            r == self.vx(v),
    {
        self.vertices[v.0 as usize]
    }

    /// The record of a live face.
    pub fn face(&self, f: FaceID) -> (r: Face)
        requires
            self.valid_face(f),
        ensures
            r == self.fc(f),
    {
        self.faces[f.0 as usize]
    }

    /// Appends a vertex with no anchor assigned yet.
    pub fn new_vertex(&mut self, position: Vec3) -> (v: VertexID)
        requires
            old(self).vs().len() < u32::MAX,
        ensures
            v == VertexID(old(self).vs().len() as u32),
            final(self).vs() == old(self).vs().push(
                (Vertex { position, halfedge: None }),
            ),
            final(self).hs() == old(self).hs(),
            final(self).fs() == old(self).fs(),
    {
        let v = VertexID(self.vertices.len() as u32);
        self.vertices.push(Vertex { position, halfedge: None });
        v
    }

    /// The raw half-edge constructor: appends a half-edge with exactly
    /// the fields given and no twin; the twin stays undefined until
    /// `set_halfedge_twin` links it.
    pub fn new_halfedge(
        &mut self,
        vertex: Option<VertexID>,
        next: Option<HalfEdgeID>,
        face: Option<FaceID>,
    ) -> (h: HalfEdgeID)
        requires
            old(self).hs().len() < u32::MAX,
        ensures
            h == HalfEdgeID(old(self).hs().len() as u32),
            final(self).hs() == old(self).hs().push(
                (HalfEdge { vertex, twin: None, next, face }),
            ),
            final(self).vs() == old(self).vs(),
            final(self).fs() == old(self).fs(),
    {
        let h = HalfEdgeID(self.halfedges.len() as u32);
        self.halfedges.push(HalfEdge { vertex, twin: None, next, face });
        h
    }

    /// Links two half-edges as mutual twins in one call, so the twin
    /// involution is never observably violated between the two writes.
    pub fn set_halfedge_twin(&mut self, h1: HalfEdgeID, h2: HalfEdgeID)
        requires
            old(self).valid_halfedge(h1),
            old(self).valid_halfedge(h2),
            h1 != h2,
        ensures
            final(self).hs() == old(self).hs().update(
                h1.0 as int,
                (HalfEdge { twin: Some(h2), ..old(self).he(h1) }),
            ).update(h2.0 as int, (HalfEdge { twin: Some(h1), ..old(self).he(h2) })),
            final(self).vs() == old(self).vs(),
            final(self).fs() == old(self).fs(),
    {
        self.halfedges[h1.0 as usize].twin = Some(h2);
        self.halfedges[h2.0 as usize].twin = Some(h1);
        proof {
            assert(self.hs() =~= old(self).hs().update(
                h1.0 as int,
                (HalfEdge { twin: Some(h2), ..old(self).he(h1) }),
            ).update(h2.0 as int, (HalfEdge { twin: Some(h1), ..old(self).he(h2) })));
        }
    }

    /// Assigns an anchor half-edge to a vertex unless one is already set.
    pub fn maybe_assign_anchor(&mut self, v: VertexID, h: HalfEdgeID)
        requires
            old(self).valid_vertex(v),
        ensures
            final(self).vs() == assign_anchor(old(self).vs(), v, h),
            final(self).hs() == old(self).hs(),
            final(self).fs() == old(self).fs(),
    {
        if self.vertices[v.0 as usize].halfedge.is_none() {
            self.vertices[v.0 as usize].halfedge = Some(h);
            proof {
                assert(self.vs() =~= assign_anchor(old(self).vs(), v, h));
            }
        } else {
            proof {
                assert(self.vs() =~= assign_anchor(old(self).vs(), v, h));
            }
        }
    }

    /// Allocates the three half-edges of the directed cycle
    /// `v0 -> v1 -> v2 -> v0`, links their `next` pointers into that
    /// cycle, sets their face, anchors the new face at the first-created
    /// half-edge, and assigns each corner vertex an anchor if it has
    /// none.  Twins are not set.
    pub fn create_face(&mut self, v0: VertexID, v1: VertexID, v2: VertexID) -> (f: FaceID)
        requires
            old(self).valid_vertex(v0),
            old(self).valid_vertex(v1),
            old(self).valid_vertex(v2),
            old(self).hs().len() + 3 <= u32::MAX,
            old(self).fs().len() < u32::MAX,
        ensures
            f == FaceID(old(self).fs().len() as u32),
            final(self).fs() == old(self).fs().push(
                (Face { halfedge: Some(HalfEdgeID(old(self).hs().len() as u32)) }),
            ),
            final(self).hs() == old(self).hs() + triangle_halfedges(
                old(self).hs().len() as int,
                f,
                v0,
                v1,
                v2,
            ),
            final(self).vs() == assign_anchor(
                assign_anchor(
                    assign_anchor(old(self).vs(), v0, HalfEdgeID(old(self).hs().len() as u32)),
                    v1,
                    HalfEdgeID((old(self).hs().len() + 1) as u32),
                ),
                v2,
                HalfEdgeID((old(self).hs().len() + 2) as u32),
            ),
    {
        let f = FaceID(self.faces.len() as u32);
        let base = self.halfedges.len();
        let h0 = HalfEdgeID(base as u32);
        let h1 = HalfEdgeID(h0.0 + 1);
        let h2 = HalfEdgeID(h0.0 + 2);
        self.new_halfedge(Some(v1), Some(h1), Some(f));
        self.new_halfedge(Some(v2), Some(h2), Some(f));
        self.new_halfedge(Some(v0), Some(h0), Some(f));
        self.faces.push(Face { halfedge: Some(h0) });
        self.maybe_assign_anchor(v0, h0);
        self.maybe_assign_anchor(v1, h1);
        self.maybe_assign_anchor(v2, h2);
        proof {
            assert(self.hs() =~= old(self).hs() + triangle_halfedges(
                old(self).hs().len() as int,
                f,
                v0,
                v1,
                v2,
            ));
        }
        f
    }
}

/// The vertex collection after assigning `h` as the anchor of `v`, unless
/// `v` already had one.
pub open spec fn assign_anchor(vs: Seq<Vertex>, v: VertexID, h: HalfEdgeID) -> Seq<Vertex> {
    if (v.0 as int) < vs.len() && vs[v.0 as int].halfedge is None {
        vs.update(v.0 as int, (Vertex { halfedge: Some(h), ..vs[v.0 as int] }))
    } else {
        vs
    }
}

/// The three half-edge records `create_face` appends when the store holds
/// `start` half-edges: the directed cycle `v0 -> v1 -> v2 -> v0`.
pub open spec fn triangle_halfedges(
    start: int,
    f: FaceID,
    v0: VertexID,
    v1: VertexID,
    v2: VertexID,
) -> Seq<HalfEdge> {
    seq![
        (HalfEdge {
            vertex: Some(v1),
            twin: None,
            next: Some(HalfEdgeID((start + 1) as u32)),
            face: Some(f),
        }),
        (HalfEdge {
            vertex: Some(v2),
            twin: None,
            next: Some(HalfEdgeID((start + 2) as u32)),
            face: Some(f),
        }),
        (HalfEdge {
            vertex: Some(v0),
            twin: None,
            next: Some(HalfEdgeID(start as u32)),
            face: Some(f),
        }),
    ]
}

} // verus!
