//! The mesh: a connectivity store together with its public read surface.

use vstd::prelude::*;

use crate::connectivity::ConnectivityInfo;
use crate::connectivity::Face;
use crate::connectivity::HalfEdge;
use crate::connectivity::Vertex;
use crate::ids::FaceID;
use crate::ids::HalfEdgeID;
use crate::ids::VertexID;
use crate::vector::Vec3;
use crate::vector::position_in_range;

verus! {

/// Error when performing a mesh operation.
#[derive(Debug)]
pub enum MeshError {
    /// Caller-supplied construction parameters fail a precondition.
    ActionWillResultInInvalidMesh(String),
    /// A proposed mutation would violate twin uniqueness.
    ActionWillResultInNonManifoldMesh(String),
    /// The validator found an invariant violation; the payload describes
    /// the first one encountered.
    MeshIsInvalid(String),
}

impl MeshError {
    /// The human-readable description carried by the error.
    pub fn message(&self) -> (r: &String)
        ensures
            (match self {
                MeshError::ActionWillResultInInvalidMesh(s) => r == s,
                MeshError::ActionWillResultInNonManifoldMesh(s) => r == s,
                MeshError::MeshIsInvalid(s) => r == s,
            }),
    {
        match self {
            MeshError::ActionWillResultInInvalidMesh(s) => s,
            MeshError::ActionWillResultInNonManifoldMesh(s) => s,
            MeshError::MeshIsInvalid(s) => s,
        }
    }
}

/// Result of a mesh operation.
pub type TriMeshResult<T> = Result<T, MeshError>;

/// A triangle mesh: the sole owner of one connectivity store.
#[derive(Debug)]
pub struct Mesh {
    pub connectivity_info: ConnectivityInfo,
}

impl Mesh {
    /// The vertex records, in creation order.
    pub open spec fn vertices(self) -> Seq<Vertex> {
        self.connectivity_info.vs()
    }

    /// The half-edge records, in creation order.
    pub open spec fn halfedges(self) -> Seq<HalfEdge> {
        self.connectivity_info.hs()
    }

    /// The face records, in creation order.
    pub open spec fn faces(self) -> Seq<Face> {
        self.connectivity_info.fs()
    }

    /// Whether the mesh satisfies the builder's structural guarantee.
    pub open spec fn well_formed(self) -> bool {
        self.connectivity_info.well_formed()
    }

    /// Whether every half-edge bounds a face, i.e. the mesh has no holes.
    pub open spec fn spec_is_closed(self) -> bool {
        forall|h: HalfEdgeID|
            self.connectivity_info.valid_halfedge(h) ==> (#[trigger] self.connectivity_info.he(
                h,
            )).face is Some
    }

    /// Wraps an already populated connectivity store.
    pub fn new_internal(connectivity_info: ConnectivityInfo) -> (m: Mesh)
        ensures
            m.connectivity_info == connectivity_info,
    {
        Mesh { connectivity_info }
    }

    /// Returns the number of vertices in the mesh.
    pub fn no_vertices(&self) -> (n: usize)
        ensures
            n == self.vertices().len(),
    {
        self.connectivity_info.no_vertices()
    }

    /// Returns the number of edges in the mesh.
    pub fn no_edges(&self) -> (n: usize)
        ensures
            n == self.halfedges().len() / 2,
    {
        self.connectivity_info.no_halfedges() / 2
    }

    /// Returns the number of half-edges in the mesh.
    pub fn no_halfedges(&self) -> (n: usize)
        ensures
            n == self.halfedges().len(),
    {
        self.connectivity_info.no_halfedges()
    }

    /// Returns the number of faces in the mesh.
    pub fn no_faces(&self) -> (n: usize)
        ensures
            n == self.faces().len(),
    {
        self.connectivity_info.no_faces()
    }

    /// Returns whether or not the mesh is closed, i.e. contains no holes:
    /// no half-edge lacks a face.
    pub fn is_closed(&self) -> (r: bool)
        ensures
            r == self.spec_is_closed(),
    {
        let n = self.connectivity_info.no_halfedges();
        let mut i: usize = 0;
        while i < n
            invariant
                i <= n,
                n == self.halfedges().len(),
                forall|h: HalfEdgeID|
                    (h.0 as int) < i ==> (#[trigger] self.connectivity_info.he(h)).face is Some,
            decreases n - i,
        {
            if self.connectivity_info.halfedge(HalfEdgeID(i as u32)).face.is_none() {
                assert(!self.spec_is_closed());
                return false;
            }
            assert(forall|h: HalfEdgeID|
                (h.0 as int) < i + 1 ==> (#[trigger] self.connectivity_info.he(h)).face is Some);
            i = i + 1;
        }
        true
    }

    /// Appends a vertex with the given position and no anchor.
    pub fn create_vertex(&mut self, position: Vec3) -> (v: VertexID)
        requires
            position_in_range(position),
            old(self).vertices().len() < u32::MAX,
        ensures
            v == VertexID(old(self).vertices().len() as u32),
            final(self).vertices() == old(self).vertices().push(
                (Vertex { position, halfedge: None }),
            ),
            final(self).halfedges() == old(self).halfedges(),
            final(self).faces() == old(self).faces(),
    {
        self.connectivity_info.new_vertex(position)
    }

    /// All vertex handles, in creation order.
    pub fn vertex_iter(&self) -> (r: Vec<VertexID>)
        ensures
            r@.len() == self.vertices().len(),
            forall|i: int| 0 <= i < r@.len() ==> r@[i] == VertexID(i as u32),
    {
        let n = self.connectivity_info.no_vertices();
        let mut r: Vec<VertexID> = Vec::new();
        let mut i: usize = 0;
        while i < n
            invariant
                i <= n,
                n == self.vertices().len(),
                n <= usize::MAX,
                r@.len() == i,
                forall|j: int| 0 <= j < i ==> r@[j] == VertexID(j as u32),
            decreases n - i,
        {
            r.push(VertexID(i as u32));
            i = i + 1;
        }
        r
    }

    /// All half-edge handles, in creation order.
    pub fn halfedge_iter(&self) -> (r: Vec<HalfEdgeID>)
        ensures
            r@.len() == self.halfedges().len(),
            forall|i: int| 0 <= i < r@.len() ==> r@[i] == HalfEdgeID(i as u32),
    {
        let n = self.connectivity_info.no_halfedges();
        let mut r: Vec<HalfEdgeID> = Vec::new();
        let mut i: usize = 0;
        while i < n
            invariant
                i <= n,
                n == self.halfedges().len(),
                r@.len() == i,
                forall|j: int| 0 <= j < i ==> r@[j] == HalfEdgeID(j as u32),
            decreases n - i,
        {
            r.push(HalfEdgeID(i as u32));
            i = i + 1;
        }
        r
    }

    /// All face handles, in creation order.
    pub fn face_iter(&self) -> (r: Vec<FaceID>)
        ensures
            r@.len() == self.faces().len(),
            forall|i: int| 0 <= i < r@.len() ==> r@[i] == FaceID(i as u32),
    {
        let n = self.connectivity_info.no_faces();
        let mut r: Vec<FaceID> = Vec::new();
        let mut i: usize = 0;
        while i < n
            invariant
                i <= n,
                n == self.faces().len(),
                r@.len() == i,
                forall|j: int| 0 <= j < i ==> r@[j] == FaceID(j as u32),
            decreases n - i,
        {
            r.push(FaceID(i as u32));
            i = i + 1;
        }
        r
    }

    /// Half-edge `h` leaves vertex `v`: its twin targets `v`.
    pub open spec fn spec_leaves(self, h: HalfEdgeID, v: VertexID) -> bool {
        let c = self.connectivity_info;
        &&& c.valid_halfedge(h)
        &&& c.step_target(c.step_twin(Some(h))) == Some(v)
    }

    /// All half-edges leaving a vertex, in creation order: exactly those
    /// whose twin targets the vertex.
    pub fn vertex_halfedge_iter(&self, v: VertexID) -> (r: Vec<HalfEdgeID>)
        requires
            self.connectivity_info.hs().len() <= u32::MAX,
        ensures
            forall|i: int| 0 <= i < r@.len() ==> self.spec_leaves(#[trigger] r@[i], v),
            forall|h: HalfEdgeID| #[trigger] self.spec_leaves(h, v) ==> r@.contains(h),
            forall|i: int, j: int| 0 <= i < j < r@.len() ==> r@[i].0 < r@[j].0,
    {
        let n = self.connectivity_info.no_halfedges();
        let mut r: Vec<HalfEdgeID> = Vec::new();
        let mut j: usize = 0;
        while j < n
            invariant
                j <= n,
                n == self.connectivity_info.hs().len(),
                n <= u32::MAX,
                forall|i: int|
                    0 <= i < r@.len() ==> self.spec_leaves(#[trigger] r@[i], v) && (r@[i].0 as int)
                        < j,
                forall|h: HalfEdgeID|
                    (h.0 as int) < j && #[trigger] self.spec_leaves(h, v) ==> r@.contains(h),
                forall|i: int, k: int| 0 <= i < k < r@.len() ==> r@[i].0 < r@[k].0,
            decreases n - j,
        {
            let h = HalfEdgeID(j as u32);
            let e = self.connectivity_info.halfedge(h);
            let leaves: bool = match e.twin {
                Some(t) => {
                    if (t.0 as usize) < n {
                        match self.connectivity_info.halfedge(t).vertex {
                            Some(tv) => tv.0 == v.0,
                            None => false,
                        }
                    } else {
                        false
                    }
                },
                None => false,
            };
            proof {
                assert(leaves == self.spec_leaves(h, v));
            }
            let ghost r_old = r@;
            if leaves {
                r.push(h);
            }
            proof {
                assert forall|x: HalfEdgeID|
                    (x.0 as int) < j + 1 && #[trigger] self.spec_leaves(x, v) implies r@.contains(
                    x,
                ) by {
                    if (x.0 as int) < j {
                        assert(r_old.contains(x));
                        let i = choose|i: int| 0 <= i < r_old.len() && r_old[i] == x;
                        assert(r@[i] == x);
                    } else {
                        assert(x == h);
                        assert(r@[r@.len() - 1] == h);
                    }
                }
            }
            j = j + 1;
        }
        r
    }

    /// The component-wise smallest and largest coordinates over all
    /// vertex positions.  An empty mesh yields the extreme representable
    /// values, each bound unattained.
    pub fn extreme_coordinates(&self) -> (r: (Vec3, Vec3))
        requires
            self.connectivity_info.vs().len() <= u32::MAX,
        ensures
            forall|v: VertexID|
                self.connectivity_info.valid_vertex(v) ==> {
                    let p = (#[trigger] self.connectivity_info.vx(v)).position;
                    &&& r.0.x <= p.x <= r.1.x
                    &&& r.0.y <= p.y <= r.1.y
                    &&& r.0.z <= p.z <= r.1.z
                },
            self.vertices().len() > 0 ==> {
                &&& exists|v: VertexID|
                    self.connectivity_info.valid_vertex(v) && (
                    #[trigger] self.connectivity_info.vx(v)).position.x == r.0.x
                &&& exists|v: VertexID|
                    self.connectivity_info.valid_vertex(v) && (
                    #[trigger] self.connectivity_info.vx(v)).position.y == r.0.y
                &&& exists|v: VertexID|
                    self.connectivity_info.valid_vertex(v) && (
                    #[trigger] self.connectivity_info.vx(v)).position.z == r.0.z
                &&& exists|v: VertexID|
                    self.connectivity_info.valid_vertex(v) && (
                    #[trigger] self.connectivity_info.vx(v)).position.x == r.1.x
                &&& exists|v: VertexID|
                    self.connectivity_info.valid_vertex(v) && (
                    #[trigger] self.connectivity_info.vx(v)).position.y == r.1.y
                &&& exists|v: VertexID|
                    self.connectivity_info.valid_vertex(v) && (
                    #[trigger] self.connectivity_info.vx(v)).position.z == r.1.z
            },
            self.vertices().len() == 0 ==> r.0 == (Vec3 {
                x: i64::MAX,
                y: i64::MAX,
                z: i64::MAX,
            }) && r.1 == (Vec3 { x: i64::MIN, y: i64::MIN, z: i64::MIN }),
    {
        let n = self.connectivity_info.no_vertices();
        let mut lo = Vec3 { x: i64::MAX, y: i64::MAX, z: i64::MAX };
        let mut hi = Vec3 { x: i64::MIN, y: i64::MIN, z: i64::MIN };
        let mut i: usize = 0;
        while i < n
            invariant
                i <= n,
                n == self.connectivity_info.vs().len(),
                n <= u32::MAX,
                forall|v: VertexID|
                    (v.0 as int) < i ==> {
                        let p = (#[trigger] self.connectivity_info.vx(v)).position;
                        &&& lo.x <= p.x <= hi.x
                        &&& lo.y <= p.y <= hi.y
                        &&& lo.z <= p.z <= hi.z
                    },
                i == 0 ==> lo == (Vec3 { x: i64::MAX, y: i64::MAX, z: i64::MAX }) && hi == (Vec3 {
                    x: i64::MIN,
                    y: i64::MIN,
                    z: i64::MIN,
                }),
                i > 0 ==> (exists|v: VertexID|
                    (v.0 as int) < i && (#[trigger] self.connectivity_info.vx(v)).position.x
                        == lo.x),
                i > 0 ==> (exists|v: VertexID|
                    (v.0 as int) < i && (#[trigger] self.connectivity_info.vx(v)).position.y
                        == lo.y),
                i > 0 ==> (exists|v: VertexID|
                    (v.0 as int) < i && (#[trigger] self.connectivity_info.vx(v)).position.z
                        == lo.z),
                i > 0 ==> (exists|v: VertexID|
                    (v.0 as int) < i && (#[trigger] self.connectivity_info.vx(v)).position.x
                        == hi.x),
                i > 0 ==> (exists|v: VertexID|
                    (v.0 as int) < i && (#[trigger] self.connectivity_info.vx(v)).position.y
                        == hi.y),
                i > 0 ==> (exists|v: VertexID|
                    (v.0 as int) < i && (#[trigger] self.connectivity_info.vx(v)).position.z
                        == hi.z),
            decreases n - i,
        {
            let p = self.connectivity_info.vertex(VertexID(i as u32)).position;
            let new_lo = Vec3 {
                x: if p.x < lo.x {
                    p.x
                } else {
                    lo.x
                },
                y: if p.y < lo.y {
                    p.y
                } else {
                    lo.y
                },
                z: if p.z < lo.z {
                    p.z
                } else {
                    lo.z
                },
            };
            let new_hi = Vec3 {
                x: if p.x > hi.x {
                    p.x
                } else {
                    hi.x
                },
                y: if p.y > hi.y {
                    p.y
                } else {
                    hi.y
                },
                z: if p.z > hi.z {
                    p.z
                } else {
                    hi.z
                },
            };
            lo = new_lo;
            hi = new_hi;
            i = i + 1;
        }
        (lo, hi)
    }

    /// The position of a live vertex.
    pub fn vertex_position(&self, v: VertexID) -> (p: Vec3)
        requires
            self.connectivity_info.valid_vertex(v),
        ensures
            p == self.connectivity_info.vx(v).position,
    {
        self.connectivity_info.vertex(v).position
    }
}

/// Copies a vector of plain records element by element.
fn copy_records<T: Copy>(v: &Vec<T>) -> (r: Vec<T>)
    ensures
        r@ == v@,
{
    let n = v.len();
    let mut r: Vec<T> = Vec::new();
    let mut i: usize = 0;
    while i < n
        invariant
            i <= n,
            n == v@.len(),
            r@ == v@.subrange(0, i as int),
        decreases n - i,
    {
        r.push(v[i]);
        proof {
            assert(r@ =~= v@.subrange(0, i + 1));
        }
        i = i + 1;
    }
    proof {
        assert(r@ =~= v@);
    }
    r
}

impl Clone for Mesh {
    /// Deep, independent copy of all three collections: the clone shares
    /// no state with the original.
    fn clone(&self) -> (m: Mesh)
        ensures
            m.vertices() == self.vertices(),
            m.halfedges() == self.halfedges(),
            m.faces() == self.faces(),
    {
        Mesh::new_internal(
            ConnectivityInfo {
                vertices: copy_records(&self.connectivity_info.vertices),
                halfedges: copy_records(&self.connectivity_info.halfedges),
                faces: copy_records(&self.connectivity_info.faces),
            },
        )
    }
}

} // verus!
