//! The validator: a read-only diagnostic pass that certifies a populated
//! store is topologically sound and free of degeneracies.
//!
//! It is a development and testing aid: the builder never runs it, and
//! traversal does not require it to have passed.  The pair scan at the
//! end is quadratic in the number of vertices, which is acceptable only
//! for test-scale meshes.

use vstd::prelude::*;

use crate::ids::FaceID;
use crate::ids::HalfEdgeID;
use crate::ids::VertexID;
use crate::mesh::Mesh;
use crate::mesh::MeshError;
use crate::mesh::TriMeshResult;
use crate::vector::MIN_SQ_CROSS;
use crate::vector::MIN_SQ_LENGTH;
use crate::vector::spec_sq_cross;
use crate::vector::spec_sq_distance;
use crate::vector::sq_cross;
use crate::vector::sq_distance;

verus! {

impl Mesh {
    /// A vertex passes validation when its anchor half-edge exists and
    /// that half-edge's twin targets the vertex itself.
    pub open spec fn spec_vertex_ok(self, v: VertexID) -> bool {
        let c = self.connectivity_info;
        &&& c.vx(v).halfedge is Some
        &&& c.valid_halfedge(c.vx(v).halfedge->0)
        &&& c.step_target(c.step_twin(c.vx(v).halfedge)) == Some(v)
    }

    /// The degenerate-edge check, applicable once a half-edge and its
    /// twin both resolve and carry target vertices: the two targets must
    /// lie farther apart than the edge-length threshold.
    pub open spec fn spec_edge_length_ok(self, h: HalfEdgeID) -> bool {
        let c = self.connectivity_info;
        if c.he(h).twin is Some && c.valid_halfedge(c.he(h).twin->0) && c.he(h).vertex is Some
            && c.valid_vertex(c.he(h).vertex->0) && c.he(c.he(h).twin->0).vertex is Some
            && c.valid_vertex(c.he(c.he(h).twin->0).vertex->0) {
            spec_sq_distance(
                c.vx(c.he(h).vertex->0).position,
                c.vx(c.he(c.he(h).twin->0).vertex->0).position,
            ) >= MIN_SQ_LENGTH
        } else {
            true
        }
    }

    /// A half-edge passes validation when its twin exists and is mutual,
    /// the twin pair targets two distinct vertices, its target vertex
    /// exists, it has a face exactly when it has a next half-edge, the
    /// next half-edge's derived previous resolves back to it, and the
    /// edge it runs is not degenerate.
    pub open spec fn spec_halfedge_ok(self, h: HalfEdgeID) -> bool {
        let c = self.connectivity_info;
        &&& c.he(h).twin is Some
        &&& c.valid_halfedge(c.he(h).twin->0)
        &&& c.step_twin(c.step_twin(Some(h))) == Some(h)
        &&& c.step_target(c.step_twin(Some(h))) != c.he(h).vertex
        &&& c.he(h).vertex is Some
        &&& c.valid_vertex(c.he(h).vertex->0)
        &&& (c.he(h).face is Some ==> c.valid_face(c.he(h).face->0) && c.he(h).next is Some)
        &&& (c.he(h).next is Some ==> c.valid_halfedge(c.he(h).next->0) && c.he(h).face is Some
            && c.step_prev(c.step_next(Some(h))) == Some(h))
        &&& self.spec_edge_length_ok(h)
    }

    /// The degenerate-face check, applicable once the face's anchor and
    /// its triangle cycle resolve with target vertices: the squared
    /// cross-product norm of the corner triangle must reach the face
    /// threshold.
    pub open spec fn spec_face_area_ok(self, f: FaceID) -> bool {
        let c = self.connectivity_info;
        let a0 = c.fc(f).halfedge;
        let a1 = c.step_next(a0);
        let a2 = c.step_next(a1);
        let t0 = c.step_target(a0);
        let t1 = c.step_target(a1);
        let t2 = c.step_target(a2);
        if t0 is Some && c.valid_vertex(t0->0) && t1 is Some && c.valid_vertex(t1->0)
            && t2 is Some && c.valid_vertex(t2->0) {
            spec_sq_cross(
                c.vx(t0->0).position,
                c.vx(t1->0).position,
                c.vx(t2->0).position,
            ) >= MIN_SQ_CROSS
        } else {
            true
        }
    }

    /// A face passes validation when its anchor half-edge exists,
    /// belongs to the face, and the face is not degenerate.
    pub open spec fn spec_face_ok(self, f: FaceID) -> bool {
        let c = self.connectivity_info;
        &&& c.fc(f).halfedge is Some
        &&& c.valid_halfedge(c.fc(f).halfedge->0)
        &&& c.step_face(c.fc(f).halfedge) == Some(f)
        &&& self.spec_face_area_ok(f)
    }

    /// Half-edge `h` runs from `v1` to `v2`: it leaves `v1` (its twin
    /// targets `v1`) and targets `v2`.
    pub open spec fn spec_connecting(self, h: HalfEdgeID, v1: VertexID, v2: VertexID) -> bool {
        let c = self.connectivity_info;
        &&& c.valid_halfedge(h)
        &&& c.step_target(c.step_twin(Some(h))) == Some(v1)
        &&& c.he(h).vertex == Some(v2)
    }

    /// Some half-edge runs from `v1` to `v2`.
    pub open spec fn spec_connects(self, v1: VertexID, v2: VertexID) -> bool {
        exists|h: HalfEdgeID| self.spec_connecting(h, v1, v2)
    }

    /// Two distinct half-edges run from `v1` to `v2`.
    pub open spec fn spec_multiply_connected(self, v1: VertexID, v2: VertexID) -> bool {
        exists|h1: HalfEdgeID, h2: HalfEdgeID|
            self.spec_connecting(h1, v1, v2) && self.spec_connecting(h2, v1, v2) && h1 != h2
    }

    /// An ordered vertex pair passes validation when the "connected by
    /// an edge" relation is symmetric between them and at most one
    /// half-edge runs from the first to the second.
    pub open spec fn spec_pair_ok(self, v1: VertexID, v2: VertexID) -> bool {
        &&& (self.spec_connects(v1, v2) <==> self.spec_connects(v2, v1))
        &&& !self.spec_multiply_connected(v1, v2)
    }

    /// The full validation checklist: every vertex, half-edge, face and
    /// ordered vertex pair passes.
    pub open spec fn spec_valid(self) -> bool {
        let c = self.connectivity_info;
        &&& forall|v: VertexID| c.valid_vertex(v) ==> #[trigger] self.spec_vertex_ok(v)
        &&& forall|h: HalfEdgeID| c.valid_halfedge(h) ==> #[trigger] self.spec_halfedge_ok(h)
        &&& forall|f: FaceID| c.valid_face(f) ==> #[trigger] self.spec_face_ok(f)
        &&& forall|v1: VertexID, v2: VertexID|
            c.valid_vertex(v1) && c.valid_vertex(v2) ==> #[trigger] self.spec_pair_ok(v1, v2)
    }

    /// Scans all half-edges for one running from `v1` to `v2`, reporting
    /// whether one exists and whether more than one does.
    fn find_connecting(&self, v1: VertexID, v2: VertexID) -> (r: (bool, bool))
        requires
            self.connectivity_info.hs().len() <= u32::MAX,
        ensures
            r.0 == self.spec_connects(v1, v2),
            r.1 == self.spec_multiply_connected(v1, v2),
    {
        let n = self.connectivity_info.no_halfedges();
        let mut found: Option<HalfEdgeID> = None;
        let mut multiple: bool = false;
        let mut j: usize = 0;
        while j < n
            invariant
                j <= n,
                n == self.connectivity_info.hs().len(),
                n <= u32::MAX,
                (match found {
                    Some(hf) => self.spec_connecting(hf, v1, v2) && (hf.0 as int) < j,
                    None => forall|h: HalfEdgeID|
                        (h.0 as int) < j ==> !#[trigger] self.spec_connecting(h, v1, v2),
                }),
                !multiple && found is Some ==> forall|h: HalfEdgeID|
                    (h.0 as int) < j && #[trigger] self.spec_connecting(h, v1, v2) ==> h
                        == found->0,
                multiple ==> self.spec_multiply_connected(v1, v2),
            decreases n - j,
        {
            let h = HalfEdgeID(j as u32);
            let e = self.connectivity_info.halfedge(h);
            let leaves: bool = match e.twin {
                Some(t) => {
                    if (t.0 as usize) < n {
                        match self.connectivity_info.halfedge(t).vertex {
                            Some(tv) => tv.0 == v1.0,
                            None => false,
                        }
                    } else {
                        false
                    }
                },
                None => false,
            };
            let targets: bool = match e.vertex {
                Some(tv) => tv.0 == v2.0,
                None => false,
            };
            proof {
                assert((leaves && targets) == self.spec_connecting(h, v1, v2));
            }
            if leaves && targets {
                match found {
                    Some(hf) => {
                        proof {
                            assert(self.spec_connecting(hf, v1, v2) && self.spec_connecting(
                                h,
                                v1,
                                v2,
                            ) && hf != h);
                        }
                        multiple = true;
                    },
                    None => {
                        found = Some(h);
                    },
                }
            }
            proof {
                assert(forall|x: HalfEdgeID|
                    (x.0 as int) < j + 1 && x.0 as int != j ==> (x.0 as int) < j);
            }
            j = j + 1;
        }
        (found.is_some(), multiple)
    }

    ///
    /// WARNING: NOT FOR PRODUCTION USE.
    ///
    /// Tests whether the mesh is valid: correct connectivity and
    /// orientation, and no degenerate edges or triangles.  Intended only
    /// for development and unit tests; the pair scan is quadratic.
    ///
    /// Returns `Ok` exactly when the whole checklist holds; otherwise an
    /// error describing the first violation encountered.
    #[verifier::rlimit(100)]
    pub fn is_valid(&self) -> (r: TriMeshResult<()>)
        requires
            self.connectivity_info.positions_in_range(),
            self.connectivity_info.vs().len() <= u32::MAX,
            self.connectivity_info.hs().len() <= u32::MAX,
            self.connectivity_info.fs().len() <= u32::MAX,
        ensures
            r is Ok <==> self.spec_valid(),
            r is Err ==> r->Err_0 is MeshIsInvalid,
    {
        let c = &self.connectivity_info;
        let nv = c.no_vertices();
        let nh = c.no_halfedges();
        let nf = c.no_faces();

        // Every vertex: anchor exists, and its twin targets the vertex.
        let mut i: usize = 0;
        while i < nv
            invariant
                i <= nv,
                nv == self.connectivity_info.vs().len(),
                nh == self.connectivity_info.hs().len(),
                self.connectivity_info.vs().len() <= u32::MAX,
                self.connectivity_info.hs().len() <= u32::MAX,
                self.connectivity_info.fs().len() <= u32::MAX,
                forall|v: VertexID| (v.0 as int) < i ==> #[trigger] self.spec_vertex_ok(v),
            decreases nv - i,
        {
            let v = VertexID(i as u32);
            match self.connectivity_info.vertex(v).halfedge {
                Some(a) => {
                    if (a.0 as usize) >= nh {
                        proof {
                            assert(!self.spec_vertex_ok(v));
                        }
                        return Err(
                            MeshError::MeshIsInvalid(
                                "a vertex points to an invalid half-edge".to_owned(),
                            ),
                        );
                    }
                    let ok: bool = match self.connectivity_info.halfedge(a).twin {
                        Some(t) => {
                            if (t.0 as usize) < nh {
                                match self.connectivity_info.halfedge(t).vertex {
                                    Some(tv) => tv.0 == v.0,
                                    None => false,
                                }
                            } else {
                                false
                            }
                        },
                        None => false,
                    };
                    if !ok {
                        proof {
                            assert(!self.spec_vertex_ok(v));
                        }
                        return Err(
                            MeshError::MeshIsInvalid(
                                "the half-edge pointed to by a vertex does not start in that vertex".to_owned(),
                            ),
                        );
                    }
                    proof {
                        assert(self.spec_vertex_ok(v));
                    }
                },
                None => {
                    proof {
                        assert(!self.spec_vertex_ok(v));
                    }
                    return Err(
                        MeshError::MeshIsInvalid(
                            "a vertex does not point to a half-edge".to_owned(),
                        ),
                    );
                },
            }
            i = i + 1;
        }

        // Every half-edge: twin mutual and non-degenerate, target
        // present, face exactly with next, round-trip previous, length.
        let mut j: usize = 0;
        while j < nh
            invariant
                j <= nh,
                nv == self.connectivity_info.vs().len(),
                nh == self.connectivity_info.hs().len(),
                nf == self.connectivity_info.fs().len(),
                self.connectivity_info.positions_in_range(),
                self.connectivity_info.vs().len() <= u32::MAX,
                self.connectivity_info.hs().len() <= u32::MAX,
                self.connectivity_info.fs().len() <= u32::MAX,
                forall|h: HalfEdgeID| (h.0 as int) < j ==> #[trigger] self.spec_halfedge_ok(h),
            decreases nh - j,
        {
            let h = HalfEdgeID(j as u32);
            let e = self.connectivity_info.halfedge(h);

            let t = match e.twin {
                Some(t) => t,
                None => {
                    proof {
                        assert(!self.spec_halfedge_ok(h));
                    }
                    return Err(
                        MeshError::MeshIsInvalid(
                            "a half-edge does not point to a twin half-edge".to_owned(),
                        ),
                    );
                },
            };
            if (t.0 as usize) >= nh {
                proof {
                    assert(!self.spec_halfedge_ok(h));
                }
                return Err(
                    MeshError::MeshIsInvalid(
                        "a half-edge points to an invalid twin half-edge".to_owned(),
                    ),
                );
            }
            let te = self.connectivity_info.halfedge(t);
            let mutual: bool = match te.twin {
                Some(tt) => tt.0 == h.0,
                None => false,
            };
            if !mutual {
                proof {
                    assert(!self.spec_halfedge_ok(h));
                }
                return Err(
                    MeshError::MeshIsInvalid(
                        "the twin pointed to by a half-edge does not point back to it".to_owned(),
                    ),
                );
            }
            let same_target: bool = match (te.vertex, e.vertex) {
                (Some(a), Some(b)) => a.0 == b.0,
                (None, None) => true,
                _ => false,
            };
            if same_target {
                proof {
                    assert(!self.spec_halfedge_ok(h));
                }
                return Err(
                    MeshError::MeshIsInvalid(
                        "a half-edge and its twin point to the same vertex".to_owned(),
                    ),
                );
            }
            let tv = match e.vertex {
                Some(tv) => tv,
                None => {
                    proof {
                        assert(!self.spec_halfedge_ok(h));
                    }
                    return Err(
                        MeshError::MeshIsInvalid(
                            "a half-edge does not point to a vertex".to_owned(),
                        ),
                    );
                },
            };
            if (tv.0 as usize) >= nv {
                proof {
                    assert(!self.spec_halfedge_ok(h));
                }
                return Err(
                    MeshError::MeshIsInvalid(
                        "a half-edge points to an invalid vertex".to_owned(),
                    ),
                );
            }
            match e.face {
                Some(f) => {
                    if (f.0 as usize) >= nf {
                        proof {
                            assert(!self.spec_halfedge_ok(h));
                        }
                        return Err(
                            MeshError::MeshIsInvalid(
                                "a half-edge points to an invalid face".to_owned(),
                            ),
                        );
                    }
                    if e.next.is_none() {
                        proof {
                            assert(!self.spec_halfedge_ok(h));
                        }
                        return Err(
                            MeshError::MeshIsInvalid(
                                "a half-edge points to a face but not a next half-edge".to_owned(),
                            ),
                        );
                    }
                },
                None => {},
            }
            match e.next {
                Some(n1) => {
                    if (n1.0 as usize) >= nh {
                        proof {
                            assert(!self.spec_halfedge_ok(h));
                        }
                        return Err(
                            MeshError::MeshIsInvalid(
                                "a half-edge points to an invalid next half-edge".to_owned(),
                            ),
                        );
                    }
                    if e.face.is_none() {
                        proof {
                            assert(!self.spec_halfedge_ok(h));
                        }
                        return Err(
                            MeshError::MeshIsInvalid(
                                "a half-edge points to a next half-edge but not a face".to_owned(),
                            ),
                        );
                    }
                    // derived previous of the next half-edge: next twice
                    let back: bool = match self.connectivity_info.halfedge(n1).next {
                    Some(n2) => {
                        if (n2.0 as usize) < nh {
                            match self.connectivity_info.halfedge(n2).next {
                                Some(n3) => n3.0 == h.0,
                                None => false,
                            }
                        } else {
                            false
                        }
                    },
                    None => false,
                };
                    if !back {
                        proof {
                            assert(!self.spec_halfedge_ok(h));
                        }
                        return Err(
                            MeshError::MeshIsInvalid(
                                "the next pointed to by a half-edge does not point back to it".to_owned(),
                            ),
                        );
                    }
                },
                None => {},
            }
            // degenerate edge length
            match te.vertex {
                Some(ov) => {
                    if (ov.0 as usize) < nv {
                        let pa = self.connectivity_info.vertex(tv).position;
                        let pb = self.connectivity_info.vertex(ov).position;
                        if sq_distance(pa, pb) < MIN_SQ_LENGTH {
                            proof {
                                assert(!self.spec_edge_length_ok(h));
                                assert(!self.spec_halfedge_ok(h));
                            }
                            return Err(
                                MeshError::MeshIsInvalid(
                                    "the length of an edge is too small".to_owned(),
                                ),
                            );
                        }
                    }
                },
                None => {},
            }
            proof {
                assert(self.spec_halfedge_ok(h));
            }
            j = j + 1;
        }

        // Every face: anchor exists, belongs to the face, and the face
        // is not degenerate.
        let mut k: usize = 0;
        while k < nf
            invariant
                k <= nf,
                nv == self.connectivity_info.vs().len(),
                nh == self.connectivity_info.hs().len(),
                nf == self.connectivity_info.fs().len(),
                self.connectivity_info.positions_in_range(),
                self.connectivity_info.vs().len() <= u32::MAX,
                self.connectivity_info.hs().len() <= u32::MAX,
                self.connectivity_info.fs().len() <= u32::MAX,
                forall|f: FaceID| (f.0 as int) < k ==> #[trigger] self.spec_face_ok(f),
            decreases nf - k,
        {
            let f = FaceID(k as u32);
            let a0 = match self.connectivity_info.face(f).halfedge {
                Some(a0) => a0,
                None => {
                    proof {
                        assert(!self.spec_face_ok(f));
                    }
                    return Err(
                        MeshError::MeshIsInvalid(
                            "a face does not point to a half-edge".to_owned(),
                        ),
                    );
                },
            };
            if (a0.0 as usize) >= nh {
                proof {
                    assert(!self.spec_face_ok(f));
                }
                return Err(
                    MeshError::MeshIsInvalid(
                        "a face points to an invalid half-edge".to_owned(),
                    ),
                );
            }
            let belongs: bool = match self.connectivity_info.halfedge(a0).face {
                Some(bf) => bf.0 == f.0,
                None => false,
            };
            if !belongs {
                proof {
                    assert(!self.spec_face_ok(f));
                }
                return Err(
                    MeshError::MeshIsInvalid(
                        "the half-edge pointed to by a face does not point back to the face".to_owned(),
                    ),
                );
            }
            // degenerate face area, over the three corner targets
            let t0 = self.connectivity_info.halfedge(a0).vertex;
            let a1 = self.connectivity_info.halfedge(a0).next;
            let corners: Option<(VertexID, VertexID, VertexID)> = match (t0, a1) {
                (Some(t0v), Some(a1v)) => {
                    if (t0v.0 as usize) < nv && (a1v.0 as usize) < nh {
                        let t1 = self.connectivity_info.halfedge(a1v).vertex;
                        let a2 = self.connectivity_info.halfedge(a1v).next;
                        match (t1, a2) {
                            (Some(t1v), Some(a2v)) => {
                                if (t1v.0 as usize) < nv && (a2v.0 as usize) < nh {
                                    match self.connectivity_info.halfedge(a2v).vertex {
                                        Some(t2v) => {
                                            if (t2v.0 as usize) < nv {
                                                Some((t0v, t1v, t2v))
                                            } else {
                                                None
                                            }
                                        },
                                        None => None,
                                    }
                                } else {
                                    None
                                }
                            },
                            _ => None,
                        }
                    } else {
                        None
                    }
                },
                _ => None,
            };
            match corners {
                Some((t0v, t1v, t2v)) => {
                    let pa = self.connectivity_info.vertex(t0v).position;
                    let pb = self.connectivity_info.vertex(t1v).position;
                    let pc = self.connectivity_info.vertex(t2v).position;
                    if sq_cross(pa, pb, pc) < MIN_SQ_CROSS {
                        proof {
                            assert(!self.spec_face_area_ok(f));
                            assert(!self.spec_face_ok(f));
                        }
                        return Err(
                            MeshError::MeshIsInvalid(
                                "the area of a face is too small".to_owned(),
                            ),
                        );
                    }
                },
                None => {},
            }
            proof {
                assert(self.spec_face_ok(f));
            }
            k = k + 1;
        }

        // Every ordered vertex pair: connection is symmetric and simple.
        let mut i1: usize = 0;
        while i1 < nv
            invariant
                i1 <= nv,
                nv == self.connectivity_info.vs().len(),
                self.connectivity_info.vs().len() <= u32::MAX,
                self.connectivity_info.hs().len() <= u32::MAX,
                self.connectivity_info.fs().len() <= u32::MAX,
                forall|v1: VertexID, v2: VertexID|
                    (v1.0 as int) < i1 && (v2.0 as int) < nv ==> #[trigger] self.spec_pair_ok(
                        v1,
                        v2,
                    ),
            decreases nv - i1,
        {
            let v1 = VertexID(i1 as u32);
            let mut i2: usize = 0;
            while i2 < nv
                invariant
                    i2 <= nv,
                    i1 < nv,
                    nv == self.connectivity_info.vs().len(),
                    self.connectivity_info.vs().len() <= u32::MAX,
                    self.connectivity_info.hs().len() <= u32::MAX,
                    v1 == VertexID(i1 as u32),
                    forall|w1: VertexID, w2: VertexID|
                        (w1.0 as int) < i1 && (w2.0 as int) < nv ==> #[trigger] self.spec_pair_ok(
                            w1,
                            w2,
                        ),
                    forall|w2: VertexID|
                        (w2.0 as int) < i2 ==> #[trigger] self.spec_pair_ok(v1, w2),
                decreases nv - i2,
            {
                let v2 = VertexID(i2 as u32);
                let fwd = self.find_connecting(v1, v2);
                let bwd = self.find_connecting(v2, v1);
                if fwd.0 != bwd.0 {
                    proof {
                        assert(!self.spec_pair_ok(v1, v2));
                    }
                    return Err(
                        MeshError::MeshIsInvalid(
                            "two vertices are connected one way but not the other".to_owned(),
                        ),
                    );
                }
                if fwd.1 {
                    proof {
                        assert(!self.spec_pair_ok(v1, v2));
                    }
                    return Err(
                        MeshError::MeshIsInvalid(
                            "two vertices are connected by multiple edges".to_owned(),
                        ),
                    );
                }
                proof {
                    assert(self.spec_pair_ok(v1, v2));
                }
                i2 = i2 + 1;
            }
            i1 = i1 + 1;
        }

        Ok(())
    }
}

} // verus!
