//! The walker: a repositionable traversal cursor over a connectivity
//! store, and the only way other components read adjacency.
//!
//! A movement performed while the cursor is unpositioned leaves it
//! unpositioned, and every query on an unpositioned cursor returns
//! `None`, so arbitrarily long movement chains compose without per-step
//! presence checks.

use vstd::prelude::*;

use crate::connectivity::ConnectivityInfo;
use crate::ids::FaceID;
use crate::ids::HalfEdgeID;
use crate::ids::VertexID;
use crate::mesh::Mesh;

verus! {

/// A read-only cursor bound to a connectivity store, positioned at a
/// half-edge or unpositioned.
pub struct Walker<'a> {
    pub conn: &'a ConnectivityInfo,
    pub current: Option<HalfEdgeID>,
}

impl<'a> Walker<'a> {
    /// The store the cursor reads.
    pub open spec fn store(self) -> ConnectivityInfo {
        *self.conn
    }

    /// A cursor is well formed when its store's handles all resolve and
    /// its own position, if any, is live.
    pub open spec fn wf(self) -> bool {
        &&& self.store().ids_valid()
        &&& (self.current is Some ==> self.store().valid_halfedge(self.current->0))
    }

    /// Repositions to the twin of the current half-edge.
    pub fn as_twin(self) -> (w: Walker<'a>)
        requires
            self.wf(),
        ensures
            w.store() == self.store(),
            w.current == self.store().step_twin(self.current),
            w.wf(),
    {
        let current = match self.current {
            Some(h) => self.conn.halfedge(h).twin,
            None => None,
        };
        Walker { conn: self.conn, current }
    }

    /// Repositions to the next half-edge of the current face cycle; a
    /// boundary half-edge has none, so the cursor becomes unpositioned.
    pub fn as_next(self) -> (w: Walker<'a>)
        requires
            self.wf(),
        ensures
            w.store() == self.store(),
            w.current == self.store().step_next(self.current),
            w.wf(),
    {
        let current = match self.current {
            Some(h) => self.conn.halfedge(h).next,
            None => None,
        };
        Walker { conn: self.conn, current }
    }

    /// Repositions to the cycle predecessor, which is derived, not
    /// stored: every face is a triangle, so it is `next` applied twice.
    pub fn as_previous(self) -> (w: Walker<'a>)
        requires
            self.wf(),
        ensures
            w.store() == self.store(),
            w.current == self.store().step_prev(self.current),
            w.wf(),
    {
        self.as_next().as_next()
    }

    /// The current half-edge handle.
    pub fn halfedge_id(&self) -> (r: Option<HalfEdgeID>)
        ensures
            r == self.current,
    {
        self.current
    }

    /// The target vertex of the current half-edge.
    pub fn vertex_id(&self) -> (r: Option<VertexID>)
        requires
            self.wf(),
        ensures
            r == self.store().step_target(self.current),
    {
        match self.current {
            Some(h) => self.conn.halfedge(h).vertex,
            None => None,
        }
    }

    /// The face of the current half-edge; `None` also when the cursor is
    /// positioned on a boundary half-edge.
    pub fn face_id(&self) -> (r: Option<FaceID>)
        requires
            self.wf(),
        ensures
            r == self.store().step_face(self.current),
    {
        match self.current {
            Some(h) => self.conn.halfedge(h).face,
            None => None,
        }
    }

    /// The twin handle of the current half-edge.
    pub fn twin_id(&self) -> (r: Option<HalfEdgeID>)
        requires
            self.wf(),
        ensures
            r == self.store().step_twin(self.current),
    {
        match self.current {
            Some(h) => self.conn.halfedge(h).twin,
            None => None,
        }
    }

    /// The next handle of the current half-edge.
    pub fn next_id(&self) -> (r: Option<HalfEdgeID>)
        requires
            self.wf(),
        ensures
            r == self.store().step_next(self.current),
    {
        match self.current {
            Some(h) => self.conn.halfedge(h).next,
            None => None,
        }
    }

    /// The derived cycle-predecessor handle of the current half-edge.
    pub fn previous_id(&self) -> (r: Option<HalfEdgeID>)
        requires
            self.wf(),
        ensures
            r == self.store().step_prev(self.current),
    {
        match self.current {
            Some(h) => match self.conn.halfedge(h).next {
                Some(n) => self.conn.halfedge(n).next,
                None => None,
            },
            None => None,
        }
    }
}

impl Mesh {
    /// A cursor at the anchor half-edge of a vertex: a half-edge leaving
    /// that vertex, so `vertex_id` reports the far endpoint.
    pub fn walker_from_vertex<'a>(&'a self, v: VertexID) -> (w: Walker<'a>)
        requires
            self.connectivity_info.ids_valid(),
            self.connectivity_info.valid_vertex(v),
        ensures
            w.store() == self.connectivity_info,
            w.current == self.connectivity_info.vx(v).halfedge,
            w.wf(),
    {
        Walker { conn: &self.connectivity_info, current: self.connectivity_info.vertex(v).halfedge }
    }

    /// A cursor at the given half-edge.
    pub fn walker_from_halfedge<'a>(&'a self, h: HalfEdgeID) -> (w: Walker<'a>)
        requires
            self.connectivity_info.ids_valid(),
            self.connectivity_info.valid_halfedge(h),
        ensures
            w.store() == self.connectivity_info,
            w.current == Some(h),
            w.wf(),
    {
        Walker { conn: &self.connectivity_info, current: Some(h) }
    }

    /// A cursor at the anchor half-edge of a face.
    pub fn walker_from_face<'a>(&'a self, f: FaceID) -> (w: Walker<'a>)
        requires
            self.connectivity_info.ids_valid(),
            self.connectivity_info.valid_face(f),
        ensures
            w.store() == self.connectivity_info,
            w.current == self.connectivity_info.fc(f).halfedge,
            w.wf(),
    {
        Walker { conn: &self.connectivity_info, current: self.connectivity_info.face(f).halfedge }
    }
}

} // verus!
