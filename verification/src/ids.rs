//! Opaque integer handles for the three entity kinds.
//!
//! A handle is stable for the entity's lifetime: the kernel never deletes
//! an entity or reuses an index, so a handle is simply the position of the
//! entity in its append-only collection.

use vstd::prelude::*;

verus! {

/// Handle to a vertex.
#[derive(Clone, Copy, PartialEq, Eq, Structural, Hash, Debug)]
pub struct VertexID(pub u32);

/// Handle to a half-edge.
#[derive(Clone, Copy, PartialEq, Eq, Structural, Hash, Debug)]
pub struct HalfEdgeID(pub u32);

/// Handle to a face.
#[derive(Clone, Copy, PartialEq, Eq, Structural, Hash, Debug)]
pub struct FaceID(pub u32);

impl VertexID {
    pub fn new(index: u32) -> (v: VertexID)
        ensures
            v == VertexID(index),
    {
        VertexID(index)
    }
}

impl HalfEdgeID {
    pub fn new(index: u32) -> (h: HalfEdgeID)
        ensures
            h == HalfEdgeID(index),
    {
        HalfEdgeID(index)
    }
}

impl FaceID {
    pub fn new(index: u32) -> (f: FaceID)
        ensures
            f == FaceID(index),
    {
        FaceID(index)
    }
}

} // verus!
