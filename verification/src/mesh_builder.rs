//! A checked front door for mesh construction: validates the caller's
//! buffers before any graph state is built, and reports an
//! invalid-configuration error instead of assuming preconditions.

use vstd::prelude::*;

use crate::mesh::Mesh;
use crate::mesh::MeshError;
use crate::mesh::TriMeshResult;
use crate::vector::COORD_LIMIT;

verus! {

/// The input contract of the builder: both buffer lengths are multiples
/// of three, every index addresses a vertex, and the counts and
/// coordinates fit the kernel's fixed-point handle and range limits.
pub open spec fn spec_buffers_ok(indices: Seq<u32>, positions: Seq<i64>) -> bool {
    &&& indices.len() % 3 == 0
    &&& positions.len() % 3 == 0
    &&& positions.len() / 3 < u32::MAX
    &&& 2 * indices.len() <= u32::MAX
    &&& forall|i: int| 0 <= i < indices.len() ==> (#[trigger] indices[i] as int) < positions.len() / 3
    &&& forall|i: int| 0 <= i < positions.len() ==> -COORD_LIMIT <= #[trigger] positions[i] <= COORD_LIMIT
}

/// Collects an index buffer and a coordinate buffer, then builds a mesh
/// once both pass the input contract.
pub struct MeshBuilder {
    pub positions: Option<Vec<i64>>,
    pub indices: Option<Vec<u32>>,
}

impl MeshBuilder {
    /// A builder with no buffers supplied yet.
    pub fn new() -> (b: MeshBuilder)
        ensures
            b.positions is None,
            b.indices is None,
    {
        MeshBuilder { positions: None, indices: None }
    }

    /// Supplies the index buffer: three vertex indices per face.
    pub fn with_indices(self, indices: Vec<u32>) -> (b: MeshBuilder)
        ensures
            b.indices == Some(indices),
            b.positions == self.positions,
    {
        MeshBuilder { indices: Some(indices), ..self }
    }

    /// Supplies the coordinate buffer: three fixed-point coordinates per
    /// vertex.
    pub fn with_positions(self, positions: Vec<i64>) -> (b: MeshBuilder)
        ensures
            b.positions == Some(positions),
            b.indices == self.indices,
    {
        MeshBuilder { positions: Some(positions), ..self }
    }

    /// Builds the mesh.  Returns an invalid-configuration error — before
    /// any graph state is built — exactly when a buffer is missing or the
    /// buffers break the input contract; otherwise the structurally
    /// complete mesh of those buffers.
    pub fn build(self) -> (r: TriMeshResult<Mesh>)
        ensures
            r is Ok <==> (self.indices is Some && self.positions is Some && spec_buffers_ok(
                self.indices->0@,
                self.positions->0@,
            )),
            r is Err ==> r->Err_0 is ActionWillResultInInvalidMesh,
            r is Ok ==> {
                let m = r->Ok_0;
                &&& m.well_formed()
                &&& m.connectivity_info.twin_ends_match()
                &&& m.connectivity_info.positions_in_range()
                &&& m.vertices().len() == self.positions->0@.len() / 3
                &&& m.faces().len() == self.indices->0@.len() / 3
                &&& self.indices->0@.len() <= m.halfedges().len() <= 2 * self.indices->0@.len()
                &&& forall|i: int|
                    0 <= i < self.positions->0@.len() / 3 ==> (#[trigger] m.vertices()[i]).position
                        == (crate::vector::Vec3 {
                        x: self.positions->0@[3 * i],
                        y: self.positions->0@[3 * i + 1],
                        z: self.positions->0@[3 * i + 2],
                    })
            },
    {
        let indices = match self.indices {
            Some(indices) => indices,
            None => {
                return Err(
                    MeshError::ActionWillResultInInvalidMesh("no index buffer supplied".to_owned()),
                );
            },
        };
        let positions = match self.positions {
            Some(positions) => positions,
            None => {
                return Err(
                    MeshError::ActionWillResultInInvalidMesh(
                        "no coordinate buffer supplied".to_owned(),
                    ),
                );
            },
        };
        if indices.len() % 3 != 0 {
            return Err(
                MeshError::ActionWillResultInInvalidMesh(
                    "the index buffer length is not a multiple of three".to_owned(),
                ),
            );
        }
        if positions.len() % 3 != 0 {
            return Err(
                MeshError::ActionWillResultInInvalidMesh(
                    "the coordinate buffer length is not a multiple of three".to_owned(),
                ),
            );
        }
        let no_vertices = positions.len() / 3;
        if no_vertices >= u32::MAX as usize {
            return Err(
                MeshError::ActionWillResultInInvalidMesh("too many vertices".to_owned()),
            );
        }
        if indices.len() > (u32::MAX as usize) / 2 {
            return Err(MeshError::ActionWillResultInInvalidMesh("too many faces".to_owned()));
        }
        let mut i: usize = 0;
        while i < indices.len()
            invariant
                i <= indices@.len(),
                no_vertices == positions@.len() / 3,
                self.indices == Some(indices),
                self.positions == Some(positions),
                forall|j: int| 0 <= j < i ==> (#[trigger] indices@[j] as int) < no_vertices,
            decreases indices@.len() - i,
        {
            if indices[i] as usize >= no_vertices {
                return Err(
                    MeshError::ActionWillResultInInvalidMesh(
                        "an index addresses no vertex".to_owned(),
                    ),
                );
            }
            i = i + 1;
        }
        let mut k: usize = 0;
        while k < positions.len()
            invariant
                k <= positions@.len(),
                self.indices == Some(indices),
                self.positions == Some(positions),
                forall|j: int|
                    0 <= j < k ==> -COORD_LIMIT <= #[trigger] positions@[j] <= COORD_LIMIT,
            decreases positions@.len() - k,
        {
            if positions[k] < -COORD_LIMIT || positions[k] > COORD_LIMIT {
                return Err(
                    MeshError::ActionWillResultInInvalidMesh(
                        "a coordinate is out of range".to_owned(),
                    ),
                );
            }
            k = k + 1;
        }
        proof {
            assert(2 * indices@.len() <= u32::MAX);
            assert(spec_buffers_ok(indices@, positions@));
        }
        Ok(Mesh::new(indices, positions))
    }
}

} // verus!
