//! A half-edge connectivity kernel for triangle meshes.
//!
//! The kernel owns three append-only collections (vertices, half-edges,
//! faces), builds the half-edge graph from an indexed triangle list,
//! offers a repositionable traversal cursor ([`Walker`]) over it, and a
//! diagnostic pass ([`Mesh::is_valid`]) that certifies the graph is
//! topologically sound.
//!
//! Positions are fixed-point: each coordinate is an `i64` number of
//! millionths of a unit (see [`COORD_SCALE`]).

use vstd::prelude::*;

mod builder;
mod connectivity;
mod ids;
mod laws;
mod mesh;
mod mesh_builder;
mod validity;
mod vector;
mod walker;

verus! {

pub use crate::connectivity::ConnectivityInfo;
pub use crate::connectivity::Face;
pub use crate::connectivity::HalfEdge;
pub use crate::connectivity::Vertex;
pub use crate::ids::FaceID;
pub use crate::ids::HalfEdgeID;
pub use crate::ids::VertexID;
pub use crate::laws::lemma_anchor_round_trip;
pub use crate::laws::lemma_triangle_cycle;
pub use crate::laws::lemma_twin_involution;
pub use crate::laws::lemma_valid_implies_distinct_targets;
pub use crate::laws::lemma_valid_mesh_anchor;
pub use crate::mesh::Mesh;
pub use crate::mesh::MeshError;
pub use crate::mesh::TriMeshResult;
pub use crate::mesh_builder::MeshBuilder;
pub use crate::walker::Walker;
pub use crate::vector::COORD_LIMIT;
pub use crate::vector::COORD_SCALE;
pub use crate::vector::MIN_SQ_CROSS;
pub use crate::vector::MIN_SQ_LENGTH;
pub use crate::vector::Vec3;
pub use crate::vector::vec3;

} // verus!
