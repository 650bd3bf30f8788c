//! The checked builder: error reporting before any graph state is built.

use tri_mesh::MeshBuilder;
use tri_mesh::MeshError;

#[test]
fn build_without_buffers_is_rejected() {
    let r = MeshBuilder::new().build();
    match r {
        Err(MeshError::ActionWillResultInInvalidMesh(msg)) => {
            assert_eq!(msg, "no index buffer supplied");
        }
        other => panic!("expected an invalid-configuration error, got {:?}", other),
    }
    let r = MeshBuilder::new().with_indices(vec![0, 1, 2]).build();
    match r {
        Err(MeshError::ActionWillResultInInvalidMesh(msg)) => {
            assert_eq!(msg, "no coordinate buffer supplied");
        }
        other => panic!("expected an invalid-configuration error, got {:?}", other),
    }
}

#[test]
fn malformed_buffer_lengths_are_rejected() {
    let r = MeshBuilder::new()
        .with_indices(vec![0, 1])
        .with_positions(vec![0, 0, 0, 1, 0, 0, 0, 0, 1])
        .build();
    match r {
        Err(MeshError::ActionWillResultInInvalidMesh(msg)) => {
            assert_eq!(msg, "the index buffer length is not a multiple of three");
        }
        other => panic!("expected an invalid-configuration error, got {:?}", other),
    }
    let r = MeshBuilder::new()
        .with_indices(vec![0, 1, 2])
        .with_positions(vec![0, 0, 0, 1, 0])
        .build();
    match r {
        Err(MeshError::ActionWillResultInInvalidMesh(msg)) => {
            assert_eq!(msg, "the coordinate buffer length is not a multiple of three");
        }
        other => panic!("expected an invalid-configuration error, got {:?}", other),
    }
}

#[test]
fn out_of_range_input_is_rejected() {
    let r = MeshBuilder::new()
        .with_indices(vec![0, 1, 3])
        .with_positions(vec![0, 0, 0, 1, 0, 0, 0, 0, 1])
        .build();
    match r {
        Err(MeshError::ActionWillResultInInvalidMesh(msg)) => {
            assert_eq!(msg, "an index addresses no vertex");
        }
        other => panic!("expected an invalid-configuration error, got {:?}", other),
    }
    let r = MeshBuilder::new()
        .with_indices(vec![0, 1, 2])
        .with_positions(vec![0, 0, 0, tri_mesh::COORD_LIMIT + 1, 0, 0, 0, 0, 1])
        .build();
    match r {
        Err(MeshError::ActionWillResultInInvalidMesh(msg)) => {
            assert_eq!(msg, "a coordinate is out of range");
        }
        other => panic!("expected an invalid-configuration error, got {:?}", other),
    }
}

#[test]
fn valid_buffers_build_a_mesh() {
    let u: i64 = 1_000_000;
    let mesh = MeshBuilder::new()
        .with_indices(vec![0, 1, 2])
        .with_positions(vec![0, 0, 0, u, 0, 0, 0, 0, u])
        .build()
        .unwrap();
    assert_eq!(mesh.no_vertices(), 3);
    assert_eq!(mesh.no_faces(), 1);
    mesh.is_valid().unwrap();
}

#[test]
fn error_descriptions_are_exposed() {
    let e = MeshError::ActionWillResultInNonManifoldMesh("an edge is already paired".to_string());
    assert_eq!(e.message(), "an edge is already paired");
    let e = MeshError::MeshIsInvalid("broken".to_string());
    assert_eq!(e.message(), "broken");
    let e = MeshError::ActionWillResultInInvalidMesh("bad input".to_string());
    assert_eq!(e.message(), "bad input");
}
