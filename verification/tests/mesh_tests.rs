//! Connectivity, closedness and validity checks on small meshes.
//!
//! Coordinates are fixed-point: 1_000_000 steps per unit.

use tri_mesh::Mesh;
use tri_mesh::MeshBuilder;
use tri_mesh::MeshError;

fn unit() -> i64 {
    1_000_000
}

fn single_triangle() -> Mesh {
    Mesh::new(vec![0, 1, 2], vec![0, 0, 0, unit(), 0, 0, 0, 0, unit()])
}

/// Three triangles forming a fan around an interior center vertex.
fn fan_of_three() -> Mesh {
    let indices: Vec<u32> = vec![0, 1, 2, 0, 2, 3, 0, 3, 1];
    let positions: Vec<i64> = vec![
        0, 0, 0, // center
        unit(), 0, 0, // rim
        -500_000, 0, 866_025, // rim
        -500_000, 0, -866_025, // rim
    ];
    Mesh::new(indices, positions)
}

fn cube() -> Mesh {
    let u = unit();
    let indices: Vec<u32> = vec![
        0, 2, 1, 0, 3, 2, // bottom
        4, 5, 6, 4, 6, 7, // top
        0, 1, 5, 0, 5, 4, // front
        2, 3, 7, 2, 7, 6, // back
        0, 4, 7, 0, 7, 3, // left
        1, 2, 6, 1, 6, 5, // right
    ];
    let positions: Vec<i64> = vec![
        -u, -u, -u, u, -u, -u, u, u, -u, -u, u, -u, // bottom corners
        -u, -u, u, u, -u, u, u, u, u, -u, u, u, // top corners
    ];
    Mesh::new(indices, positions)
}

#[test]
fn test_one_face_connectivity() {
    let mesh = single_triangle();

    let f1 = mesh.face_iter()[0];
    let v1 = mesh.walker_from_face(f1).vertex_id().unwrap();
    let v2 = mesh.walker_from_face(f1).as_next().vertex_id().unwrap();
    let v3 = mesh.walker_from_face(f1).as_previous().vertex_id().unwrap();

    let t1 = mesh.walker_from_vertex(v1).vertex_id();
    assert_eq!(t1, Some(v2));

    let t2 = mesh.walker_from_vertex(v1).as_twin().vertex_id();
    assert_eq!(t2, Some(v1));

    let t3 = mesh.walker_from_vertex(v2).as_next().as_next().vertex_id();
    assert_eq!(t3, Some(v2));

    let t4 = mesh.walker_from_face(f1).as_twin().face_id();
    assert!(t4.is_none());

    let t5 = mesh.walker_from_face(f1).as_twin().next_id();
    assert!(t5.is_none());

    let t6 = mesh
        .walker_from_face(f1)
        .as_previous()
        .as_previous()
        .as_twin()
        .as_twin()
        .face_id();
    assert_eq!(t6, Some(f1));

    let t7 = mesh.walker_from_vertex(v2).as_next().as_next().next_id();
    assert_eq!(t7, mesh.walker_from_vertex(v2).halfedge_id());

    let t8 = mesh.walker_from_vertex(v3).face_id();
    assert_eq!(t8, Some(f1));

    mesh.is_valid().unwrap();
}

#[test]
fn test_three_face_connectivity() {
    let mesh = fan_of_three();
    let mut id = None;
    for vertex_id in mesh.vertex_iter() {
        let mut round = true;
        for halfedge_id in mesh.vertex_halfedge_iter(vertex_id) {
            if mesh.walker_from_halfedge(halfedge_id).face_id().is_none() {
                round = false;
                break;
            }
        }
        if round {
            id = Some(vertex_id);
            break;
        }
    }
    let walker = mesh.walker_from_vertex(id.unwrap());
    let start_edge = walker.halfedge_id().unwrap();
    let one_round_edge = walker
        .as_previous()
        .as_twin()
        .as_previous()
        .as_twin()
        .as_previous()
        .twin_id()
        .unwrap();
    assert_eq!(start_edge, one_round_edge);
}

#[test]
fn test_new_from_positions() {
    let u = unit();
    let positions: Vec<i64> = vec![
        0, 0, 0, u, 0, -500_000, -u, 0, -500_000, 0, 0, 0, -u, 0, -500_000, 0, 0, u, 0, 0, 0, 0,
        0, u, u, 0, -500_000,
    ];

    let mesh = Mesh::new((0..9).collect(), positions);

    assert_eq!(9, mesh.no_vertices());
    assert_eq!(3, mesh.no_faces());
    mesh.is_valid().unwrap();
}

#[test]
fn test_extreme_coordinates() {
    let u = unit();
    let indices: Vec<u32> = vec![0, 1, 2, 0, 2, 3, 0, 3, 1];
    let positions: Vec<i64> = vec![0, 0, 0, u, 0, -500_000, -u, 0, -500_000, 0, 0, u];
    let mesh = MeshBuilder::new()
        .with_indices(indices)
        .with_positions(positions)
        .build()
        .unwrap();

    let (min_coordinates, max_coordinates) = mesh.extreme_coordinates();

    assert_eq!(min_coordinates, tri_mesh::vec3(-u, 0, -500_000));
    assert_eq!(max_coordinates, tri_mesh::vec3(u, 0, u));
}

#[test]
fn test_is_closed_when_not_closed() {
    let u = unit();
    let indices: Vec<u32> = vec![0, 1, 2, 0, 2, 3, 0, 3, 1];
    let positions: Vec<i64> = vec![0, 0, 0, u, 0, -500_000, -u, 0, -500_000, 0, 0, u];
    let mesh = MeshBuilder::new()
        .with_indices(indices)
        .with_positions(positions)
        .build()
        .unwrap();
    assert!(!mesh.is_closed());
}

#[test]
fn test_is_closed_when_closed() {
    let mesh = cube();
    assert!(mesh.is_closed());
}

#[test]
fn single_triangle_counts() {
    let mesh = single_triangle();
    let vs = mesh.vertex_iter();
    assert_eq!(mesh.vertex_position(vs[1]), tri_mesh::vec3(unit(), 0, 0));
    assert_eq!(mesh.no_vertices(), 3);
    assert_eq!(mesh.no_faces(), 1);
    assert_eq!(mesh.no_halfedges(), 6);
    assert_eq!(mesh.no_edges(), 3);
    assert!(!mesh.is_closed());
    // three interior half-edges with a face, three synthesized without
    let mut interior = 0;
    let mut boundary = 0;
    for h in mesh.halfedge_iter() {
        if mesh.walker_from_halfedge(h).face_id().is_some() {
            interior += 1;
        } else {
            boundary += 1;
        }
    }
    assert_eq!(interior, 3);
    assert_eq!(boundary, 3);
}

#[test]
fn cube_is_valid_and_watertight() {
    let mesh = cube();
    assert_eq!(mesh.no_vertices(), 8);
    assert_eq!(mesh.no_faces(), 12);
    assert_eq!(mesh.no_halfedges(), 36);
    assert_eq!(mesh.no_edges(), 18);
    mesh.is_valid().unwrap();
    assert!(mesh.is_closed());
}

#[test]
fn coincident_vertices_fail_validation() {
    // two vertices forced to the same position: the edge between them is
    // degenerate
    let mesh = Mesh::new(vec![0, 1, 2], vec![0, 0, 0, 0, 0, 0, 0, 0, unit()]);
    match mesh.is_valid() {
        Err(MeshError::MeshIsInvalid(msg)) => {
            assert_eq!(msg, "the length of an edge is too small");
        }
        other => panic!("expected a degenerate-edge validation error, got {:?}", other),
    }
}

#[test]
fn collinear_triangle_fails_validation() {
    let u = unit();
    let mesh = Mesh::new(vec![0, 1, 2], vec![0, 0, 0, u, 0, 0, 2 * u, 0, 0]);
    match mesh.is_valid() {
        Err(MeshError::MeshIsInvalid(msg)) => {
            assert_eq!(msg, "the area of a face is too small");
        }
        other => panic!("expected a degenerate-face validation error, got {:?}", other),
    }
}

#[test]
fn same_winding_shared_edge_fails_validation() {
    // two faces traverse the edge between vertices 0 and 1 in the same
    // direction; the stitched twins then target the same vertex
    let u = unit();
    let mesh = Mesh::new(
        vec![0, 1, 2, 0, 1, 3],
        vec![0, 0, 0, u, 0, 0, 0, u, 0, 0, 0, u],
    );
    assert!(mesh.is_valid().is_err());
}

#[test]
fn isolated_vertex_fails_validation() {
    let mesh = Mesh::new(vec![0, 1, 2], vec![0, 0, 0, unit(), 0, 0, 0, 0, unit(), 0, unit(), 0]);
    match mesh.is_valid() {
        Err(MeshError::MeshIsInvalid(msg)) => {
            assert_eq!(msg, "a vertex does not point to a half-edge");
        }
        other => panic!("expected an anchor validation error, got {:?}", other),
    }
}

#[test]
fn walker_propagates_absence() {
    let mesh = single_triangle();
    let f = mesh.face_iter()[0];
    // the twin of an interior half-edge of an open mesh is a boundary
    // half-edge: moving to its next leaves the cursor unpositioned, and
    // every further movement and query stays absent
    let w = mesh.walker_from_face(f).as_twin().as_next();
    assert!(w.halfedge_id().is_none());
    let w = w.as_twin().as_previous().as_next();
    assert!(w.halfedge_id().is_none());
    assert!(w.vertex_id().is_none());
    assert!(w.face_id().is_none());
    assert!(w.twin_id().is_none());
    assert!(w.next_id().is_none());
    assert!(w.previous_id().is_none());
}

#[test]
fn twin_of_twin_returns_everywhere() {
    let mesh = fan_of_three();
    for h in mesh.halfedge_iter() {
        let back = mesh.walker_from_halfedge(h).as_twin().as_twin().halfedge_id();
        assert_eq!(back, Some(h));
    }
}

#[test]
fn triangle_cycle_closes_everywhere() {
    let mesh = cube();
    for h in mesh.halfedge_iter() {
        let w = mesh.walker_from_halfedge(h);
        if w.face_id().is_some() {
            let thrice = mesh
                .walker_from_halfedge(h)
                .as_next()
                .as_next()
                .as_next()
                .halfedge_id();
            assert_eq!(thrice, Some(h));
            let round = mesh.walker_from_halfedge(h).as_next().as_previous().halfedge_id();
            assert_eq!(round, Some(h));
        }
    }
}

#[test]
fn anchor_twin_targets_vertex_everywhere() {
    let mesh = cube();
    for v in mesh.vertex_iter() {
        let target = mesh.walker_from_vertex(v).as_twin().vertex_id();
        assert_eq!(target, Some(v));
    }
}

#[test]
fn vertex_halfedge_iter_lists_outgoing_halfedges() {
    let mesh = single_triangle();
    let vs = mesh.vertex_iter();
    for &v in &vs {
        let outgoing = mesh.vertex_halfedge_iter(v);
        // in a single triangle every vertex has one interior and one
        // boundary outgoing half-edge
        assert_eq!(outgoing.len(), 2);
        for h in outgoing {
            let origin = mesh.walker_from_halfedge(h).as_twin().vertex_id();
            assert_eq!(origin, Some(v));
        }
    }
}

#[test]
fn clone_is_independent() {
    let mut original = single_triangle();
    let copy = original.clone();
    assert_eq!(copy.no_vertices(), 3);
    assert_eq!(copy.no_halfedges(), 6);
    assert_eq!(copy.no_faces(), 1);
    // growing the original does not affect the copy
    original.create_vertex(tri_mesh::vec3(0, unit(), 0));
    assert_eq!(original.no_vertices(), 4);
    assert_eq!(copy.no_vertices(), 3);
}
