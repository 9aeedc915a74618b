//! End-to-end tests of the icosphere generator: the symbolic mesh is
//! evaluated into floating-point positions here, exactly as an embedding
//! renderer would, and the geometric properties are checked numerically.

use std::collections::HashMap;
use std::collections::HashSet;

use icosphere::sphere_mesh::base_vertex_direction;
use icosphere::sphere_mesh::Edge;
use icosphere::sphere_mesh::Mesh;
use icosphere::sphere_mesh::SphereMesh;
use icosphere::sphere_mesh::SphereMeshComponent;
use icosphere::sphere_mesh::Vertex;

fn generate(resolution: usize) -> Mesh {
    let mut sphere_mesh = SphereMesh::default();
    sphere_mesh.generate_mesh(resolution);
    sphere_mesh.build_mesh()
}

fn slerp(a: [f32; 3], b: [f32; 3], t: f32) -> [f32; 3] {
    let dot = (a[0] * b[0] + a[1] * b[1] + a[2] * b[2]).min(1.0).max(-1.0);
    let theta = dot.acos() * t;
    let mut v2 = [b[0] - a[0] * dot, b[1] - a[1] * dot, b[2] - a[2] * dot];
    let norm = (v2[0] * v2[0] + v2[1] * v2[1] + v2[2] * v2[2]).sqrt();
    v2 = [v2[0] / norm, v2[1] / norm, v2[2] / norm];
    let (s, c) = theta.sin_cos();
    [a[0] * c + v2[0] * s, a[1] * c + v2[1] * s, a[2] * c + v2[2] * s]
}

/// Resolves the symbolic vertex buffer into floating-point positions; every
/// interpolated vertex refers only to earlier vertices, so one forward pass
/// suffices.
fn eval_positions(buffer: &[Vertex]) -> Vec<[f32; 3]> {
    let mut out: Vec<[f32; 3]> = Vec::new();
    for v in buffer {
        match *v {
            Vertex::Base { index } => {
                let (x, y, z) = base_vertex_direction(index);
                out.push([x as f32, y as f32, z as f32]);
            }
            Vertex::Slerp { start, end, num, den } => {
                let t = num as f32 / den as f32;
                let p = slerp(out[start], out[end], t);
                out.push(p);
            }
        }
    }
    out
}

fn expected_vertex_count(r: usize) -> usize {
    let per_face = ((r + 3) * (r + 3) - (r + 3)) / 2;
    8 * per_face - 12 * (r + 2) + 6
}

fn expected_triangle_count(r: usize) -> usize {
    8 * (r + 1) * (r + 1)
}

#[test]
fn counts_match_formula_for_small_resolutions() {
    for r in 0..7 {
        let mesh = generate(r);
        assert_eq!(mesh.positions.len(), expected_vertex_count(r));
        assert_eq!(mesh.normals.len(), expected_vertex_count(r));
        assert_eq!(mesh.indices.len(), 3 * expected_triangle_count(r));
    }
}

#[test]
fn positions_lie_on_unit_sphere() {
    for r in 0..6 {
        let mesh = generate(r);
        let positions = eval_positions(&mesh.positions);
        for p in &positions {
            let len = (p[0] * p[0] + p[1] * p[1] + p[2] * p[2]).sqrt();
            assert!((len - 1.0).abs() < 1e-5);
        }
    }
}

#[test]
fn no_duplicate_vertices_across_shared_edges() {
    for r in 0..5 {
        let mesh = generate(r);
        // Every vertex id is referenced by some triangle, so the distinct
        // ids equal the vertex count: shared edges reuse ids.
        let referenced: HashSet<u32> = mesh.indices.iter().copied().collect();
        assert_eq!(referenced.len(), mesh.positions.len());
        // And no two vertex ids evaluate to the same point in space.
        let positions = eval_positions(&mesh.positions);
        for i in 0..positions.len() {
            for j in (i + 1)..positions.len() {
                let d = [
                    positions[i][0] - positions[j][0],
                    positions[i][1] - positions[j][1],
                    positions[i][2] - positions[j][2],
                ];
                let dist = (d[0] * d[0] + d[1] * d[1] + d[2] * d[2]).sqrt();
                assert!(dist > 1e-4);
            }
        }
    }
}

#[test]
fn indices_are_in_range() {
    for r in 0..6 {
        let mesh = generate(r);
        let n = mesh.positions.len() as u32;
        for &i in &mesh.indices {
            assert!(i < n);
        }
    }
}

#[test]
fn mesh_is_watertight() {
    // Every undirected edge of every triangle is shared by exactly one
    // other triangle: the mesh is a closed 2-manifold.
    for r in 0..5 {
        let mesh = generate(r);
        let mut edge_uses: HashMap<(u32, u32), u32> = HashMap::new();
        for tri in mesh.indices.chunks(3) {
            let corners = [(tri[0], tri[1]), (tri[1], tri[2]), (tri[2], tri[0])];
            for &(a, b) in &corners {
                let key = if a < b { (a, b) } else { (b, a) };
                *edge_uses.entry(key).or_insert(0) += 1;
            }
        }
        for (_, count) in &edge_uses {
            assert_eq!(*count, 2);
        }
    }
}

#[test]
fn winding_is_outward() {
    // The signed volume of every triangle against the origin is positive.
    for r in 0..5 {
        let mesh = generate(r);
        let positions = eval_positions(&mesh.positions);
        for tri in mesh.indices.chunks(3) {
            let v0 = positions[tri[0] as usize];
            let v1 = positions[tri[1] as usize];
            let v2 = positions[tri[2] as usize];
            let cross = [
                v1[1] * v2[2] - v1[2] * v2[1],
                v1[2] * v2[0] - v1[0] * v2[2],
                v1[0] * v2[1] - v1[1] * v2[0],
            ];
            let volume = v0[0] * cross[0] + v0[1] * cross[1] + v0[2] * cross[2];
            assert!(volume > 0.0);
        }
    }
}

#[test]
fn resolution_zero_is_bipyramid() {
    let mesh = generate(0);
    assert_eq!(mesh.positions.len(), 6);
    assert_eq!(mesh.indices.len(), 24);
    for (i, v) in mesh.positions.iter().enumerate() {
        assert_eq!(*v, Vertex::Base { index: i });
    }
    let expected: Vec<u32> = vec![
        0, 2, 1, 0, 3, 2, 0, 4, 3, 0, 1, 4, 5, 1, 2, 5, 2, 3, 5, 3, 4, 5, 4, 1,
    ];
    assert_eq!(mesh.indices, expected);
    let positions = eval_positions(&mesh.positions);
    assert_eq!(positions[0], [0.0, 1.0, 0.0]);
    assert_eq!(positions[1], [-1.0, 0.0, 0.0]);
    assert_eq!(positions[2], [0.0, 0.0, -1.0]);
    assert_eq!(positions[3], [1.0, 0.0, 0.0]);
    assert_eq!(positions[4], [0.0, 0.0, 1.0]);
    assert_eq!(positions[5], [0.0, -1.0, 0.0]);
}

#[test]
fn resolution_one_counts() {
    let mesh = generate(1);
    assert_eq!(mesh.positions.len(), 18);
    assert_eq!(mesh.indices.len(), 3 * 32);
}

#[test]
fn regeneration_is_idempotent() {
    for r in 0..5 {
        let first = generate(r);
        let second = generate(r);
        assert_eq!(first.positions, second.positions);
        assert_eq!(first.normals, second.normals);
        assert_eq!(first.indices, second.indices);
        let p1 = eval_positions(&first.positions);
        let p2 = eval_positions(&second.positions);
        assert_eq!(p1, p2);
    }
}

#[test]
fn normals_equal_positions() {
    for r in 0..4 {
        let mesh = generate(r);
        assert_eq!(mesh.normals, mesh.positions);
    }
}

#[test]
fn default_resolution_is_four() {
    let component = SphereMeshComponent::default();
    assert_eq!(component.resolution, 4);
}

#[test]
fn edge_construction_keeps_indices() {
    let edge = Edge::new(vec![3, 7, 11]);
    assert_eq!(edge.vertex_indices, vec![3, 7, 11]);
    let empty = Edge::default();
    assert!(empty.vertex_indices.is_empty());
}

#[test]
fn interpolated_vertices_reference_earlier_ones() {
    let mesh = generate(3);
    for (i, v) in mesh.positions.iter().enumerate() {
        match *v {
            Vertex::Base { index } => {
                assert_eq!(index, i);
                assert!(i < 6);
            }
            Vertex::Slerp { start, end, num, den } => {
                assert!(start < i);
                assert!(end < i);
                assert!(0 < num && num < den);
            }
        }
    }
}
