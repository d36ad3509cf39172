use nova_protocol::mesh::sphere::{octahedron_sphere, subdivide_face};
use nova_protocol::mesh::util::TriangleMeshBuilder;

type V3 = [f32; 3];

fn normalized_mid(a: V3, b: V3) -> V3 {
    let m = [(a[0] + b[0]) / 2.0, (a[1] + b[1]) / 2.0, (a[2] + b[2]) / 2.0];
    let len = (m[0] * m[0] + m[1] * m[1] + m[2] * m[2]).sqrt();
    [m[0] / len, m[1] / len, m[2] / len]
}

const UP: V3 = [0.0, 1.0, 0.0];
const DOWN: V3 = [0.0, -1.0, 0.0];
const LEFT: V3 = [-1.0, 0.0, 0.0];
const RIGHT: V3 = [1.0, 0.0, 0.0];
const FORWARD: V3 = [0.0, 0.0, 1.0];
const BACK: V3 = [0.0, 0.0, -1.0];

#[test]
fn octahedron_at_resolution_zero_is_the_eight_faces() {
    let b = octahedron_sphere(0, UP, DOWN, LEFT, RIGHT, FORWARD, BACK, &normalized_mid);
    assert_eq!(
        b.triangles,
        vec![
            [UP, BACK, LEFT],
            [UP, RIGHT, BACK],
            [UP, FORWARD, RIGHT],
            [UP, LEFT, FORWARD],
            [DOWN, LEFT, BACK],
            [DOWN, BACK, RIGHT],
            [DOWN, RIGHT, FORWARD],
            [DOWN, FORWARD, LEFT],
        ]
    );
}

#[test]
fn octahedron_triangle_counts_grow_fourfold() {
    for (resolution, expected) in [(1u32, 32usize), (2, 128), (3, 512)] {
        let b = octahedron_sphere(resolution, UP, DOWN, LEFT, RIGHT, FORWARD, BACK, &normalized_mid);
        assert_eq!(b.triangles.len(), expected);
        for t in &b.triangles {
            for v in t {
                let len = (v[0] * v[0] + v[1] * v[1] + v[2] * v[2]).sqrt();
                assert!((len - 1.0).abs() < 1e-5);
            }
        }
    }
}

#[test]
fn subdivide_face_once_gives_the_four_children_in_order() {
    let mid = |a: u32, b: u32| a * 10 + b;
    let mut b = TriangleMeshBuilder::<u32>::default();
    subdivide_face(&mut b, 1, 2, 3, 1, &mid);
    // ab = 12, bc = 23, ca = 31
    assert_eq!(b.triangles, vec![[1, 12, 31], [2, 23, 12], [3, 31, 23], [12, 23, 31]]);
}

#[test]
fn subdivide_face_keeps_earlier_triangles() {
    let mid = |a: u32, b: u32| a + b;
    let mut b = TriangleMeshBuilder::<u32>::default();
    b.add_triangle([9, 9, 9]);
    subdivide_face(&mut b, 1, 2, 4, 2, &mid);
    assert_eq!(b.triangles.len(), 1 + 16);
    assert_eq!(b.triangles[0], [9, 9, 9]);
    // first grandchild: subdivision of (1, 3, 5) at depth 1 starts with (1, 4, 6)
    assert_eq!(b.triangles[1], [1, 4, 6]);
}
