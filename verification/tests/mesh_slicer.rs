use nova_protocol::mesh::slicer::{
    indexed_triangle_list, lonely_index, mesh_slice, mesh_slice_parts, reversed, triangle_slice,
    TriangleSliceResult,
};

type V3 = [f32; 3];

fn sub(a: V3, b: V3) -> V3 {
    [a[0] - b[0], a[1] - b[1], a[2] - b[2]]
}

fn dot(a: V3, b: V3) -> f32 {
    a[0] * b[0] + a[1] * b[1] + a[2] * b[2]
}

fn add(a: V3, b: V3) -> V3 {
    [a[0] + b[0], a[1] + b[1], a[2] + b[2]]
}

fn scale(a: V3, t: f32) -> V3 {
    [a[0] * t, a[1] * t, a[2] * t]
}

fn edge_plane_intersection(a: V3, b: V3, plane_point: V3, plane_normal: V3) -> V3 {
    let ab = sub(b, a);
    let t = dot(sub(plane_point, a), plane_normal) / dot(ab, plane_normal);
    add(a, scale(ab, t))
}

#[test]
fn test_triangle_slice() {
    // Arrange
    let tri = [[0.0, 1.0, 0.0], [-1.0, -1.0, 0.0], [1.0, -1.0, 0.0]];
    let plane_point = [0.0, 0.0, 0.0];
    let plane_normal = [0.0, 1.0, 0.0];
    let side = move |v: V3| dot(plane_normal, sub(v, plane_point)) >= 0.0;
    let intersect = move |a: V3, b: V3| edge_plane_intersection(a, b, plane_point, plane_normal);

    // Act
    let (result, is_positive) = triangle_slice(tri, &side, &intersect);

    // Assert
    match result {
        TriangleSliceResult::Split(_, _, _) => assert!(true),
        _ => assert!(false, "Expected triangle to be split"),
    }
    assert!(is_positive, "Expected lonely vertex to be on positive side");
}

#[test]
fn triangle_slice_pieces_are_placed_around_the_lonely_vertex() {
    let tri = [[0.0, 1.0, 0.0], [-1.0, -1.0, 0.0], [1.0, -1.0, 0.0]];
    let side = |v: V3| v[1] >= 0.0;
    let intersect = |a: V3, b: V3| edge_plane_intersection(a, b, [0.0; 3], [0.0, 1.0, 0.0]);
    let (result, lonely_side) = triangle_slice(tri, &side, &intersect);
    assert!(lonely_side);
    match result {
        TriangleSliceResult::Split(single, t1, t2) => {
            // lonely vertex 0, first = vertex 2, second = vertex 1
            assert_eq!(single[0], [0.0, 1.0, 0.0]);
            assert_eq!(single[1], [-0.5, 0.0, 0.0]);
            assert_eq!(single[2], [0.5, 0.0, 0.0]);
            assert_eq!(t1, [[1.0, -1.0, 0.0], [0.5, 0.0, 0.0], [-1.0, -1.0, 0.0]]);
            assert_eq!(t2, [[-1.0, -1.0, 0.0], [0.5, 0.0, 0.0], [-0.5, 0.0, 0.0]]);
        }
        _ => panic!("expected a split"),
    }
}

#[test]
fn triangle_slice_keeps_whole_triangles() {
    let tri = [[0.0, 1.0, 0.0], [1.0, 2.0, 0.0], [2.0, 1.0, 0.0]];
    let side = |v: V3| v[1] >= 0.0;
    let intersect = |a: V3, _b: V3| a;
    match triangle_slice(tri, &side, &intersect) {
        (TriangleSliceResult::Single(t), true) => assert_eq!(t, tri),
        _ => panic!("expected a whole positive triangle"),
    }
    let below = [[0.0, -1.0, 0.0], [1.0, -2.0, 0.0], [2.0, -1.0, 0.0]];
    match triangle_slice(below, &side, &intersect) {
        (TriangleSliceResult::Single(t), false) => assert_eq!(t, below),
        _ => panic!("expected a whole negative triangle"),
    }
}

#[test]
fn lonely_index_finds_the_odd_vertex() {
    assert_eq!(lonely_index([true, true, true]), None);
    assert_eq!(lonely_index([false, false, false]), None);
    assert_eq!(lonely_index([true, false, false]), Some(0));
    assert_eq!(lonely_index([false, true, false]), Some(1));
    assert_eq!(lonely_index([false, false, true]), Some(2));
    assert_eq!(lonely_index([false, true, true]), Some(0));
    assert_eq!(lonely_index([true, false, true]), Some(1));
    assert_eq!(lonely_index([true, true, false]), Some(2));
}

#[test]
fn indexed_triangle_list_reads_three_indices_per_triangle() {
    let positions = vec![10u8, 11, 12, 13];
    let indices = vec![0u32, 1, 2, 2, 3, 0];
    let tris = indexed_triangle_list(&positions, &indices);
    assert_eq!(tris, vec![[10, 11, 12], [12, 13, 10]]);
}

#[test]
fn reversed_reverses() {
    assert_eq!(reversed(&vec![1, 2, 3, 4]), vec![4, 3, 2, 1]);
    assert_eq!(reversed(&Vec::<u8>::new()), Vec::<u8>::new());
}

fn quad() -> (Vec<V3>, Vec<u32>) {
    // a unit square in the XY plane, centred at the origin
    let positions = vec![
        [-1.0, -1.0, 0.0],
        [1.0, -1.0, 0.0],
        [1.0, 1.0, 0.0],
        [-1.0, 1.0, 0.0],
    ];
    let indices = vec![0, 1, 2, 0, 2, 3];
    (positions, indices)
}

fn average(points: &Vec<V3>) -> V3 {
    let mut sum = [0.0f32; 3];
    for p in points {
        sum = add(sum, *p);
    }
    scale(sum, 1.0 / points.len() as f32)
}

#[test]
fn mesh_slice_parts_cuts_both_triangles_of_a_quad() {
    let (positions, indices) = quad();
    let normal = [1.0, 0.0, 0.0];
    let point = [0.25, 0.0, 0.0];
    let side = move |v: V3| dot(normal, sub(v, point)) >= 0.0;
    let intersect = move |a: V3, b: V3| edge_plane_intersection(a, b, point, normal);
    let (pos, neg, boundary) = mesh_slice_parts(&positions, &indices, &side, &intersect);
    // both triangles are cut: one piece on the lonely side, two on the other
    assert_eq!(pos.triangles.len() + neg.triangles.len(), 6);
    assert_eq!(boundary.len(), 4);
    for v in &boundary {
        assert!((v[0] - 0.25).abs() < 1e-6);
    }
}

#[test]
fn mesh_slice_cuts_a_quad_in_two() {
    let (positions, indices) = quad();
    let normal = [1.0, 0.0, 0.0];
    let point = [0.25, 0.0, 0.0];
    let side = move |v: V3| dot(normal, sub(v, point)) >= 0.0;
    let intersect = move |a: V3, b: V3| edge_plane_intersection(a, b, point, normal);
    let (pos, neg, boundary) = mesh_slice_parts(&positions, &indices, &side, &intersect);
    let (p, n) = mesh_slice(&positions, &indices, &side, &intersect, &average)
        .expect("the plane crosses the quad");
    // each side is closed with a fan of one triangle per pair of boundary points
    assert_eq!(p.triangles.len(), pos.triangles.len() + 2);
    assert_eq!(n.triangles.len(), neg.triangles.len() + 2);
    for t in &p.triangles {
        for v in t {
            assert!(v[0] >= 0.25 - 1e-6);
        }
    }
    for t in &n.triangles {
        for v in t {
            assert!(v[0] <= 0.25 + 1e-6);
        }
    }
    // the fan on the negative side runs over the reversed boundary
    let center = average(&boundary);
    let back = reversed(&boundary);
    assert_eq!(n.triangles[n.triangles.len() - 2], [back[0], back[1], average(&back)]);
    assert_eq!(p.triangles[p.triangles.len() - 2], [boundary[0], boundary[1], center]);
    assert!((center[0] - 0.25).abs() < 1e-6);
}

#[test]
fn mesh_slice_fails_when_the_plane_misses() {
    let (positions, indices) = quad();
    let side = |v: V3| v[0] >= -5.0;
    let intersect = |a: V3, _b: V3| a;
    let (pos, neg, boundary) = mesh_slice_parts(&positions, &indices, &side, &intersect);
    assert_eq!(pos.triangles.len(), 2);
    assert!(neg.is_empty());
    assert!(boundary.is_empty());
    assert!(mesh_slice(&positions, &indices, &side, &intersect, &average).is_none());
    let below = |v: V3| v[0] >= 5.0;
    assert!(mesh_slice(&positions, &indices, &below, &intersect, &average).is_none());
}
