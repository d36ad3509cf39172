use nova_protocol::mesh::util::TriangleMeshBuilder;

#[test]
fn vertices_and_indices_flatten_the_triangles() {
    let mut b = TriangleMeshBuilder::<u8>::default();
    assert!(b.is_empty());
    b.add_triangle([1, 2, 3]);
    b.add_triangle([4, 5, 6]);
    assert!(!b.is_empty());
    let (vertices, indices) = b.vertices_and_indices();
    assert_eq!(vertices, vec![1, 2, 3, 4, 5, 6]);
    assert_eq!(indices, vec![0, 1, 2, 3, 4, 5]);
}

#[test]
fn vertices_and_indices_of_nothing() {
    let b = TriangleMeshBuilder::<u8>::default();
    let (vertices, indices) = b.vertices_and_indices();
    assert!(vertices.is_empty());
    assert!(indices.is_empty());
}

#[test]
fn fill_boundary_fans_pairs_to_the_center() {
    let mut b = TriangleMeshBuilder::<u8>::default();
    b.add_triangle([7, 7, 7]);
    b.fill_boundary(&[1, 2, 3, 4, 5, 6], 0);
    assert_eq!(b.triangles, vec![[7, 7, 7], [1, 2, 0], [3, 4, 0], [5, 6, 0]]);
}

#[test]
fn fill_boundary_ignores_short_boundaries() {
    let mut b = TriangleMeshBuilder::<u8>::default();
    b.fill_boundary(&[1, 2], 0);
    assert!(b.is_empty());
    b.fill_boundary(&[1], 0);
    assert!(b.is_empty());
    b.fill_boundary(&[], 0);
    assert!(b.is_empty());
}
