use nova_protocol::mesh::explode::{explode_mesh, ExplodeMesh, MAX_ITERATIONS};
use nova_protocol::mesh::fragments::explode_all;

// A "mesh" here is a size; splitting halves it, and a piece of size 1 cannot be split.
fn halve(n: u32) -> Option<(u32, u32)> {
    if n >= 2 {
        Some((n / 2, n - n / 2))
    } else {
        None
    }
}

#[test]
fn explode_mesh_default_request() {
    assert_eq!(ExplodeMesh::default().fragment_count, 4);
    assert_eq!(MAX_ITERATIONS, 10);
}

#[test]
fn explode_mesh_stops_at_the_first_round_with_enough_fragments() {
    assert_eq!(explode_mesh(16, 4, MAX_ITERATIONS, &halve), Some(vec![4, 4, 4, 4]));
    assert_eq!(explode_mesh(16, 2, MAX_ITERATIONS, &halve), Some(vec![8, 8]));
    assert_eq!(explode_mesh(16, 3, MAX_ITERATIONS, &halve), Some(vec![4, 4, 4, 4]));
}

#[test]
fn explode_mesh_drops_pieces_that_cannot_be_split() {
    // 3 -> (1, 2) -> only 2 splits again -> (1, 1)
    assert_eq!(explode_mesh(3, 3, MAX_ITERATIONS, &halve), None);
    assert_eq!(explode_mesh(3, 2, MAX_ITERATIONS, &halve), Some(vec![1, 2]));
}

#[test]
fn explode_mesh_fails_when_nothing_splits() {
    assert_eq!(explode_mesh(1, 4, MAX_ITERATIONS, &halve), None);
}

#[test]
fn explode_mesh_fails_when_rounds_run_out() {
    assert_eq!(explode_mesh(1024, 64, 2, &halve), None);
    assert_eq!(explode_mesh(1024, 64, 0, &halve), None);
    assert_eq!(explode_mesh(1024, 64, 6, &halve).map(|v| v.len()), Some(64));
}

#[test]
fn explode_mesh_with_no_fragments_wanted_succeeds_at_once() {
    assert_eq!(explode_mesh(1, 0, MAX_ITERATIONS, &halve), Some(vec![]));
    assert_eq!(explode_mesh(8, 0, MAX_ITERATIONS, &halve), Some(vec![4, 4]));
}

#[test]
fn explode_all_gathers_every_mesh_in_order() {
    let meshes = vec![1u32, 2, 3];
    let explode = |m: u32| Some(vec![m * 10, m * 10 + 1]);
    assert_eq!(explode_all(&meshes, &explode), Some(vec![10, 11, 20, 21, 30, 31]));
    assert_eq!(explode_all(&Vec::<u32>::new(), &explode), Some(vec![]));
}

#[test]
fn explode_all_keeps_nothing_when_one_mesh_fails() {
    let meshes = vec![1u32, 2, 3];
    let seen = std::cell::RefCell::new(Vec::new());
    let explode = |m: u32| {
        seen.borrow_mut().push(m);
        if m == 2 {
            None
        } else {
            Some(vec![m])
        }
    };
    assert_eq!(explode_all(&meshes, &explode), None);
    // the meshes after the failing one are not exploded
    assert_eq!(*seen.borrow(), vec![1, 2]);
}
