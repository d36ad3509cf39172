//! Slicing a triangle mesh along a plane.
//!
//! Which side of the plane a vertex lies on, and where an edge crosses the plane,
//! are computed by the caller's `side` and `intersect` functions; this module decides
//! how each triangle is split and how the pieces and the cut boundary are gathered.
use vstd::prelude::*;

use super::util::{boundary_fan, TriangleMeshBuilder};

verus! {

/// How a triangle lies with respect to the plane.
pub enum TriangleSliceResult<V> {
    /// The triangle lies wholly on one side.
    Single([V; 3]),
    /// The triangle is cut: the triangle on the side of the lonely vertex, then two
    /// triangles on the other side.
    Split([V; 3], [V; 3], [V; 3]),
}

/// The triangles that the index list draws, three indices per triangle.
pub open spec fn indexed_triangles<V>(positions: Seq<V>, indices: Seq<u32>) -> Seq<[V; 3]> {
    Seq::new(
        indices.len() / 3,
        |t: int|
            [
                positions[indices[3 * t] as int],
                positions[indices[3 * t + 1] as int],
                positions[indices[3 * t + 2] as int],
            ],
    )
}

/// The vertex `lonely`, alone on its side, and the two others, `first` and `second`,
/// in the order the slicer walks them when vertex `k` is the lonely one.
pub open spec fn arrangement<V>(tri: [V; 3], k: int) -> (V, V, V) {
    if k == 0 {
        (tri[0], tri[2], tri[1])
    } else if k == 1 {
        (tri[1], tri[0], tri[2])
    } else {
        (tri[2], tri[1], tri[0])
    }
}

/// `single`, `t1` and `t2` are the pieces of `tri` cut with vertex `k` alone on the
/// side `lonely_side`: the side and crossing points are those that `side` and
/// `intersect` gave.
pub open spec fn split_at<V, S: Fn(V) -> bool, I: Fn(V, V) -> V>(
    tri: [V; 3],
    k: int,
    lonely_side: bool,
    single: [V; 3],
    t1: [V; 3],
    t2: [V; 3],
    side: S,
    intersect: I,
) -> bool {
    let (lonely, first, second) = arrangement(tri, k);
    &&& side.ensures((lonely,), lonely_side)
    &&& side.ensures((first,), !lonely_side)
    &&& side.ensures((second,), !lonely_side)
    &&& intersect.ensures((lonely, first), single[2])
    &&& intersect.ensures((lonely, second), single[1])
    &&& single[0] == lonely
    &&& t1[0] == first && t1[1] == single[2] && t1[2] == second
    &&& t2[0] == second && t2[1] == single[2] && t2[2] == single[1]
}

/// `r` is how `triangle_slice` answers for `tri`: a whole triangle with the side all
/// its vertices lie on, or the pieces of a cut with the lonely vertex's side.
pub open spec fn slice_of<V, S: Fn(V) -> bool, I: Fn(V, V) -> V>(
    tri: [V; 3],
    r: (TriangleSliceResult<V>, bool),
    side: S,
    intersect: I,
) -> bool {
    match r.0 {
        TriangleSliceResult::Single(t) => {
            &&& t == tri
            &&& side.ensures((tri[0],), r.1)
            &&& side.ensures((tri[1],), r.1)
            &&& side.ensures((tri[2],), r.1)
        },
        TriangleSliceResult::Split(single, t1, t2) => {
            ||| split_at(tri, 0, r.1, single, t1, t2, side, intersect)
            ||| split_at(tri, 1, r.1, single, t1, t2, side, intersect)
            ||| split_at(tri, 2, r.1, single, t1, t2, side, intersect)
        },
    }
}

/// The index of the vertex whose side differs from both others, if the sides differ.
pub fn lonely_index(sides: [bool; 3]) -> (r: Option<usize>)
    ensures
        r is None <==> (sides[0] == sides[1] && sides[1] == sides[2]),
        r matches Some(k) ==> k < 3 && sides[k as int] != sides[((k + 1) % 3) as int]
            && sides[k as int] != sides[((k + 2) % 3) as int],
{
    if sides[0] && sides[1] && sides[2] {
        None
    } else if !sides[0] && !sides[1] && !sides[2] {
        None
    } else if sides[0] == sides[1] {
        Some(2)
    } else if sides[0] == sides[2] {
        Some(1)
    } else {
        Some(0)
    }
}

/// Slices one triangle: whole when all its vertices are on one side of the plane,
/// otherwise cut into the triangle on the lonely vertex's side and two triangles on
/// the other side. The flag is the side of the whole triangle or of the lonely vertex.
pub fn triangle_slice<V: Copy, S: Fn(V) -> bool, I: Fn(V, V) -> V>(
    tri: [V; 3],
    side: &S,
    intersect: &I,
) -> (r: (TriangleSliceResult<V>, bool))
    requires
        forall|v: V| #[trigger] side.requires((v,)),
        forall|a: V, b: V| #[trigger] intersect.requires((a, b)),
    ensures
        slice_of(tri, r, *side, *intersect),
{
    let s0 = side(tri[0]);
    let s1 = side(tri[1]);
    let s2 = side(tri[2]);
    let sides = [s0, s1, s2];
    match lonely_index(sides) {
        None => (TriangleSliceResult::Single(tri), s0),
        Some(k) => {
            let (lonely, first, second) = if k == 0 {
                (tri[0], tri[2], tri[1])
            } else if k == 1 {
                (tri[1], tri[0], tri[2])
            } else {
                (tri[2], tri[1], tri[0])
            };
            let lonely_side = sides[k];
            let first_int = intersect(lonely, first);
            let second_int = intersect(lonely, second);
            let single = [lonely, second_int, first_int];
            let t1 = [first, first_int, second];
            let t2 = [second, first_int, second_int];
            proof {
                assert(split_at(tri, k as int, lonely_side, single, t1, t2, *side, *intersect));
            }
            (TriangleSliceResult::Split(single, t1, t2), lonely_side)
        },
    }
}

/// The triangles on the positive side, the triangles on the negative side and the
/// points of the cut boundary (two per cut triangle) that the slice results give,
/// gathered in order.
pub open spec fn sliced_into<V>(results: Seq<(TriangleSliceResult<V>, bool)>) -> (
    Seq<[V; 3]>,
    Seq<[V; 3]>,
    Seq<V>,
)
    decreases results.len(),
{
    if results.len() == 0 {
        (Seq::empty(), Seq::empty(), Seq::empty())
    } else {
        let (p, n, b) = sliced_into(results.drop_last());
        match results.last() {
            (TriangleSliceResult::Single(t), true) => (p.push(t), n, b),
            (TriangleSliceResult::Single(t), false) => (p, n.push(t), b),
            (TriangleSliceResult::Split(single, t1, t2), true) => (
                p.push(single),
                n.push(t1).push(t2),
                b.push(single[2]).push(single[1]),
            ),
            (TriangleSliceResult::Split(single, t1, t2), false) => (
                p.push(t1).push(t2),
                n.push(single),
                b.push(single[1]).push(single[2]),
            ),
        }
    }
}

/// `results` holds, for each triangle, how `triangle_slice` answers for it.
pub open spec fn slices_of<V, S: Fn(V) -> bool, I: Fn(V, V) -> V>(
    triangles: Seq<[V; 3]>,
    results: Seq<(TriangleSliceResult<V>, bool)>,
    side: S,
    intersect: I,
) -> bool {
    &&& results.len() == triangles.len()
    &&& forall|i: int| 0 <= i < triangles.len() ==> slice_of(triangles[i], results[i], side, intersect)
}

/// The triangles that an index list draws, three indices per triangle.
pub fn indexed_triangle_list<V: Copy>(positions: &Vec<V>, indices: &Vec<u32>) -> (r: Vec<[V; 3]>)
    requires
        indices@.len() % 3 == 0,
        forall|i: int| 0 <= i < indices@.len() ==> #[trigger] indices@[i] < positions@.len(),
    ensures
        r@ == indexed_triangles(positions@, indices@),
{
    let len = indices.len();
    let n = len / 3;
    assert(indices@.len() == 3 * n) by (nonlinear_arith)
        requires
            n == indices@.len() / 3,
            indices@.len() % 3 == 0,
    ;
    let mut r: Vec<[V; 3]> = Vec::new();
    let mut t: usize = 0;
    while t < n
        invariant
            n == indices@.len() / 3,
            len == indices@.len(),
            indices@.len() == 3 * n,
            indices@.len() % 3 == 0,
            forall|i: int| 0 <= i < indices@.len() ==> #[trigger] indices@[i] < positions@.len(),
            0 <= t <= n,
            r@ == indexed_triangles(positions@, indices@).take(t as int),
        decreases n - t,
    {
        let i0 = indices[3 * t];
        let i1 = indices[3 * t + 1];
        let i2 = indices[3 * t + 2];
        let tri = [positions[i0 as usize], positions[i1 as usize], positions[i2 as usize]];
        r.push(tri);
        proof {
            assert(r@ =~= indexed_triangles(positions@, indices@).take(t + 1));
        }
        t = t + 1;
    }
    assert(indexed_triangles(positions@, indices@).take(n as int) =~= indexed_triangles(
        positions@,
        indices@,
    ));
    r
}

/// Slices the triangles that the index list draws along a plane: returns the builder
/// of the positive side, the builder of the negative side, and the points of the cut
/// boundary, two for each cut triangle.
pub fn mesh_slice_parts<V: Copy, S: Fn(V) -> bool, I: Fn(V, V) -> V>(
    positions: &Vec<V>,
    indices: &Vec<u32>,
    side: &S,
    intersect: &I,
) -> (r: (TriangleMeshBuilder<V>, TriangleMeshBuilder<V>, Vec<V>))
    requires
        indices@.len() % 3 == 0,
        forall|i: int| 0 <= i < indices@.len() ==> #[trigger] indices@[i] < positions@.len(),
        forall|v: V| #[trigger] side.requires((v,)),
        forall|a: V, b: V| #[trigger] intersect.requires((a, b)),
    ensures
        exists|results: Seq<(TriangleSliceResult<V>, bool)>|
            #[trigger] slices_of(indexed_triangles(positions@, indices@), results, *side, *intersect)
                && (r.0.triangles@, r.1.triangles@, r.2@) == sliced_into(results)
                && r.0.triangles@.to_multiset() == all_pieces_on(results, true).to_multiset()
                && r.1.triangles@.to_multiset() == all_pieces_on(results, false).to_multiset(),
        r.2@.len() % 2 == 0,
{
    let triangles = indexed_triangle_list(positions, indices);
    let mut positive = TriangleMeshBuilder { triangles: Vec::new() };
    let mut negative = TriangleMeshBuilder { triangles: Vec::new() };
    let mut boundary: Vec<V> = Vec::new();
    let ghost mut results: Seq<(TriangleSliceResult<V>, bool)> = Seq::empty();
    let n = triangles.len();
    let mut i: usize = 0;
    while i < n
        invariant
            n == triangles@.len(),
            0 <= i <= n,
            forall|v: V| #[trigger] side.requires((v,)),
            forall|a: V, b: V| #[trigger] intersect.requires((a, b)),
            slices_of(triangles@.take(i as int), results, *side, *intersect),
            (positive.triangles@, negative.triangles@, boundary@) == sliced_into(results),
            boundary@.len() % 2 == 0,
        decreases n - i,
    {
        let outcome = triangle_slice(triangles[i], side, intersect);
        let ghost before = results;
        proof {
            results = results.push(outcome);
            assert(results.drop_last() =~= before);
            assert(results.last() == outcome);
        }
        match outcome {
            (TriangleSliceResult::Single(t), true) => {
                positive.triangles.push(t);
            },
            (TriangleSliceResult::Single(t), false) => {
                negative.triangles.push(t);
            },
            (TriangleSliceResult::Split(single, t1, t2), true) => {
                boundary.push(single[2]);
                boundary.push(single[1]);
                positive.triangles.push(single);
                negative.triangles.push(t1);
                negative.triangles.push(t2);
            },
            (TriangleSliceResult::Split(single, t1, t2), false) => {
                boundary.push(single[1]);
                boundary.push(single[2]);
                negative.triangles.push(single);
                positive.triangles.push(t1);
                positive.triangles.push(t2);
            },
        }
        proof {
            assert(triangles@.take(i + 1).drop_last() =~= triangles@.take(i as int));
            assert forall|k: int| 0 <= k < i + 1 implies slice_of(
                triangles@.take(i + 1)[k],
                results[k],
                *side,
                *intersect,
            ) by {
                if k < i {
                    assert(triangles@.take(i + 1)[k] == triangles@.take(i as int)[k]);
                    assert(results[k] == results.drop_last()[k]);
                }
            }
        }
        i = i + 1;
    }
    assert(triangles@.take(n as int) =~= triangles@);
    proof {
        lemma_sides_hold_their_pieces(results);
    }
    (positive, negative, boundary)
}

/// The boundary in reverse order.
pub fn reversed<V: Copy>(boundary: &Vec<V>) -> (r: Vec<V>)
    ensures
        r@ == boundary@.reverse(),
{
    let n = boundary.len();
    let mut r: Vec<V> = Vec::new();
    let mut i: usize = n;
    while i > 0
        invariant
            n == boundary@.len(),
            0 <= i <= n,
            r@ =~= boundary@.subrange(i as int, n as int).reverse(),
        decreases i,
    {
        i = i - 1;
        r.push(boundary[i]);
        proof {
            assert(r@ =~= boundary@.subrange(i as int, n as int).reverse());
        }
    }
    assert(boundary@.subrange(0, n as int) =~= boundary@);
    r
}

/// `result` is the triangles `parts` after the cut along `boundary` is closed as
/// `fill_boundary` closes it, from a centre that `center` gave for the boundary;
/// unchanged when the boundary has fewer than three points.
pub open spec fn closed_cut<V, C: Fn(&Vec<V>) -> V>(
    parts: Seq<[V; 3]>,
    boundary: Vec<V>,
    center: C,
    result: Seq<[V; 3]>,
) -> bool {
    if boundary@.len() < 3 {
        result == parts
    } else {
        exists|c: V| #[trigger] center.ensures((&boundary,), c) && result == parts + boundary_fan(boundary@, c)
    }
}

/// `r` is how `mesh_slice` answers for the triangles `tris`: with `results` the slice
/// of each triangle, `boundary` the cut boundary and `back` the same reversed, `pos`
/// and `neg` are the two sides once their cuts are closed, and the slice fails exactly
/// when either side is empty.
pub open spec fn mesh_sliced<V, S: Fn(V) -> bool, I: Fn(V, V) -> V, C: Fn(&Vec<V>) -> V>(
    tris: Seq<[V; 3]>,
    side: S,
    intersect: I,
    center: C,
    r: Option<(TriangleMeshBuilder<V>, TriangleMeshBuilder<V>)>,
    results: Seq<(TriangleSliceResult<V>, bool)>,
    boundary: Vec<V>,
    back: Vec<V>,
    pos: Seq<[V; 3]>,
    neg: Seq<[V; 3]>,
) -> bool {
    let (p, n, b) = sliced_into(results);
    &&& slices_of(tris, results, side, intersect)
    &&& boundary@ == b
    &&& back@ == b.reverse()
    &&& closed_cut(p, boundary, center, pos)
    &&& closed_cut(n, back, center, neg)
    &&& (r is None <==> (pos.len() == 0 || neg.len() == 0))
    &&& (r matches Some((pb, nb)) ==> pb.triangles@ == pos && nb.triangles@ == neg)
}

/// Slices a mesh along a plane: the triangles that the index list draws are sliced
/// one by one; the cut is closed on the positive side with a fan over the boundary,
/// and on the negative side with a fan over the reversed boundary, each from the
/// centre that `center` gives. Returns the two sides, or `None` when either is empty.
pub fn mesh_slice<V: Copy, S: Fn(V) -> bool, I: Fn(V, V) -> V, C: Fn(&Vec<V>) -> V>(
    positions: &Vec<V>,
    indices: &Vec<u32>,
    side: &S,
    intersect: &I,
    center: &C,
) -> (r: Option<(TriangleMeshBuilder<V>, TriangleMeshBuilder<V>)>)
    requires
        indices@.len() % 3 == 0,
        forall|i: int| 0 <= i < indices@.len() ==> #[trigger] indices@[i] < positions@.len(),
        forall|v: V| #[trigger] side.requires((v,)),
        forall|a: V, b: V| #[trigger] intersect.requires((a, b)),
        forall|b: &Vec<V>| #[trigger] center.requires((b,)),
    ensures
        exists|
            results: Seq<(TriangleSliceResult<V>, bool)>,
            boundary: Vec<V>,
            back: Vec<V>,
            pos: Seq<[V; 3]>,
            neg: Seq<[V; 3]>,
        |
            #[trigger] mesh_sliced(
                indexed_triangles(positions@, indices@),
                *side,
                *intersect,
                *center,
                r,
                results,
                boundary,
                back,
                pos,
                neg,
            ),
{
    let (mut positive, mut negative, boundary) = mesh_slice_parts(positions, indices, side, intersect);
    let ghost tris = indexed_triangles(positions@, indices@);
    let ghost results = choose|results: Seq<(TriangleSliceResult<V>, bool)>|
        #[trigger] slices_of(tris, results, *side, *intersect)
            && (positive.triangles@, negative.triangles@, boundary@) == sliced_into(results);
    let ghost p = positive.triangles@;
    let ghost n = negative.triangles@;
    let back = reversed(&boundary);
    if boundary.len() >= 3 {
        let positive_center = center(&boundary);
        positive.fill_boundary(boundary.as_slice(), positive_center);
        let negative_center = center(&back);
        negative.fill_boundary(back.as_slice(), negative_center);
        proof {
            assert(center.ensures((&boundary,), positive_center));
            assert(center.ensures((&back,), negative_center));
        }
    }
    let r = if positive.is_empty() || negative.is_empty() {
        None
    } else {
        Some((positive, negative))
    };
    proof {
        assert(mesh_sliced(
            tris,
            *side,
            *intersect,
            *center,
            r,
            results,
            boundary,
            back,
            positive.triangles@,
            negative.triangles@,
        ));
    }
    r
}

/// Slicing keeps every uncut triangle and turns each cut one into three, adding two
/// boundary points: the two sides hold as many triangles as there were, plus as many
/// as there are boundary points.
pub proof fn lemma_slice_counts<V>(results: Seq<(TriangleSliceResult<V>, bool)>)
    ensures
        ({
            let (p, n, b) = sliced_into(results);
            &&& p.len() + n.len() == results.len() + b.len()
            &&& b.len() % 2 == 0
        }),
    decreases results.len(),
{
    if results.len() > 0 {
        lemma_slice_counts(results.drop_last());
    }
}

/// A plane that leaves every triangle whole on one side does not slice the mesh: no
/// boundary is cut, so neither side gets a closing fan, and the other side stays
/// empty; the slice fails.
pub proof fn lemma_uncut_mesh_is_not_sliced<V, C: Fn(&Vec<V>) -> V>(
    results: Seq<(TriangleSliceResult<V>, bool)>,
    on_side: bool,
    boundary: Vec<V>,
    back: Vec<V>,
    center: C,
    pos: Seq<[V; 3]>,
    neg: Seq<[V; 3]>,
)
    requires
        forall|i: int| 0 <= i < results.len() ==> (#[trigger] results[i]).0 is Single
            && results[i].1 == on_side,
        boundary@ == sliced_into(results).2,
        back@ == boundary@.reverse(),
        closed_cut(sliced_into(results).0, boundary, center, pos),
        closed_cut(sliced_into(results).1, back, center, neg),
    ensures
        boundary@.len() == 0,
        pos.len() == 0 || neg.len() == 0,
{
    lemma_whole_triangles_cut_nothing(results, on_side);
}

proof fn lemma_whole_triangles_cut_nothing<V>(
    results: Seq<(TriangleSliceResult<V>, bool)>,
    on_side: bool,
)
    requires
        forall|i: int| 0 <= i < results.len() ==> (#[trigger] results[i]).0 is Single
            && results[i].1 == on_side,
    ensures
        ({
            let (p, n, b) = sliced_into(results);
            &&& b.len() == 0
            &&& on_side ==> n.len() == 0
            &&& !on_side ==> p.len() == 0
        }),
    decreases results.len(),
{
    if results.len() > 0 {
        assert forall|i: int| 0 <= i < results.drop_last().len() implies (#[trigger] results.drop_last()[i]).0 is Single
            && results.drop_last()[i].1 == on_side by {
            assert(results.drop_last()[i] == results[i]);
        }
        lemma_whole_triangles_cut_nothing(results.drop_last(), on_side);
        assert(results.last() == results[results.len() - 1]);
    }
}

/// The pieces that the slice result `r` of one triangle puts on the positive side
/// (`positive`) or on the negative side: a whole triangle goes to the side its
/// vertices lie on; of a cut triangle, the piece around the lonely vertex goes to
/// that vertex's side and both other pieces go to the other side.
pub open spec fn pieces_on<V>(r: (TriangleSliceResult<V>, bool), positive: bool) -> Seq<[V; 3]> {
    match r.0 {
        TriangleSliceResult::Single(t) => if r.1 == positive {
            seq![t]
        } else {
            Seq::empty()
        },
        TriangleSliceResult::Split(single, t1, t2) => if r.1 == positive {
            seq![single]
        } else {
            seq![t1, t2]
        },
    }
}

/// The pieces that the slice results put on one side, triangle by triangle.
pub open spec fn all_pieces_on<V>(results: Seq<(TriangleSliceResult<V>, bool)>, positive: bool) -> Seq<
    [V; 3],
>
    decreases results.len(),
{
    if results.len() == 0 {
        Seq::empty()
    } else {
        all_pieces_on(results.drop_last(), positive) + pieces_on(results.last(), positive)
    }
}

/// Slicing loses and doubles no piece: each side of the mesh holds exactly the pieces
/// that the slices of the triangles put on it, each as often as it is put there. In
/// particular, of every cut triangle, both pieces away from the lonely vertex are on
/// the other side.
pub proof fn lemma_sides_hold_their_pieces<V>(results: Seq<(TriangleSliceResult<V>, bool)>)
    ensures
        sliced_into(results).0.to_multiset() == all_pieces_on(results, true).to_multiset(),
        sliced_into(results).1.to_multiset() == all_pieces_on(results, false).to_multiset(),
    decreases results.len(),
{
    broadcast use vstd::seq_lib::group_to_multiset_ensures, vstd::multiset::group_multiset_axioms, vstd::seq_lib::lemma_multiset_commutative;

    if results.len() > 0 {
        let rest = results.drop_last();
        lemma_sides_hold_their_pieces(rest);
        let (p, n, b) = sliced_into(rest);
        let last = results.last();
        let pp = pieces_on(last, true);
        let np = pieces_on(last, false);
        let pa = all_pieces_on(rest, true);
        let na = all_pieces_on(rest, false);
        assert((pa + pp).to_multiset() =~= pa.to_multiset().add(pp.to_multiset()));
        assert((na + np).to_multiset() =~= na.to_multiset().add(np.to_multiset()));
        match last {
            (TriangleSliceResult::Single(t), true) => {
                assert(seq![t] =~= Seq::<[V; 3]>::empty().push(t));
                assert(p.push(t).to_multiset() =~= p.to_multiset().insert(t));
                assert(np =~= Seq::<[V; 3]>::empty());
            },
            (TriangleSliceResult::Single(t), false) => {
                assert(seq![t] =~= Seq::<[V; 3]>::empty().push(t));
                assert(n.push(t).to_multiset() =~= n.to_multiset().insert(t));
                assert(pp =~= Seq::<[V; 3]>::empty());
            },
            (TriangleSliceResult::Split(single, t1, t2), true) => {
                assert(seq![single] =~= Seq::<[V; 3]>::empty().push(single));
                assert(seq![t1, t2] =~= Seq::<[V; 3]>::empty().push(t1).push(t2));
                assert(p.push(single).to_multiset() =~= p.to_multiset().insert(single));
                assert(n.push(t1).push(t2).to_multiset() =~= n.to_multiset().insert(t1).insert(t2));
            },
            (TriangleSliceResult::Split(single, t1, t2), false) => {
                assert(seq![single] =~= Seq::<[V; 3]>::empty().push(single));
                assert(seq![t1, t2] =~= Seq::<[V; 3]>::empty().push(t1).push(t2));
                assert(n.push(single).to_multiset() =~= n.to_multiset().insert(single));
                assert(p.push(t1).push(t2).to_multiset() =~= p.to_multiset().insert(t1).insert(t2));
            },
        }
    }
}

} // verus!
