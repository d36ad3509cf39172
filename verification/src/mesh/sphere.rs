//! A sphere mesh made by subdividing the faces of an octahedron.
//!
//! The point halfway between two points of the sphere is computed by the caller's
//! `mid` function (a spherical interpolation); what is verified here is the
//! subdivision itself.
use vstd::prelude::*;

use super::util::TriangleMeshBuilder;

verus! {

/// Four to the power `d`: the number of triangles a face is cut into at depth `d`.
pub open spec fn four_pow(d: nat) -> nat
    decreases d,
{
    if d == 0 {
        1
    } else {
        4 * four_pow((d - 1) as nat)
    }
}

/// `tris` is the subdivision of the face `(a, b, c)` to depth `depth`: the face itself
/// at depth 0, and otherwise, with `ab`, `bc`, `ca` the midpoints that `mid` gave,
/// the subdivisions of `(a, ab, ca)`, `(b, bc, ab)`, `(c, ca, bc)` and `(ab, bc, ca)`,
/// one after the other.
pub open spec fn subdivision<V, M: Fn(V, V) -> V>(
    a: V,
    b: V,
    c: V,
    depth: nat,
    mid: M,
    tris: Seq<[V; 3]>,
) -> bool
    decreases depth,
{
    if depth == 0 {
        tris == seq![[a, b, c]]
    } else {
        let q = four_pow((depth - 1) as nat) as int;
        exists|ab: V, bc: V, ca: V|
            #![trigger mid.ensures((a, b), ab), mid.ensures((b, c), bc), mid.ensures((c, a), ca)]
            {
                &&& mid.ensures((a, b), ab)
                &&& mid.ensures((b, c), bc)
                &&& mid.ensures((c, a), ca)
                &&& tris.len() == 4 * q
                &&& subdivision(a, ab, ca, (depth - 1) as nat, mid, tris.subrange(0, q))
                &&& subdivision(b, bc, ab, (depth - 1) as nat, mid, tris.subrange(q, 2 * q))
                &&& subdivision(c, ca, bc, (depth - 1) as nat, mid, tris.subrange(2 * q, 3 * q))
                &&& subdivision(ab, bc, ca, (depth - 1) as nat, mid, tris.subrange(3 * q, 4 * q))
            }
    }
}

/// Recursively subdivides the face `(a, b, c)` and adds the resulting triangles.
pub fn subdivide_face<V: Copy, M: Fn(V, V) -> V>(
    builder: &mut TriangleMeshBuilder<V>,
    a: V,
    b: V,
    c: V,
    depth: u32,
    mid: &M,
)
    requires
        forall|x: V, y: V| #[trigger] mid.requires((x, y)),
    ensures
        final(builder).triangles@.len() == old(builder).triangles@.len() + four_pow(depth as nat),
        final(builder).triangles@.subrange(0, old(builder).triangles@.len() as int)
            == old(builder).triangles@,
        subdivision(
            a,
            b,
            c,
            depth as nat,
            *mid,
            final(builder).triangles@.subrange(
                old(builder).triangles@.len() as int,
                final(builder).triangles@.len() as int,
            ),
        ),
    decreases depth,
{
    let ghost start = builder.triangles@;
    if depth == 0 {
        builder.triangles.push([a, b, c]);
        proof {
            assert(builder.triangles@.subrange(start.len() as int, builder.triangles@.len() as int)
                =~= seq![[a, b, c]]);
            assert(builder.triangles@.subrange(0, start.len() as int) =~= start);
        }
    } else {
        let ab = mid(a, b);
        let bc = mid(b, c);
        let ca = mid(c, a);
        let ghost q = four_pow((depth - 1) as nat) as int;
        let ghost n0 = start.len() as int;
        subdivide_face(builder, a, ab, ca, depth - 1, mid);
        let ghost s1 = builder.triangles@;
        subdivide_face(builder, b, bc, ab, depth - 1, mid);
        let ghost s2 = builder.triangles@;
        subdivide_face(builder, c, ca, bc, depth - 1, mid);
        let ghost s3 = builder.triangles@;
        subdivide_face(builder, ab, bc, ca, depth - 1, mid);
        proof {
            let s4 = builder.triangles@;
            let tris = s4.subrange(n0, s4.len() as int);
            assert(s4.subrange(0, s3.len() as int) == s3);
            assert(s3.subrange(0, s2.len() as int) == s2);
            assert(s2.subrange(0, s1.len() as int) == s1);
            assert(tris.subrange(0, q) =~= s1.subrange(n0, n0 + q));
            assert(tris.subrange(q, 2 * q) =~= s2.subrange(n0 + q, n0 + 2 * q));
            assert(tris.subrange(2 * q, 3 * q) =~= s3.subrange(n0 + 2 * q, n0 + 3 * q));
            assert(tris.subrange(3 * q, 4 * q) =~= s4.subrange(n0 + 3 * q, n0 + 4 * q));
            assert(s4.subrange(0, n0) =~= start);
            assert(mid.ensures((a, b), ab));
            assert(mid.ensures((b, c), bc));
            assert(mid.ensures((c, a), ca));
        }
    }
}

/// The eight faces of the octahedron with the given corner points.
pub open spec fn octahedron_faces<V>(up: V, down: V, left: V, right: V, forward: V, back: V) -> Seq<
    [V; 3],
> {
    seq![
        [up, back, left],
        [up, right, back],
        [up, forward, right],
        [up, left, forward],
        [down, left, back],
        [down, back, right],
        [down, right, forward],
        [down, forward, left],
    ]
}

/// Builds the triangles of a sphere: each face of the octahedron with corners `up`,
/// `down`, `left`, `right`, `forward`, `back` is subdivided to depth `resolution`, the
/// faces in the order of `octahedron_faces`.
pub fn octahedron_sphere<V: Copy, M: Fn(V, V) -> V>(
    resolution: u32,
    up: V,
    down: V,
    left: V,
    right: V,
    forward: V,
    back: V,
    mid: &M,
) -> (r: TriangleMeshBuilder<V>)
    requires
        forall|x: V, y: V| #[trigger] mid.requires((x, y)),
    ensures
        ({
            let faces = octahedron_faces(up, down, left, right, forward, back);
            let q = four_pow(resolution as nat) as int;
            &&& r.triangles@.len() == 8 * q
            &&& forall|f: int|
                0 <= f < 8 ==> subdivision(
                    #[trigger] faces[f][0],
                    faces[f][1],
                    faces[f][2],
                    resolution as nat,
                    *mid,
                    r.triangles@.subrange(f * q, (f + 1) * q),
                )
        }),
{
    let mut builder = TriangleMeshBuilder { triangles: Vec::new() };
    let faces = [
        [up, back, left],
        [up, right, back],
        [up, forward, right],
        [up, left, forward],
        [down, left, back],
        [down, back, right],
        [down, right, forward],
        [down, forward, left],
    ];
    let ghost spec_faces = octahedron_faces(up, down, left, right, forward, back);
    let ghost q = four_pow(resolution as nat) as int;
    assert(faces@ =~= spec_faces);
    let mut f: usize = 0;
    while f < 8
        invariant
            0 <= f <= 8,
            faces@ == spec_faces,
            q == four_pow(resolution as nat) as int,
            forall|x: V, y: V| #[trigger] mid.requires((x, y)),
            builder.triangles@.len() == f * q,
            forall|g: int|
                0 <= g < f ==> subdivision(
                    #[trigger] spec_faces[g][0],
                    spec_faces[g][1],
                    spec_faces[g][2],
                    resolution as nat,
                    *mid,
                    builder.triangles@.subrange(g * q, (g + 1) * q),
                ),
        decreases 8 - f,
    {
        let face = faces[f];
        let ghost before = builder.triangles@;
        subdivide_face(&mut builder, face[0], face[1], face[2], resolution, mid);
        proof {
            let after = builder.triangles@;
            assert((f + 1) * q == f * q + q) by (nonlinear_arith);
            assert forall|g: int|
                0 <= g < f + 1 implies subdivision(
                    #[trigger] spec_faces[g][0],
                    spec_faces[g][1],
                    spec_faces[g][2],
                    resolution as nat,
                    *mid,
                    after.subrange(g * q, (g + 1) * q),
                ) by {
                if g < f {
                    assert(g * q + q <= f * q) by (nonlinear_arith)
                        requires
                            g < f,
                            q >= 0,
                    ;
                    assert((g + 1) * q == g * q + q) by (nonlinear_arith);
                    assert(g * q >= 0) by (nonlinear_arith)
                        requires
                            g >= 0,
                            q >= 0,
                    ;
                    assert(after.subrange(g * q, (g + 1) * q) =~= before.subrange(
                        g * q,
                        (g + 1) * q,
                    ));
                } else {
                    assert(g == f);
                }
            }
        }
        f = f + 1;
    }
    builder
}

/// Subdividing one level deeper cuts every triangle of the shallower subdivision into
/// its four children, in place: for the subdivision `tris` of a face to depth
/// `depth + 1` there is a subdivision `coarse` of the face to depth `depth` such that
/// the triangles `4k .. 4k + 4` of `tris` are the four children of triangle `k` of
/// `coarse`. Every triangle, the centre ones included, is cut the same way; none is
/// replaced by a copy of another.
pub proof fn lemma_subdivision_refines<V, M: Fn(V, V) -> V>(
    a: V,
    b: V,
    c: V,
    depth: nat,
    mid: M,
    tris: Seq<[V; 3]>,
) -> (coarse: Seq<[V; 3]>)
    requires
        subdivision(a, b, c, depth + 1, mid, tris),
    ensures
        subdivision(a, b, c, depth, mid, coarse),
        coarse.len() == four_pow(depth),
        tris.len() == 4 * four_pow(depth),
        forall|k: int|
            0 <= k < coarse.len() ==> subdivision(
                (#[trigger] coarse[k])[0],
                coarse[k][1],
                coarse[k][2],
                1,
                mid,
                tris.subrange(4 * k, 4 * k + 4),
            ),
    decreases depth,
{
    let q = four_pow(depth) as int;
    let (ab, bc, ca) = choose|ab: V, bc: V, ca: V|
        #![trigger mid.ensures((a, b), ab), mid.ensures((b, c), bc), mid.ensures((c, a), ca)]
        {
            &&& mid.ensures((a, b), ab)
            &&& mid.ensures((b, c), bc)
            &&& mid.ensures((c, a), ca)
            &&& tris.len() == 4 * q
            &&& subdivision(a, ab, ca, depth, mid, tris.subrange(0, q))
            &&& subdivision(b, bc, ab, depth, mid, tris.subrange(q, 2 * q))
            &&& subdivision(c, ca, bc, depth, mid, tris.subrange(2 * q, 3 * q))
            &&& subdivision(ab, bc, ca, depth, mid, tris.subrange(3 * q, 4 * q))
        };
    if depth == 0 {
        let coarse = seq![[a, b, c]];
        assert(q == 1);
        assert(coarse[0] == [a, b, c]);
        assert(tris.subrange(0, 4) =~= tris);
        coarse
    } else {
        let d = (depth - 1) as nat;
        let p = four_pow(d) as int;
        assert(q == 4 * p);
        let b0 = tris.subrange(0, q);
        let b1 = tris.subrange(q, 2 * q);
        let b2 = tris.subrange(2 * q, 3 * q);
        let b3 = tris.subrange(3 * q, 4 * q);
        let c0 = lemma_subdivision_refines(a, ab, ca, d, mid, b0);
        let c1 = lemma_subdivision_refines(b, bc, ab, d, mid, b1);
        let c2 = lemma_subdivision_refines(c, ca, bc, d, mid, b2);
        let c3 = lemma_subdivision_refines(ab, bc, ca, d, mid, b3);
        let coarse = c0 + c1 + c2 + c3;
        assert(coarse.subrange(0, p) =~= c0);
        assert(coarse.subrange(p, 2 * p) =~= c1);
        assert(coarse.subrange(2 * p, 3 * p) =~= c2);
        assert(coarse.subrange(3 * p, 4 * p) =~= c3);
        assert(subdivision(a, b, c, depth, mid, coarse));
        assert forall|k: int|
            0 <= k < coarse.len() implies subdivision(
            (#[trigger] coarse[k])[0],
            coarse[k][1],
            coarse[k][2],
            1,
            mid,
            tris.subrange(4 * k, 4 * k + 4),
        ) by {
            if k < p {
                assert(coarse[k] == c0[k]);
                assert(tris.subrange(4 * k, 4 * k + 4) =~= b0.subrange(4 * k, 4 * k + 4));
            } else if k < 2 * p {
                let j = k - p;
                assert(coarse[k] == c1[j]);
                assert(tris.subrange(4 * k, 4 * k + 4) =~= b1.subrange(4 * j, 4 * j + 4));
            } else if k < 3 * p {
                let j = k - 2 * p;
                assert(coarse[k] == c2[j]);
                assert(tris.subrange(4 * k, 4 * k + 4) =~= b2.subrange(4 * j, 4 * j + 4));
            } else {
                let j = k - 3 * p;
                assert(coarse[k] == c3[j]);
                assert(tris.subrange(4 * k, 4 * k + 4) =~= b3.subrange(4 * j, 4 * j + 4));
            }
        }
        coarse
    }
}

} // verus!
