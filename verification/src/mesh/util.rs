//! A builder for triangle-list meshes.
use vstd::prelude::*;

verus! {

/// The vertices of the triangles, in order, three per triangle.
pub open spec fn flat_vertices<V>(triangles: Seq<[V; 3]>) -> Seq<V>
    decreases triangles.len(),
{
    if triangles.len() == 0 {
        Seq::empty()
    } else {
        let t = triangles.last();
        flat_vertices(triangles.drop_last()).push(t[0]).push(t[1]).push(t[2])
    }
}

/// The triangles that fan out from `center` over consecutive pairs of the boundary:
/// `(boundary[0], boundary[1], center)`, `(boundary[2], boundary[3], center)`, ...
pub open spec fn boundary_fan<V>(boundary: Seq<V>, center: V) -> Seq<[V; 3]> {
    Seq::new(
        boundary.len() / 2,
        |k: int| [boundary[2 * k], boundary[2 * k + 1], center],
    )
}

/// A builder that collects the triangles of a triangle-list mesh.
pub struct TriangleMeshBuilder<V> {
    pub triangles: Vec<[V; 3]>,
}

impl<V> Default for TriangleMeshBuilder<V> {
    fn default() -> (r: Self)
        ensures
            r.triangles@.len() == 0,
    {
        TriangleMeshBuilder { triangles: Vec::new() }
    }
}

impl<V: Copy> TriangleMeshBuilder<V> {
    /// Adds a triangle.
    pub fn add_triangle(&mut self, t: [V; 3])
        ensures
            final(self).triangles@ == old(self).triangles@.push(t),
    {
        self.triangles.push(t);
    }

    /// The vertices of all triangles, three per triangle in order, and the index list
    /// `0, 1, 2, ...` that draws them as a triangle list.
    pub fn vertices_and_indices(&self) -> (r: (Vec<V>, Vec<u32>))
        requires
            3 * self.triangles@.len() <= u32::MAX,
        ensures
            r.0@ == flat_vertices(self.triangles@),
            r.1@.len() == 3 * self.triangles@.len(),
            forall|j: int| 0 <= j < r.1@.len() ==> #[trigger] r.1@[j] == j,
    {
        let n = self.triangles.len();
        let mut base: u32 = 0;
        let mut vertices: Vec<V> = Vec::new();
        let mut indices: Vec<u32> = Vec::new();
        let mut i: usize = 0;
        while i < n
            invariant
                n == self.triangles@.len(),
                3 * n <= u32::MAX,
                0 <= i <= n,
                base == 3 * i,
                vertices@ == flat_vertices(self.triangles@.take(i as int)),
                indices@.len() == 3 * i,
                forall|j: int| 0 <= j < indices@.len() ==> #[trigger] indices@[j] == j,
            decreases n - i,
        {
            let t = self.triangles[i];
            vertices.push(t[0]);
            vertices.push(t[1]);
            vertices.push(t[2]);
            indices.push(base);
            indices.push(base + 1);
            indices.push(base + 2);
            base = base + 3;
            proof {
                let s = self.triangles@.take(i + 1);
                assert(s.drop_last() == self.triangles@.take(i as int));
                assert(s.last() == t);
            }
            i = i + 1;
        }
        assert(self.triangles@.take(n as int) == self.triangles@);
        (vertices, indices)
    }

    /// Closes a cut: for each consecutive pair of boundary points adds the triangle
    /// from the pair to `center`. Does nothing when the boundary has fewer than three
    /// points. Returns the builder.
    pub fn fill_boundary(&mut self, boundary: &[V], center: V) -> (r: &Self)
        requires
            boundary@.len() < 3 || boundary@.len() % 2 == 0,
        ensures
            final(self).triangles@ == if boundary@.len() < 3 {
                old(self).triangles@
            } else {
                old(self).triangles@ + boundary_fan(boundary@, center)
            },
            r.triangles@ == final(self).triangles@,
    {
        let len = boundary.len();
        if len < 3 {
            return self;
        }
        let ghost start = self.triangles@;
        let mut i: usize = 0;
        while i < len
            invariant
                len == boundary@.len(),
                len % 2 == 0,
                i % 2 == 0,
                0 <= i <= len,
                self.triangles@ == start + boundary_fan(boundary@.take(i as int), center),
            decreases len - i,
        {
            let a = boundary[i];
            let b = boundary[i + 1];
            self.triangles.push([a, b, center]);
            proof {
                assert(boundary_fan(boundary@.take(i + 2), center) == boundary_fan(
                    boundary@.take(i as int),
                    center,
                ).push([a, b, center]));
            }
            i = i + 2;
        }
        assert(boundary@.take(len as int) == boundary@);
        self
    }

    /// Returns true if the builder holds no triangle.
    pub fn is_empty(&self) -> (r: bool)
        ensures
            r == (self.triangles@.len() == 0),
    {
        self.triangles.len() == 0
    }
}

} // verus!
