//! Indexed triangle meshes and the index layouts of the basic shapes.
//!
//! A mesh is a list of vertices and a list of `u32` indices into it, three
//! indices per triangle. The functions here append the vertices of a shape and
//! the triangles that connect them; what a vertex holds (position and colour)
//! is up to the caller. Every function keeps a well-formed mesh well-formed:
//! no index ever names a vertex that does not exist.

use vstd::prelude::*;

verus! {

/// Whether every index names one of the first `n` vertices.
pub open spec fn indices_in_bounds(indices: Seq<u32>, n: int) -> bool {
    forall|k: int| 0 <= k < indices.len() ==> #[trigger] indices[k] < n
}

/// The indices `offsets`, each moved on by `start`.
pub open spec fn shifted(offsets: Seq<u32>, start: int) -> Seq<u32> {
    Seq::new(offsets.len(), |k: int| (offsets[k] + start) as u32)
}

/// Index `k` of a triangle fan whose hub is vertex `start`: triangle `t` is
/// `(start, start + t + 1, start + t + 2)`.
pub open spec fn fan_index(start: int, k: int) -> int {
    let t = k / 3;
    let r = k % 3;
    if r == 0 {
        start
    } else if r == 1 {
        start + t + 1
    } else {
        start + t + 2
    }
}

/// The indices of a triangle fan over `n >= 3` vertices placed from `start` on.
pub open spec fn fan_indices(start: int, n: int) -> Seq<u32> {
    Seq::new((3 * (n - 2)) as nat, |k: int| fan_index(start, k) as u32)
}

/// Index `k` of a closed fan around a hub at `start` with `n` rim vertices
/// after it: triangle `i` joins the hub, rim vertex `i` and rim vertex `i + 1`,
/// the last rim vertex joining back to the first.
pub open spec fn wheel_index(start: int, n: int, k: int) -> int {
    let i = k / 3;
    let r = k % 3;
    if r == 0 {
        start
    } else if r == 1 {
        start + 1 + i
    } else {
        start + 1 + (i + 1) % n
    }
}

/// The indices of a closed fan with `n` rim vertices.
pub open spec fn wheel_indices(start: int, n: int) -> Seq<u32> {
    Seq::new((3 * n) as nat, |k: int| wheel_index(start, n, k) as u32)
}

/// Index `k` of a strip over interleaved `(inner, outer)` vertex pairs from
/// `start` on. Quad `i` joins pair `i` to pair `i + 1`; with `wrap` the last
/// pair joins back to the first.
pub open spec fn strip_index(start: int, count: int, wrap: bool, k: int) -> int {
    let i = k / 6;
    let r = k % 6;
    let next = if wrap {
        (i + 1) % count
    } else {
        i + 1
    };
    let inner_curr = start + 2 * i;
    let outer_curr = start + 2 * i + 1;
    let inner_next = start + 2 * next;
    let outer_next = start + 2 * next + 1;
    if r == 0 {
        inner_curr
    } else if r == 1 {
        outer_curr
    } else if r == 2 {
        outer_next
    } else if r == 3 {
        inner_curr
    } else if r == 4 {
        outer_next
    } else {
        inner_next
    }
}

/// The indices of a strip of `count` quads.
pub open spec fn strip_indices(start: int, count: int, wrap: bool) -> Seq<u32> {
    Seq::new((6 * count) as nat, |k: int| strip_index(start, count, wrap, k) as u32)
}

/// Index `k` of a closed ring over interleaved `(outer, inner)` vertex pairs
/// from `start` on: quad `i` joins pair `i` to pair `(i + 1) % n`.
pub open spec fn ring_index(start: int, n: int, k: int) -> int {
    let i = k / 6;
    let r = k % 6;
    let outer_curr = start + 2 * i;
    let inner_curr = start + 2 * i + 1;
    let outer_next = start + 2 * ((i + 1) % n);
    let inner_next = start + 2 * ((i + 1) % n) + 1;
    if r == 0 {
        outer_curr
    } else if r == 1 {
        outer_next
    } else if r == 2 {
        inner_curr
    } else if r == 3 {
        inner_curr
    } else if r == 4 {
        outer_next
    } else {
        inner_next
    }
}

/// The indices of a closed ring over `n` vertex pairs.
pub open spec fn ring_indices(start: int, n: int) -> Seq<u32> {
    Seq::new((6 * n) as nat, |k: int| ring_index(start, n, k) as u32)
}

/// Two sequences of equal length, interleaved: `a[0], b[0], a[1], b[1], ...`.
pub open spec fn interleaved<V>(a: Seq<V>, b: Seq<V>) -> Seq<V> {
    Seq::new(2 * a.len(), |k: int| if k % 2 == 0 { a[k / 2] } else { b[k / 2] })
}

/// The local indices of a single triangle.
pub open spec fn triangle_offsets() -> Seq<u32> {
    seq![0u32, 1, 2]
}

/// The local indices of a quad `0-1-2-3` split into two triangles.
pub open spec fn quad_offsets() -> Seq<u32> {
    seq![0u32, 1, 2, 0, 2, 3]
}

/// The local indices joining an outer triangle `0-1-2` to an inner one `3-4-5`.
pub open spec fn stroke_triangle_offsets() -> Seq<u32> {
    seq![0u32, 1, 3, 1, 4, 3, 1, 2, 4, 2, 5, 4, 2, 0, 5, 0, 3, 5]
}

/// The local indices joining an outer quad `0-1-2-3` to an inner one `4-5-6-7`.
pub open spec fn stroke_rect_offsets() -> Seq<u32> {
    seq![
        0u32, 1, 4, 1, 4, 5, 1, 2, 5, 2, 5, 6, 2, 3, 6, 3, 6, 7, 3, 0, 7, 0, 7, 4,
    ]
}

/// Appending indices that stay below `new_n` to indices below `old_n <= new_n`
/// gives indices below `new_n`.
proof fn lemma_append_in_bounds(old_i: Seq<u32>, added: Seq<u32>, old_n: int, new_n: int)
    requires
        indices_in_bounds(old_i, old_n),
        old_n <= new_n,
        indices_in_bounds(added, new_n),
    ensures
        indices_in_bounds(old_i + added, new_n),
{
    assert forall|k: int| 0 <= k < (old_i + added).len() implies #[trigger] (old_i + added)[k]
        < new_n by {
        if k < old_i.len() {
            assert((old_i + added)[k] == old_i[k]);
        } else {
            assert((old_i + added)[k] == added[k - old_i.len()]);
        }
    }
}

/// Pushing the next `w` values of `f` onto its first `w * i` values gives the
/// first `w * (i + 1)` values.
proof fn lemma_extend_block(s: Seq<u32>, f: spec_fn(int) -> u32, i: int, w: int)
    requires
        0 <= i,
        1 <= w,
        s == Seq::new((w * i) as nat, f),
    ensures
        Seq::new((w * i + w) as nat, f) == s + Seq::new(w as nat, |j: int| f(w * i + j)),
{
    assert(Seq::new((w * i + w) as nat, f) =~= s + Seq::new(w as nat, |j: int| f(w * i + j)));
}

/// Position `w * i + j` of a block layout lies in block `i` at offset `j`.
proof fn lemma_block_position(i: int, j: int, w: int)
    requires
        0 <= i,
        0 <= j < w,
    ensures
        (w * i + j) / w == i,
        (w * i + j) % w == j,
{
    vstd::arithmetic::mul::lemma_mul_is_commutative(w, i);
    vstd::arithmetic::div_mod::lemma_fundamental_div_mod_converse(w * i + j, w, i, j);
}

/// A growable triangle mesh: vertices and the indices of its triangles.
///
/// The storage is set up on first use; a mesh that was never written to
/// yields no geometry.
pub struct MeshData<V> {
    vertices: Vec<V>,
    indices: Vec<u32>,
    allocated: bool,
}

/// Vertices and indices ready to be handed to a renderer.
pub struct Indexed<V> {
    /// The vertices of the mesh.
    pub vertices: Vec<V>,
    /// Three indices into `vertices` per triangle.
    pub indices: Vec<u32>,
}

impl<V> MeshData<V> {
    /// The vertices written so far.
    pub closed spec fn vertices_spec(&self) -> Seq<V> {
        self.vertices@
    }

    /// The indices written so far.
    pub closed spec fn indices_spec(&self) -> Seq<u32> {
        self.indices@
    }

    /// Whether anything was ever written to the mesh.
    pub closed spec fn is_allocated(&self) -> bool {
        self.allocated
    }

    /// Every index names a vertex of the mesh.
    pub open spec fn well_formed(&self) -> bool {
        indices_in_bounds(self.indices_spec(), self.vertices_spec().len() as int)
    }

    /// Every index added between `self` and `next` names one of the `added`
    /// vertices appended last: a shape refers only to its own vertices.
    pub open spec fn refers_to_own(&self, next: Self, added: int) -> bool {
        forall|k: int|
            self.indices_spec().len() <= k < next.indices_spec().len() ==> self.vertices_spec().len()
                <= #[trigger] next.indices_spec()[k] < self.vertices_spec().len() + added
    }

    /// The mesh after appending `vertices` and `indices` (already shifted).
    pub open spec fn appended(
        &self,
        next: Self,
        vertices: Seq<V>,
        indices: Seq<u32>,
    ) -> bool {
        &&& next.vertices_spec() == self.vertices_spec() + vertices
        &&& next.indices_spec() == self.indices_spec() + indices
        &&& next.is_allocated()
    }

    /// An empty mesh with no storage set up.
    pub fn new() -> (m: Self)
        ensures
            m.vertices_spec() == Seq::<V>::empty(),
            m.indices_spec() == Seq::<u32>::empty(),
            !m.is_allocated(),
            m.well_formed(),
    {
        MeshData { vertices: Vec::new(), indices: Vec::new(), allocated: false }
    }

    /// The number of vertices written so far.
    pub fn vertices_count(&self) -> (n: usize)
        ensures
            n == self.vertices_spec().len(),
    {
        self.vertices.len()
    }

    /// The number of indices written so far.
    pub fn indices_count(&self) -> (n: usize)
        ensures
            n == self.indices_spec().len(),
    {
        self.indices.len()
    }

    /// Hands the written geometry over, or `None` when nothing was ever written.
    pub fn into_mesh(self) -> (r: Option<Indexed<V>>)
        ensures
            r is Some <==> self.is_allocated(),
            r matches Some(m) ==> m.vertices@ == self.vertices_spec() && m.indices@
                == self.indices_spec(),
    {
        if self.allocated {
            Some(Indexed { vertices: self.vertices, indices: self.indices })
        } else {
            None
        }
    }

    /// Appends a run of vertices.
    fn push_vertices(&mut self, points: &[V])
        where
            V: Copy,
        ensures
            final(self).vertices_spec() == old(self).vertices_spec() + points@,
            final(self).indices_spec() == old(self).indices_spec(),
            final(self).is_allocated() == old(self).is_allocated(),
    {
        let ghost old_vertices = self.vertices@;
        let n = points.len();
        let mut i: usize = 0;
        while i < n
            invariant
                0 <= i <= n,
                n == points@.len(),
                self.vertices@ == old_vertices + points@.subrange(0, i as int),
                self.indices@ == old(self).indices@,
                self.allocated == old(self).allocated,
            decreases n - i,
        {
            self.vertices.push(points[i]);
            assert(points@.subrange(0, i as int + 1) == points@.subrange(0, i as int).push(
                points@[i as int],
            ));
            i = i + 1;
        }
        assert(points@.subrange(0, n as int) == points@);
    }

    /// Appends two runs of vertices of equal length, interleaved.
    fn push_pairs(&mut self, first: &[V], second: &[V])
        where
            V: Copy,
        requires
            first@.len() == second@.len(),
        ensures
            final(self).vertices_spec() == old(self).vertices_spec() + interleaved(
                first@,
                second@,
            ),
            final(self).indices_spec() == old(self).indices_spec(),
            final(self).is_allocated() == old(self).is_allocated(),
    {
        let ghost old_vertices = self.vertices@;
        let n = first.len();
        let mut i: usize = 0;
        while i < n
            invariant
                0 <= i <= n,
                n == first@.len(),
                n == second@.len(),
                self.vertices@ == old_vertices + interleaved(
                    first@.subrange(0, i as int),
                    second@.subrange(0, i as int),
                ),
                self.indices@ == old(self).indices@,
                self.allocated == old(self).allocated,
            decreases n - i,
        {
            self.vertices.push(first[i]);
            self.vertices.push(second[i]);
            assert(interleaved(first@.subrange(0, i as int + 1), second@.subrange(0, i as int + 1))
                =~= interleaved(first@.subrange(0, i as int), second@.subrange(0, i as int)).push(
                first@[i as int],
            ).push(second@[i as int]));
            i = i + 1;
        }
        assert(first@.subrange(0, n as int) == first@);
        assert(second@.subrange(0, n as int) == second@);
    }

    /// Appends `offsets`, each moved on by `start`.
    fn push_shifted(&mut self, offsets: &[u32], start: u32)
        requires
            forall|k: int| 0 <= k < offsets@.len() ==> offsets@[k] + start <= u32::MAX,
        ensures
            final(self).indices_spec() == old(self).indices_spec() + shifted(
                offsets@,
                start as int,
            ),
            final(self).vertices_spec() == old(self).vertices_spec(),
            final(self).is_allocated() == old(self).is_allocated(),
    {
        let ghost old_indices = self.indices@;
        let n = offsets.len();
        let mut i: usize = 0;
        while i < n
            invariant
                0 <= i <= n,
                n == offsets@.len(),
                forall|k: int| 0 <= k < offsets@.len() ==> offsets@[k] + start <= u32::MAX,
                self.indices@ == old_indices + shifted(offsets@.subrange(0, i as int), start as int),
                self.vertices@ == old(self).vertices@,
                self.allocated == old(self).allocated,
            decreases n - i,
        {
            self.indices.push(offsets[i] + start);
            assert(shifted(offsets@.subrange(0, i as int + 1), start as int) =~= shifted(
                offsets@.subrange(0, i as int),
                start as int,
            ).push((offsets@[i as int] + start) as u32));
            i = i + 1;
        }
        assert(offsets@.subrange(0, n as int) == offsets@);
    }

    /// Appends raw geometry: the vertices, then the indices moved on by the
    /// number of vertices the mesh held before, so that they keep naming the
    /// vertices they named in their own list.
    pub fn add(&mut self, indices: &[u32], vertices: &[V])
        where
            V: Copy,
        requires
            old(self).vertices_spec().len() <= u32::MAX,
            forall|k: int|
                0 <= k < indices@.len() ==> indices@[k] + old(self).vertices_spec().len()
                    <= u32::MAX,
        ensures
            old(self).appended(
                *final(self),
                vertices@,
                shifted(indices@, old(self).vertices_spec().len() as int),
            ),
            old(self).well_formed() && indices_in_bounds(indices@, vertices@.len() as int)
                ==> final(self).well_formed(),
    {
        self.allocated = true;
        let start = self.vertices.len() as u32;
        let ghost old_indices = self.indices@;
        let ghost old_n = self.vertices@.len() as int;
        self.push_vertices(vertices);
        self.push_shifted(indices, start);
        proof {
            if indices_in_bounds(old_indices, old_n) && indices_in_bounds(
                indices@,
                vertices@.len() as int,
            ) {
                let s = shifted(indices@, start as int);
                assert forall|k: int| 0 <= k < s.len() implies #[trigger] s[k] < old_n
                    + vertices@.len() by {
                    assert(indices@[k] < vertices@.len());
                }
                lemma_append_in_bounds(old_indices, s, old_n, old_n + vertices@.len());
            }
        }
    }

    /// Appends a shape made of `vertices` and the fixed local `offsets`.
    fn add_shape(&mut self, offsets: &[u32], vertices: &[V])
        where
            V: Copy,
        requires
            old(self).vertices_spec().len() + vertices@.len() <= u32::MAX,
            indices_in_bounds(offsets@, vertices@.len() as int),
        ensures
            old(self).appended(
                *final(self),
                vertices@,
                shifted(offsets@, old(self).vertices_spec().len() as int),
            ),
            old(self).well_formed() ==> final(self).well_formed(),
            old(self).refers_to_own(*final(self), vertices@.len() as int),
    {
        proof {
            assert forall|k: int| 0 <= k < offsets@.len() implies offsets@[k]
                + old(self).vertices_spec().len() <= u32::MAX by {
                assert(offsets@[k] < vertices@.len());
            }
        }
        self.add(offsets, vertices);
    }

    /// Writes a single filled triangle.
    pub fn draw_fill_triangle(&mut self, p1: V, p2: V, p3: V)
        where
            V: Copy,
        requires
            old(self).vertices_spec().len() + 3 <= u32::MAX,
        ensures
            old(self).appended(
                *final(self),
                seq![p1, p2, p3],
                shifted(triangle_offsets(), old(self).vertices_spec().len() as int),
            ),
            old(self).well_formed() ==> final(self).well_formed(),
            old(self).refers_to_own(*final(self), 3),
    {
        let offsets: [u32; 3] = [0, 1, 2];
        let vertices: [V; 3] = [p1, p2, p3];
        assert(offsets@ == triangle_offsets());
        assert(vertices@ == seq![p1, p2, p3]);
        self.add_shape(&offsets, &vertices);
    }

    /// Writes a triangle with a triangular hole: the band between the `outer`
    /// and the `inner` triangle, as six triangles.
    pub fn draw_stroke_triangle(&mut self, outer: [V; 3], inner: [V; 3])
        where
            V: Copy,
        requires
            old(self).vertices_spec().len() + 6 <= u32::MAX,
        ensures
            old(self).appended(
                *final(self),
                outer@ + inner@,
                shifted(stroke_triangle_offsets(), old(self).vertices_spec().len() as int),
            ),
            old(self).well_formed() ==> final(self).well_formed(),
            old(self).refers_to_own(*final(self), 6),
    {
        let offsets: [u32; 18] = [0, 1, 3, 1, 4, 3, 1, 2, 4, 2, 5, 4, 2, 0, 5, 0, 3, 5];
        let vertices: [V; 6] = [outer[0], outer[1], outer[2], inner[0], inner[1], inner[2]];
        assert(offsets@ == stroke_triangle_offsets());
        assert(vertices@ =~= outer@ + inner@);
        self.add_shape(&offsets, &vertices);
    }

    /// Writes a filled quad from its four corners in order
    /// (top-left, top-right, bottom-right, bottom-left), as two triangles.
    pub fn draw_fill_rect(&mut self, corners: [V; 4])
        where
            V: Copy,
        requires
            old(self).vertices_spec().len() + 4 <= u32::MAX,
        ensures
            old(self).appended(
                *final(self),
                corners@,
                shifted(quad_offsets(), old(self).vertices_spec().len() as int),
            ),
            old(self).well_formed() ==> final(self).well_formed(),
            old(self).refers_to_own(*final(self), 4),
    {
        let offsets: [u32; 6] = [0, 1, 2, 0, 2, 3];
        assert(offsets@ == quad_offsets());
        self.add_shape(&offsets, &corners);
    }

    /// Writes a hollow quad: the frame between the `outer` and the `inner`
    /// corners, as eight triangles, so that no pixel is covered twice.
    pub fn draw_stroke_rect(&mut self, outer: [V; 4], inner: [V; 4])
        where
            V: Copy,
        requires
            old(self).vertices_spec().len() + 8 <= u32::MAX,
        ensures
            old(self).appended(
                *final(self),
                outer@ + inner@,
                shifted(stroke_rect_offsets(), old(self).vertices_spec().len() as int),
            ),
            old(self).well_formed() ==> final(self).well_formed(),
            old(self).refers_to_own(*final(self), 8),
    {
        let offsets: [u32; 24] = [
            0, 1, 4, 1, 4, 5, 1, 2, 5, 2, 5, 6, 2, 3, 6, 3, 6, 7, 3, 0, 7, 0, 7, 4,
        ];
        let vertices: [V; 8] = [
            outer[0],
            outer[1],
            outer[2],
            outer[3],
            inner[0],
            inner[1],
            inner[2],
            inner[3],
        ];
        assert(offsets@ == stroke_rect_offsets());
        assert(vertices@ =~= outer@ + inner@);
        self.add_shape(&offsets, &vertices);
    }

    /// Appends the indices of a triangle fan over `n` vertices from `start` on.
    fn push_fan_indices(&mut self, start: u32, n: usize)
        requires
            n >= 3,
            start + n <= u32::MAX,
        ensures
            final(self).indices_spec() == old(self).indices_spec() + fan_indices(
                start as int,
                n as int,
            ),
            final(self).vertices_spec() == old(self).vertices_spec(),
            final(self).is_allocated() == old(self).is_allocated(),
    {
        let ghost old_indices = self.indices@;
        let ghost f = |k: int| fan_index(start as int, k) as u32;
        let mut t: usize = 1;
        while t < n - 1
            invariant
                1 <= t <= n - 1,
                n >= 3,
                start + n <= u32::MAX,
                f == (|k: int| fan_index(start as int, k) as u32),
                self.indices@ == old_indices + Seq::new((3 * (t - 1)) as nat, f),
                self.vertices@ == old(self).vertices@,
                self.allocated == old(self).allocated,
            decreases n - 1 - t,
        {
            let ghost before = self.indices@;
            self.indices.push(start);
            self.indices.push(start + t as u32);
            self.indices.push(start + t as u32 + 1);
            proof {
                let i = (t - 1) as int;
                lemma_extend_block(Seq::new((3 * i) as nat, f), f, i, 3);
                lemma_block_position(i, 0, 3);
                lemma_block_position(i, 1, 3);
                lemma_block_position(i, 2, 3);
                assert(Seq::new(3, |j: int| f(3 * i + j)) =~= seq![
                    start,
                    (start + t) as u32,
                    (start + t + 1) as u32,
                ]);
                assert(self.indices@ =~= old_indices + Seq::new((3 * i + 3) as nat, f));
            }
            t = t + 1;
        }
        assert(Seq::new((3 * (n - 2)) as nat, f) =~= fan_indices(start as int, n as int));
    }

    /// Writes a triangle fan: the first vertex is the hub, and each following
    /// pair of neighbours forms a triangle with it (used for convex polygons).
    /// Fewer than three vertices write nothing.
    pub fn draw_fan(&mut self, points: &[V])
        where
            V: Copy,
        requires
            old(self).vertices_spec().len() + points@.len() <= u32::MAX,
        ensures
            points@.len() < 3 ==> *final(self) == *old(self),
            points@.len() >= 3 ==> old(self).appended(
                *final(self),
                points@,
                fan_indices(old(self).vertices_spec().len() as int, points@.len() as int),
            ),
            old(self).well_formed() ==> final(self).well_formed(),
            old(self).refers_to_own(*final(self), points@.len() as int),
    {
        let n = points.len();
        if n < 3 {
            return;
        }
        self.allocated = true;
        let start = self.vertices.len() as u32;
        let ghost old_indices = self.indices@;
        self.push_vertices(points);
        self.push_fan_indices(start, n);
        proof {
            let f = fan_indices(start as int, n as int);
            assert forall|k: int| 0 <= k < f.len() implies #[trigger] f[k] < start + n by {
                assert(k / 3 <= n - 3);
            }
            if indices_in_bounds(old_indices, start as int) {
                lemma_append_in_bounds(old_indices, f, start as int, start + n);
            }
        }
    }

    /// Appends the indices of a closed fan with hub `start` and `n` rim
    /// vertices after it.
    fn push_wheel_indices(&mut self, start: u32, n: usize)
        requires
            start + n + 1 <= u32::MAX,
        ensures
            final(self).indices_spec() == old(self).indices_spec() + wheel_indices(
                start as int,
                n as int,
            ),
            final(self).vertices_spec() == old(self).vertices_spec(),
            final(self).is_allocated() == old(self).is_allocated(),
    {
        let ghost old_indices = self.indices@;
        let ghost f = |k: int| wheel_index(start as int, n as int, k) as u32;
        let mut i: usize = 0;
        while i < n
            invariant
                0 <= i <= n,
                start + n + 1 <= u32::MAX,
                f == (|k: int| wheel_index(start as int, n as int, k) as u32),
                self.indices@ == old_indices + Seq::new((3 * i) as nat, f),
                self.vertices@ == old(self).vertices@,
                self.allocated == old(self).allocated,
            decreases n - i,
        {
            let current = i as u32 + 1;
            let next = if i == n - 1 {
                1
            } else {
                current + 1
            };
            self.indices.push(start);
            self.indices.push(start + current);
            self.indices.push(start + next);
            proof {
                lemma_extend_block(Seq::new((3 * i) as nat, f), f, i as int, 3);
                lemma_block_position(i as int, 0, 3);
                lemma_block_position(i as int, 1, 3);
                lemma_block_position(i as int, 2, 3);
                if i == n - 1 {
                    assert((i + 1) % (n as int) == 0) by {
                        vstd::arithmetic::div_mod::lemma_mod_self_0(n as int);
                    }
                } else {
                    vstd::arithmetic::div_mod::lemma_small_mod((i + 1) as nat, n as nat);
                }
                assert(Seq::new(3, |j: int| f(3 * i + j)) =~= seq![
                    start,
                    (start + current) as u32,
                    (start + next) as u32,
                ]);
                assert(self.indices@ =~= old_indices + Seq::new((3 * i + 3) as nat, f));
            }
            i = i + 1;
        }
        assert(Seq::new((3 * n) as nat, f) =~= wheel_indices(start as int, n as int));
    }

    /// Writes a filled circle or ellipse as a closed fan: the `center` hub,
    /// then the `rim` vertices, each neighbouring pair of rim vertices forming
    /// a triangle with the hub and the last one closing back to the first.
    pub fn draw_fill_circle(&mut self, center: V, rim: &[V])
        where
            V: Copy,
        requires
            old(self).vertices_spec().len() + rim@.len() + 1 <= u32::MAX,
        ensures
            old(self).appended(
                *final(self),
                seq![center] + rim@,
                wheel_indices(old(self).vertices_spec().len() as int, rim@.len() as int),
            ),
            old(self).well_formed() ==> final(self).well_formed(),
            old(self).refers_to_own(*final(self), (rim@.len() + 1) as int),
    {
        self.allocated = true;
        let start = self.vertices.len() as u32;
        let ghost old_indices = self.indices@;
        let ghost old_vertices = self.vertices@;
        self.vertices.push(center);
        self.push_vertices(rim);
        assert(self.vertices@ =~= old_vertices + (seq![center] + rim@));
        let n = rim.len();
        self.push_wheel_indices(start, n);
        proof {
            let f = wheel_indices(start as int, n as int);
            assert forall|k: int| 0 <= k < f.len() implies #[trigger] f[k] < start + n + 1 by {
                let i = k / 3;
                assert(i < n);
                vstd::arithmetic::div_mod::lemma_mod_bound(i + 1, n as int);
            }
            if indices_in_bounds(old_indices, start as int) {
                lemma_append_in_bounds(old_indices, f, start as int, start + n + 1);
            }
        }
    }

    /// Appends the indices of a strip of `count` quads over interleaved
    /// `(inner, outer)` pairs from `start` on; with `wrap` the last pair joins
    /// back to the first.
    pub fn push_ring_strip_indices(&mut self, start: u32, count: usize, wrap: bool)
        requires
            start + 2 * count + 2 <= u32::MAX,
        ensures
            final(self).indices_spec() == old(self).indices_spec() + strip_indices(
                start as int,
                count as int,
                wrap,
            ),
            final(self).vertices_spec() == old(self).vertices_spec(),
            final(self).is_allocated() == old(self).is_allocated(),
            forall|k: int|
                old(self).indices_spec().len() <= k < final(self).indices_spec().len() ==> start
                    <= #[trigger] final(self).indices_spec()[k] < start + 2 * count + if wrap {
                    0int
                } else {
                    2int
                },
    {
        let ghost old_indices = self.indices@;
        let ghost f = |k: int| strip_index(start as int, count as int, wrap, k) as u32;
        let mut i: usize = 0;
        while i < count
            invariant
                0 <= i <= count,
                start + 2 * count + 2 <= u32::MAX,
                f == (|k: int| strip_index(start as int, count as int, wrap, k) as u32),
                self.indices@ == old_indices + Seq::new((6 * i) as nat, f),
                self.vertices@ == old(self).vertices@,
                self.allocated == old(self).allocated,
            decreases count - i,
        {
            let curr = i as u32;
            let next = if wrap {
                ((i + 1) % count) as u32
            } else {
                curr + 1
            };
            proof {
                if wrap {
                    vstd::arithmetic::div_mod::lemma_mod_bound((i + 1) as int, count as int);
                }
            }
            let inner_curr = start + curr * 2;
            let outer_curr = start + curr * 2 + 1;
            let inner_next = start + next * 2;
            let outer_next = start + next * 2 + 1;
            self.indices.push(inner_curr);
            self.indices.push(outer_curr);
            self.indices.push(outer_next);
            self.indices.push(inner_curr);
            self.indices.push(outer_next);
            self.indices.push(inner_next);
            proof {
                lemma_extend_block(Seq::new((6 * i) as nat, f), f, i as int, 6);
                lemma_block_position(i as int, 0, 6);
                lemma_block_position(i as int, 1, 6);
                lemma_block_position(i as int, 2, 6);
                lemma_block_position(i as int, 3, 6);
                lemma_block_position(i as int, 4, 6);
                lemma_block_position(i as int, 5, 6);
                assert(Seq::new(6, |j: int| f(6 * i + j)) =~= seq![
                    inner_curr,
                    outer_curr,
                    outer_next,
                    inner_curr,
                    outer_next,
                    inner_next,
                ]);
                assert(self.indices@ =~= old_indices + Seq::new((6 * i + 6) as nat, f));
            }
            i = i + 1;
        }
        assert(Seq::new((6 * count) as nat, f) =~= strip_indices(
            start as int,
            count as int,
            wrap,
        ));
    }

    /// Writes a hollow circle or ellipse: `inner[i]` and `outer[i]` are the
    /// vertices at the same angle, and each neighbouring pair of angles is
    /// laced into a quad, the last angle joining back to the first.
    pub fn draw_stroke_circle(&mut self, inner: &[V], outer: &[V])
        where
            V: Copy,
        requires
            inner@.len() == outer@.len(),
            old(self).vertices_spec().len() + 2 * inner@.len() + 2 <= u32::MAX,
        ensures
            old(self).appended(
                *final(self),
                interleaved(inner@, outer@),
                strip_indices(old(self).vertices_spec().len() as int, inner@.len() as int, true),
            ),
            old(self).well_formed() ==> final(self).well_formed(),
            old(self).refers_to_own(*final(self), (2 * inner@.len()) as int),
    {
        self.allocated = true;
        let start = self.vertices.len() as u32;
        let ghost old_indices = self.indices@;
        self.push_pairs(inner, outer);
        let n = inner.len();
        self.push_ring_strip_indices(start, n, true);
        proof {
            let f = strip_indices(start as int, n as int, true);
            assert forall|k: int| 0 <= k < f.len() implies #[trigger] f[k] < start + 2 * n by {
                let i = k / 6;
                assert(i < n);
                vstd::arithmetic::div_mod::lemma_mod_bound(i + 1, n as int);
            }
            if indices_in_bounds(old_indices, start as int) {
                lemma_append_in_bounds(old_indices, f, start as int, start + 2 * n);
            }
        }
    }

    /// Writes an open arc band: `inner[i]` and `outer[i]` are the vertices at
    /// the same angle, and each neighbouring pair of angles is laced into a
    /// quad. With fewer than two angles no quad is written.
    pub fn draw_arc_strip(&mut self, inner: &[V], outer: &[V])
        where
            V: Copy,
        requires
            inner@.len() == outer@.len(),
            old(self).vertices_spec().len() + 2 * inner@.len() + 2 <= u32::MAX,
        ensures
            old(self).appended(
                *final(self),
                interleaved(inner@, outer@),
                if inner@.len() == 0 {
                    Seq::empty()
                } else {
                    strip_indices(
                        old(self).vertices_spec().len() as int,
                        inner@.len() - 1,
                        false,
                    )
                },
            ),
            old(self).well_formed() ==> final(self).well_formed(),
            old(self).refers_to_own(*final(self), (2 * inner@.len()) as int),
    {
        self.allocated = true;
        let start = self.vertices.len() as u32;
        let ghost old_indices = self.indices@;
        self.push_pairs(inner, outer);
        let n = inner.len();
        if n == 0 {
            assert(self.indices@ =~= old_indices + Seq::<u32>::empty());
            return;
        }
        self.push_ring_strip_indices(start, n - 1, false);
        proof {
            let f = strip_indices(start as int, n - 1, false);
            assert forall|k: int| 0 <= k < f.len() implies #[trigger] f[k] < start + 2 * n by {
                assert(k / 6 < n - 1);
            }
            if indices_in_bounds(old_indices, start as int) {
                lemma_append_in_bounds(old_indices, f, start as int, start + 2 * n);
            }
        }
    }

    /// Appends the indices of a closed ring over `n` interleaved
    /// `(outer, inner)` pairs from `start` on.
    fn push_ring_indices(&mut self, start: u32, n: usize)
        requires
            n >= 1,
            start + 2 * n <= u32::MAX,
        ensures
            final(self).indices_spec() == old(self).indices_spec() + ring_indices(
                start as int,
                n as int,
            ),
            final(self).vertices_spec() == old(self).vertices_spec(),
            final(self).is_allocated() == old(self).is_allocated(),
    {
        let ghost old_indices = self.indices@;
        let ghost f = |k: int| ring_index(start as int, n as int, k) as u32;
        let mut i: usize = 0;
        while i < n
            invariant
                0 <= i <= n,
                n >= 1,
                start + 2 * n <= u32::MAX,
                f == (|k: int| ring_index(start as int, n as int, k) as u32),
                self.indices@ == old_indices + Seq::new((6 * i) as nat, f),
                self.vertices@ == old(self).vertices@,
                self.allocated == old(self).allocated,
            decreases n - i,
        {
            let current = i as u32;
            let next = ((i + 1) % n) as u32;
            proof {
                vstd::arithmetic::div_mod::lemma_mod_bound((i + 1) as int, n as int);
            }
            let outer_curr = start + current * 2;
            let inner_curr = start + current * 2 + 1;
            let outer_next = start + next * 2;
            let inner_next = start + next * 2 + 1;
            self.indices.push(outer_curr);
            self.indices.push(outer_next);
            self.indices.push(inner_curr);
            self.indices.push(inner_curr);
            self.indices.push(outer_next);
            self.indices.push(inner_next);
            proof {
                lemma_extend_block(Seq::new((6 * i) as nat, f), f, i as int, 6);
                lemma_block_position(i as int, 0, 6);
                lemma_block_position(i as int, 1, 6);
                lemma_block_position(i as int, 2, 6);
                lemma_block_position(i as int, 3, 6);
                lemma_block_position(i as int, 4, 6);
                lemma_block_position(i as int, 5, 6);
                assert(Seq::new(6, |j: int| f(6 * i + j)) =~= seq![
                    outer_curr,
                    outer_next,
                    inner_curr,
                    inner_curr,
                    outer_next,
                    inner_next,
                ]);
                assert(self.indices@ =~= old_indices + Seq::new((6 * i + 6) as nat, f));
            }
            i = i + 1;
        }
        assert(Seq::new((6 * n) as nat, f) =~= ring_indices(start as int, n as int));
    }

    /// Writes a thick ring between two polygon boundaries: `outer[i]` and
    /// `inner[i]` are matching corners, and each neighbouring pair of corners
    /// is laced into a quad, the last joining back to the first (used for
    /// stroking convex polygons). Fewer than three corners, or boundaries of
    /// different lengths, write nothing.
    pub fn draw_ring(&mut self, outer: &[V], inner: &[V])
        where
            V: Copy,
        requires
            old(self).vertices_spec().len() + 2 * outer@.len() <= u32::MAX,
        ensures
            outer@.len() < 3 || inner@.len() != outer@.len() ==> *final(self) == *old(self),
            outer@.len() >= 3 && inner@.len() == outer@.len() ==> old(self).appended(
                *final(self),
                interleaved(outer@, inner@),
                ring_indices(old(self).vertices_spec().len() as int, outer@.len() as int),
            ),
            old(self).well_formed() ==> final(self).well_formed(),
            old(self).refers_to_own(*final(self), (2 * outer@.len()) as int),
    {
        let n = outer.len();
        if n < 3 || inner.len() != n {
            return;
        }
        self.allocated = true;
        let start = self.vertices.len() as u32;
        let ghost old_indices = self.indices@;
        self.push_pairs(outer, inner);
        self.push_ring_indices(start, n);
        proof {
            let f = ring_indices(start as int, n as int);
            assert forall|k: int| 0 <= k < f.len() implies #[trigger] f[k] < start + 2 * n by {
                let i = k / 6;
                assert(i < n);
                vstd::arithmetic::div_mod::lemma_mod_bound(i + 1, n as int);
            }
            if indices_in_bounds(old_indices, start as int) {
                lemma_append_in_bounds(old_indices, f, start as int, start + 2 * n);
            }
        }
    }

    /// Appends one vertex and returns its index (used by writers that build
    /// geometry vertex by vertex).
    pub fn add_vertex(&mut self, vertex: V) -> (id: u32)
        requires
            old(self).vertices_spec().len() < u32::MAX,
        ensures
            id == old(self).vertices_spec().len(),
            old(self).appended(*final(self), seq![vertex], Seq::empty()),
            old(self).well_formed() ==> final(self).well_formed(),
    {
        self.allocated = true;
        let id = self.vertices.len() as u32;
        self.vertices.push(vertex);
        assert(self.vertices@ =~= old(self).vertices@ + seq![vertex]);
        assert(self.indices@ =~= old(self).indices@ + Seq::<u32>::empty());
        id
    }

    /// Appends one triangle over vertices already in the mesh.
    pub fn add_triangle(&mut self, a: u32, b: u32, c: u32)
        ensures
            old(self).appended(*final(self), Seq::empty(), seq![a, b, c]),
            old(self).well_formed() && a < old(self).vertices_spec().len() && b < old(
                self,
            ).vertices_spec().len() && c < old(self).vertices_spec().len()
                ==> final(self).well_formed(),
    {
        self.allocated = true;
        self.indices.push(a);
        self.indices.push(b);
        self.indices.push(c);
        assert(self.vertices@ =~= old(self).vertices@ + Seq::<V>::empty());
        assert(self.indices@ =~= old(self).indices@ + seq![a, b, c]);
        proof {
            let n = self.vertices@.len() as int;
            if indices_in_bounds(old(self).indices@, n) && a < n && b < n && c < n {
                lemma_append_in_bounds(old(self).indices@, seq![a, b, c], n, n);
            }
        }
    }
}

/// A mesh with a soft limit on its number of vertices, handed to the renderer
/// as a whole.
pub struct MeshBuffer<V> {
    mesh: MeshData<V>,
    vertex_limit: usize,
}

impl<V> MeshBuffer<V> {
    /// The mesh held by the buffer.
    pub closed spec fn mesh_spec(&self) -> MeshData<V> {
        self.mesh
    }

    /// The soft vertex limit the buffer was made with.
    pub closed spec fn limit_spec(&self) -> usize {
        self.vertex_limit
    }

    /// An empty buffer with the given soft vertex limit.
    pub fn new(vertex_limit: usize) -> (b: Self)
        ensures
            b.limit_spec() == vertex_limit,
            b.mesh_spec().vertices_spec() == Seq::<V>::empty(),
            b.mesh_spec().indices_spec() == Seq::<u32>::empty(),
            !b.mesh_spec().is_allocated(),
    {
        MeshBuffer { mesh: MeshData::new(), vertex_limit }
    }

    /// The number of vertices currently held.
    pub fn vertices_count(&self) -> (n: usize)
        ensures
            n == self.mesh_spec().vertices_spec().len(),
    {
        self.mesh.vertices_count()
    }

    /// The soft vertex limit.
    pub fn limit(&self) -> (n: usize)
        ensures
            n == self.limit_spec(),
    {
        self.vertex_limit
    }

    /// The mesh, to write shapes into.
    pub fn mesh_mut(&mut self) -> (m: &mut MeshData<V>)
        ensures
            *m == old(self).mesh_spec(),
            final(self).mesh_spec() == *final(m),
            final(self).limit_spec() == old(self).limit_spec(),
    {
        &mut self.mesh
    }

    /// Appends raw geometry, as [`MeshData::add`].
    pub fn add(&mut self, indices: &[u32], vertices: &[V])
        where
            V: Copy,
        requires
            old(self).mesh_spec().vertices_spec().len() <= u32::MAX,
            forall|k: int|
                0 <= k < indices@.len() ==> indices@[k] + old(
                    self,
                ).mesh_spec().vertices_spec().len() <= u32::MAX,
        ensures
            old(self).mesh_spec().appended(
                final(self).mesh_spec(),
                vertices@,
                shifted(indices@, old(self).mesh_spec().vertices_spec().len() as int),
            ),
            final(self).limit_spec() == old(self).limit_spec(),
            old(self).mesh_spec().well_formed() && indices_in_bounds(
                indices@,
                vertices@.len() as int,
            ) ==> final(self).mesh_spec().well_formed(),
    {
        self.mesh.add(indices, vertices);
    }

    /// Takes the held geometry out for drawing, leaving the buffer empty.
    ///
    /// Geometry without any triangle is dropped rather than returned: there
    /// is nothing to draw.
    pub fn take_for_render(&mut self) -> (r: Option<Indexed<V>>)
        ensures
            r is Some <==> old(self).mesh_spec().is_allocated() && old(
                self,
            ).mesh_spec().indices_spec().len() > 0,
            r matches Some(m) ==> m.vertices@ == old(self).mesh_spec().vertices_spec()
                && m.indices@ == old(self).mesh_spec().indices_spec(),
            final(self).mesh_spec().vertices_spec() == Seq::<V>::empty(),
            final(self).mesh_spec().indices_spec() == Seq::<u32>::empty(),
            !final(self).mesh_spec().is_allocated(),
            final(self).limit_spec() == old(self).limit_spec(),
    {
        let mut mesh = MeshData::new();
        std::mem::swap(&mut mesh, &mut self.mesh);
        match mesh.into_mesh() {
            Some(m) => {
                if m.indices.len() == 0 {
                    None
                } else {
                    Some(m)
                }
            },
            None => None,
        }
    }
}


/// Writes the basic shapes into a mesh from vertices the caller has already
/// placed; each method is the [`MeshData`] method of the same name.
#[derive(Clone, Copy, Default)]
pub struct ManualTessellator;

impl ManualTessellator {
    /// A filled quad, as [`MeshData::draw_fill_rect`].
    pub fn draw_fill_rect<V: Copy>(&self, buffer: &mut MeshData<V>, corners: [V; 4])
        requires
            old(buffer).vertices_spec().len() + 4 <= u32::MAX,
        ensures
            old(buffer).appended(
                *final(buffer),
                corners@,
                shifted(quad_offsets(), old(buffer).vertices_spec().len() as int),
            ),
            old(buffer).well_formed() ==> final(buffer).well_formed(),
            old(buffer).refers_to_own(*final(buffer), 4),
    {
        buffer.draw_fill_rect(corners);
    }

    /// A hollow quad, as [`MeshData::draw_stroke_rect`].
    pub fn draw_stroke_rect<V: Copy>(&self, buffer: &mut MeshData<V>, outer: [V; 4], inner: [V; 4])
        requires
            old(buffer).vertices_spec().len() + 8 <= u32::MAX,
        ensures
            old(buffer).appended(
                *final(buffer),
                outer@ + inner@,
                shifted(stroke_rect_offsets(), old(buffer).vertices_spec().len() as int),
            ),
            old(buffer).well_formed() ==> final(buffer).well_formed(),
            old(buffer).refers_to_own(*final(buffer), 8),
    {
        buffer.draw_stroke_rect(outer, inner);
    }

    /// A filled ellipse, as [`MeshData::draw_fill_circle`].
    pub fn draw_fill_circle<V: Copy>(&self, buffer: &mut MeshData<V>, center: V, rim: &[V])
        requires
            old(buffer).vertices_spec().len() + rim@.len() + 1 <= u32::MAX,
        ensures
            old(buffer).appended(
                *final(buffer),
                seq![center] + rim@,
                wheel_indices(old(buffer).vertices_spec().len() as int, rim@.len() as int),
            ),
            old(buffer).well_formed() ==> final(buffer).well_formed(),
            old(buffer).refers_to_own(*final(buffer), (rim@.len() + 1) as int),
    {
        buffer.draw_fill_circle(center, rim);
    }

    /// The outline of an ellipse, as [`MeshData::draw_stroke_circle`].
    pub fn draw_stroke_circle<V: Copy>(&self, buffer: &mut MeshData<V>, inner: &[V], outer: &[V])
        requires
            inner@.len() == outer@.len(),
            old(buffer).vertices_spec().len() + 2 * inner@.len() + 2 <= u32::MAX,
        ensures
            old(buffer).appended(
                *final(buffer),
                interleaved(inner@, outer@),
                strip_indices(old(buffer).vertices_spec().len() as int, inner@.len() as int, true),
            ),
            old(buffer).well_formed() ==> final(buffer).well_formed(),
            old(buffer).refers_to_own(*final(buffer), (2 * inner@.len()) as int),
    {
        buffer.draw_stroke_circle(inner, outer);
    }

    /// A filled triangle, as [`MeshData::draw_fill_triangle`].
    pub fn draw_fill_triangle<V: Copy>(&self, buffer: &mut MeshData<V>, points: [V; 3])
        requires
            old(buffer).vertices_spec().len() + 3 <= u32::MAX,
        ensures
            old(buffer).appended(
                *final(buffer),
                points@,
                shifted(triangle_offsets(), old(buffer).vertices_spec().len() as int),
            ),
            old(buffer).well_formed() ==> final(buffer).well_formed(),
            old(buffer).refers_to_own(*final(buffer), 3),
    {
        buffer.draw_fill_triangle(points[0], points[1], points[2]);
        assert(seq![points[0], points[1], points[2]] =~= points@);
    }

    /// A triangle band, as [`MeshData::draw_stroke_triangle`].
    pub fn draw_stroke_triangle<V: Copy>(
        &self,
        buffer: &mut MeshData<V>,
        outer: [V; 3],
        inner: [V; 3],
    )
        requires
            old(buffer).vertices_spec().len() + 6 <= u32::MAX,
        ensures
            old(buffer).appended(
                *final(buffer),
                outer@ + inner@,
                shifted(stroke_triangle_offsets(), old(buffer).vertices_spec().len() as int),
            ),
            old(buffer).well_formed() ==> final(buffer).well_formed(),
            old(buffer).refers_to_own(*final(buffer), 6),
    {
        buffer.draw_stroke_triangle(outer, inner);
    }

    /// A convex polygon, as [`MeshData::draw_fan`].
    pub fn draw_fan<V: Copy>(&self, buffer: &mut MeshData<V>, points: &[V])
        requires
            old(buffer).vertices_spec().len() + points@.len() <= u32::MAX,
        ensures
            points@.len() < 3 ==> *final(buffer) == *old(buffer),
            points@.len() >= 3 ==> old(buffer).appended(
                *final(buffer),
                points@,
                fan_indices(old(buffer).vertices_spec().len() as int, points@.len() as int),
            ),
            old(buffer).well_formed() ==> final(buffer).well_formed(),
            old(buffer).refers_to_own(*final(buffer), points@.len() as int),
    {
        buffer.draw_fan(points);
    }

    /// A closed band between two outlines, as [`MeshData::draw_ring`].
    pub fn draw_ring<V: Copy>(&self, buffer: &mut MeshData<V>, outer: &[V], inner: &[V])
        requires
            old(buffer).vertices_spec().len() + 2 * outer@.len() <= u32::MAX,
        ensures
            outer@.len() < 3 || inner@.len() != outer@.len() ==> *final(buffer) == *old(buffer),
            outer@.len() >= 3 && inner@.len() == outer@.len() ==> old(buffer).appended(
                *final(buffer),
                interleaved(outer@, inner@),
                ring_indices(old(buffer).vertices_spec().len() as int, outer@.len() as int),
            ),
            old(buffer).well_formed() ==> final(buffer).well_formed(),
            old(buffer).refers_to_own(*final(buffer), (2 * outer@.len()) as int),
    {
        buffer.draw_ring(outer, inner);
    }

    /// An open band along an arc, as [`MeshData::draw_arc_strip`].
    pub fn draw_arc_strip<V: Copy>(&self, buffer: &mut MeshData<V>, inner: &[V], outer: &[V])
        requires
            inner@.len() == outer@.len(),
            old(buffer).vertices_spec().len() + 2 * inner@.len() + 2 <= u32::MAX,
        ensures
            old(buffer).appended(
                *final(buffer),
                interleaved(inner@, outer@),
                if inner@.len() == 0 {
                    Seq::empty()
                } else {
                    strip_indices(
                        old(buffer).vertices_spec().len() as int,
                        inner@.len() - 1,
                        false,
                    )
                },
            ),
            old(buffer).well_formed() ==> final(buffer).well_formed(),
            old(buffer).refers_to_own(*final(buffer), (2 * inner@.len()) as int),
    {
        buffer.draw_arc_strip(inner, outer);
    }
}

/// A closed ring is local and placed where it is written: each index of a
/// ring over `n` vertex pairs written from vertex `start` on names one of the
/// ring's own `2 n` vertices, and is the index the same ring gets on an
/// empty mesh, moved on by `start`.
pub proof fn lemma_ring_local(start: int, n: int)
    requires
        n >= 1,
        0 <= start,
        start + 2 * n <= u32::MAX,
    ensures
        ring_indices(start, n).len() == 6 * n,
        forall|k: int|
            0 <= k < 6 * n ==> start <= #[trigger] ring_indices(start, n)[k] < start + 2 * n,
        forall|k: int|
            0 <= k < 6 * n ==> #[trigger] ring_indices(start, n)[k] == ring_indices(0, n)[k] + start,
{
    assert forall|k: int| 0 <= k < 6 * n implies start <= #[trigger] ring_indices(start, n)[k] < start
        + 2 * n && ring_indices(start, n)[k] == ring_indices(0, n)[k] + start by {
        let i = k / 6;
        assert(0 <= i < n);
        vstd::arithmetic::div_mod::lemma_mod_bound(i + 1, n);
        let m = (i + 1) % n;
        assert(0 <= m < n);
        assert(0 <= ring_index(0, n, k) < 2 * n);
        assert(ring_index(start, n, k) == ring_index(0, n, k) + start);
    }
}

/// A strip is local and placed where it is written: each index of a strip of
/// `count` quads over vertex pairs from vertex `start` on names one of the
/// strip's own vertices (its `2 count` when closed, one more pair when open),
/// and is the index the same strip gets on an empty mesh, moved on by `start`.
pub proof fn lemma_strip_local(start: int, count: int, wrap: bool)
    requires
        count >= 0,
        0 <= start,
        start + 2 * count + 2 <= u32::MAX,
    ensures
        strip_indices(start, count, wrap).len() == 6 * count,
        forall|k: int|
            0 <= k < 6 * count ==> start <= #[trigger] strip_indices(start, count, wrap)[k] < start
                + 2 * count + if wrap {
                0int
            } else {
                2int
            },
        forall|k: int|
            0 <= k < 6 * count ==> #[trigger] strip_indices(start, count, wrap)[k] == strip_indices(
                0,
                count,
                wrap,
            )[k] + start,
{
    assert forall|k: int| 0 <= k < 6 * count implies start <= #[trigger] strip_indices(
        start,
        count,
        wrap,
    )[k] < start + 2 * count + (if wrap {
        0int
    } else {
        2int
    }) && strip_indices(start, count, wrap)[k] == strip_indices(0, count, wrap)[k] + start by {
        let i = k / 6;
        assert(0 <= i < count);
        vstd::arithmetic::div_mod::lemma_mod_bound(i + 1, count);
        assert(0 <= strip_index(0, count, wrap, k) < 2 * count + if wrap {
            0int
        } else {
            2int
        });
        assert(strip_index(start, count, wrap, k) == strip_index(0, count, wrap, k) + start);
    }
}

/// A closed fan around a hub is local and placed where it is written: each
/// index of a wheel with `n` rim vertices written from vertex `start` on
/// names the hub or one of its rim vertices, and is the index the same wheel
/// gets on an empty mesh, moved on by `start`.
pub proof fn lemma_wheel_local(start: int, n: int)
    requires
        n >= 1,
        0 <= start,
        start + n + 1 <= u32::MAX,
    ensures
        forall|k: int|
            0 <= k < 3 * n ==> start <= #[trigger] wheel_indices(start, n)[k] < start + n + 1,
        forall|k: int|
            0 <= k < 3 * n ==> #[trigger] wheel_indices(start, n)[k] == wheel_indices(0, n)[k] + start,
{
    assert forall|k: int| 0 <= k < 3 * n implies start <= #[trigger] wheel_indices(start, n)[k] < start
        + n + 1 && wheel_indices(start, n)[k] == wheel_indices(0, n)[k] + start by {
        let i = k / 3;
        assert(0 <= i < n);
        vstd::arithmetic::div_mod::lemma_mod_bound(i + 1, n);
        assert(0 <= wheel_index(0, n, k) < n + 1);
        assert(wheel_index(start, n, k) == wheel_index(0, n, k) + start);
    }
}

/// A triangle fan is local and placed where it is written: each index of a
/// fan over `n` vertices written from vertex `start` on names one of those
/// vertices, and is the index the same fan gets on an empty mesh, moved on by
/// `start`; every triangle starts at the hub.
pub proof fn lemma_fan_local(start: int, n: int)
    requires
        n >= 3,
        0 <= start,
        start + n <= u32::MAX,
    ensures
        forall|k: int|
            0 <= k < 3 * (n - 2) ==> start <= #[trigger] fan_indices(start, n)[k] < start + n,
        forall|k: int|
            0 <= k < 3 * (n - 2) ==> #[trigger] fan_indices(start, n)[k] == fan_indices(0, n)[k]
                + start,
        forall|t: int| 0 <= t < n - 2 ==> #[trigger] fan_indices(start, n)[3 * t] == start,
{
    assert forall|k: int| 0 <= k < 3 * (n - 2) implies start <= #[trigger] fan_indices(start, n)[k]
        < start + n && fan_indices(start, n)[k] == fan_indices(0, n)[k] + start by {
        assert(0 <= k / 3 < n - 2);
    }
    assert forall|t: int| 0 <= t < n - 2 implies #[trigger] fan_indices(start, n)[3 * t] == start by {
        assert((3 * t) % 3 == 0);
    }
}

} // verus!
