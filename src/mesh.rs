use vstd::prelude::*;

use crate::geometry::Triangle;
use crate::triangulator::{
    cell_resolvable, cell_triangles, lemma_cell_triangle_indices, stitch_cell, Coord, Pattern,
    VertexResolver,
};

verus! {

/// The composite sort key of a voxel: `x` in the low 16 bits, then `y`,
/// then `z`; ordering by it sweeps `z` slowest and `x` fastest.
pub open spec fn sort_key(c: Coord) -> int {
    c.0 + c.1 * 0x1_0000 + c.2 * 0x1_0000_0000
}

pub proof fn lemma_sort_key_injective(a: Coord, b: Coord)
    requires
        sort_key(a) == sort_key(b),
    ensures
        a == b,
{
    let (ax, ay, az) = (a.0 as u64, a.1 as u64, a.2 as u64);
    let (bx, by, bz) = (b.0 as u64, b.1 as u64, b.2 as u64);
    assert(ax < 0x1_0000 && ay < 0x1_0000 && az < 0x1_0000);
    assert(bx < 0x1_0000 && by < 0x1_0000 && bz < 0x1_0000);
    assert(ax + ay * 0x1_0000 + az * 0x1_0000_0000 == bx + by * 0x1_0000 + bz * 0x1_0000_0000);
    assert(ax == bx && ay == by && az == bz) by (bit_vector)
        requires
            ax < 0x1_0000 && ay < 0x1_0000 && az < 0x1_0000,
            bx < 0x1_0000 && by < 0x1_0000 && bz < 0x1_0000,
            ax + ay * 0x1_0000 + az * 0x1_0000_0000 == bx + by * 0x1_0000 + bz * 0x1_0000_0000,
    ;
}

/// One voxel's record in the streaming strategy.
pub struct VertexListItem<V> {
    pub cell: Coord,
    pub sign_changes: Pattern,
    pub vertex: V,
}

impl<V> VertexListItem<V> {
    pub fn index(&self) -> (r: u64)
        ensures
            r == sort_key(self.cell),
    {
        Self::compute_index(self.cell.0, self.cell.1, self.cell.2)
    }

    pub fn compute_index(x: u16, y: u16, z: u16) -> (r: u64)
        ensures
            r == sort_key((x, y, z)),
    {
        let (x64, y64, z64) = (x as u64, y as u64, z as u64);
        let r = x64 | (y64 << 16u64) | (z64 << 32u64);
        assert(r == x64 + y64 * 0x1_0000 + z64 * 0x1_0000_0000) by (bit_vector)
            requires
                x64 < 0x1_0000 && y64 < 0x1_0000 && z64 < 0x1_0000,
                r == x64 | (y64 << 16u64) | (z64 << 32u64),
        ;
        r
    }
}

/// Whether the records' sort keys strictly increase.
pub open spec fn keys_increasing<V>(s: Seq<VertexListItem<V>>) -> bool {
    forall|i: int, j: int|
        0 <= i < j < s.len() ==> sort_key(#[trigger] s[i].cell) < sort_key(#[trigger] s[j].cell)
}

/// Whether some record is for the voxel `c`.
pub open spec fn list_contains<V>(s: Seq<VertexListItem<V>>, c: Coord) -> bool {
    exists|i: int| 0 <= i < s.len() && #[trigger] s[i].cell == c
}

/// The position of the record for `c`, which is the index of its vertex.
pub open spec fn list_index<V>(s: Seq<VertexListItem<V>>, c: Coord) -> u32 {
    (choose|i: int| 0 <= i < s.len() && #[trigger] s[i].cell == c) as u32
}

pub open spec fn list_present<V>(s: Seq<VertexListItem<V>>) -> spec_fn(Coord) -> bool {
    |c: Coord| list_contains(s, c)
}

pub open spec fn list_resolver<V>(s: Seq<VertexListItem<V>>) -> spec_fn(Coord) -> u32 {
    |c: Coord| list_index(s, c)
}

/// Whether every quad that a record stitches finds all its voxels.
pub open spec fn list_resolvable<V>(s: Seq<VertexListItem<V>>) -> bool {
    forall|i: int|
        0 <= i < s.len() ==> cell_resolvable(
            list_present(s),
            #[trigger] s[i].cell,
            s[i].sign_changes,
        )
}

/// The triangles stitched by the first `n` records, in record order.
pub open spec fn list_triangles_upto<V>(s: Seq<VertexListItem<V>>, n: int) -> Seq<Triangle<u32>>
    decreases n,
{
    if n <= 0 {
        seq![]
    } else {
        list_triangles_upto(s, n - 1) + cell_triangles(
            list_resolver(s),
            s[n - 1].cell,
            s[n - 1].sign_changes,
        )
    }
}

pub open spec fn list_triangles<V>(s: Seq<VertexListItem<V>>) -> Seq<Triangle<u32>> {
    list_triangles_upto(s, s.len() as int)
}

/// The voxel of each record.
pub open spec fn item_cells<V>(s: Seq<VertexListItem<V>>) -> Seq<Coord> {
    s.map_values(|it: VertexListItem<V>| it.cell)
}

pub open spec fn list_vertices<V>(s: Seq<VertexListItem<V>>) -> Seq<V> {
    s.map_values(|it: VertexListItem<V>| it.vertex)
}

/// With increasing keys, the record found for a voxel is the only one.
pub proof fn lemma_list_index_unique<V>(s: Seq<VertexListItem<V>>, i: int)
    requires
        keys_increasing(s),
        0 <= i < s.len(),
    ensures
        list_contains(s, s[i].cell),
        list_index(s, s[i].cell) == i as u32,
{
    let c = s[i].cell;
    assert(s[i].cell == c);
    let j = choose|j: int| 0 <= j < s.len() && #[trigger] s[j].cell == c;
    if j != i {
        if j < i {
            assert(sort_key(s[j].cell) < sort_key(s[i].cell));
        } else {
            assert(sort_key(s[i].cell) < sort_key(s[j].cell));
        }
    }
}

/// The streaming vertex accumulator: records appended in increasing
/// sort-key order, looked up by binary search.
pub struct VertexList<V>(pub Vec<VertexListItem<V>>);

impl<V> Default for VertexList<V> {
    fn default() -> (r: Self)
        ensures
            r.wf(),
            r.0@.len() == 0,
    {
        VertexList(Vec::new())
    }
}

impl<V> VertexList<V> {
    pub open spec fn wf(&self) -> bool {
        keys_increasing(self.0@) && self.0@.len() <= u32::MAX
    }

    pub fn with_capacity(capacity: usize) -> (r: Self)
        ensures
            r.wf(),
            r.0@.len() == 0,
    {
        VertexList(Vec::with_capacity(capacity))
    }

    /// Whether a record for `cell` may be appended next.
    pub fn can_insert(&self, cell: Coord) -> (r: bool)
        requires
            self.wf(),
        ensures
            r == (self.0@.len() < u32::MAX && (self.0@.len() == 0 || sort_key(self.0@.last().cell)
                < sort_key(cell))),
    {
        let n = self.0.len();
        if n >= 0xffff_ffffusize {
            return false;
        }
        n == 0 || self.0[n - 1].index() < VertexListItem::<V>::compute_index(cell.0, cell.1, cell.2)
    }

    pub fn insert(&mut self, cell: Coord, sign_changes: Pattern, vertex: V)
        requires
            old(self).wf(),
            old(self).0@.len() < u32::MAX,
            old(self).0@.len() == 0 || sort_key(old(self).0@.last().cell) < sort_key(cell),
        ensures
            final(self).wf(),
            final(self).0@ == old(self).0@.push(VertexListItem { cell, sign_changes, vertex }),
    {
        self.0.push(VertexListItem { cell, sign_changes, vertex });
        assert(keys_increasing(self.0@)) by {
            assert forall|i: int, j: int| 0 <= i < j < self.0@.len() implies sort_key(
                #[trigger] self.0@[i].cell,
            ) < sort_key(#[trigger] self.0@[j].cell) by {
                if j == self.0@.len() - 1 && i < j - 1 {
                    assert(sort_key(old(self).0@[i].cell) < sort_key(
                        old(self).0@[old(self).0@.len() - 1].cell,
                    ));
                }
            }
        }
    }

    pub fn len(&self) -> (r: usize)
        ensures
            r == self.0@.len(),
    {
        self.0.len()
    }

    pub fn is_empty(&self) -> (r: bool)
        ensures
            r == (self.0@.len() == 0),
    {
        self.len() == 0
    }

    pub fn fetch_vertices(&self) -> (r: Vec<V>) where V: Copy
        ensures
            r@ == list_vertices(self.0@),
    {
        let mut vertices: Vec<V> = Vec::with_capacity(self.len());
        let mut i: usize = 0;
        while i < self.0.len()
            invariant
                i <= self.0@.len(),
                vertices@ == list_vertices(self.0@.take(i as int)),
            decreases self.0@.len() - i,
        {
            vertices.push(self.0[i].vertex);
            assert(self.0@.take(i as int + 1) == self.0@.take(i as int).push(self.0@[i as int]));
            i += 1;
        }
        assert(self.0@.take(i as int) == self.0@);
        vertices
    }

    /// The index of the vertex recorded for the voxel `(x, y, z)`, if any.
    fn vertex_index(&self, x: u16, y: u16, z: u16) -> (r: Option<u32>)
        requires
            self.wf(),
        ensures
            r is Some <==> list_contains(self.0@, (x, y, z)),
            r is Some ==> r->0 == list_index(self.0@, (x, y, z)),
    {
        let target = VertexListItem::<V>::compute_index(x, y, z);
        let mut lo: usize = 0;
        let mut hi: usize = self.0.len();
        while lo < hi
            invariant
                self.wf(),
                target == sort_key((x, y, z)),
                lo <= hi <= self.0@.len(),
                forall|i: int| 0 <= i < lo ==> sort_key(#[trigger] self.0@[i].cell) < target,
                forall|i: int|
                    hi <= i < self.0@.len() ==> sort_key(#[trigger] self.0@[i].cell) > target,
            decreases hi - lo,
        {
            let mid = lo + (hi - lo) / 2;
            let k = self.0[mid].index();
            if k == target {
                proof {
                    lemma_sort_key_injective(self.0@[mid as int].cell, (x, y, z));
                    lemma_list_index_unique(self.0@, mid as int);
                }
                return Some(mid as u32);
            } else if k < target {
                lo = mid + 1;
            } else {
                hi = mid;
            }
        }
        proof {
            if list_contains(self.0@, (x, y, z)) {
                let i = choose|i: int| 0 <= i < self.0@.len() && #[trigger] self.0@[i].cell == (
                x,
                y,
                z,
                );
                assert(sort_key(self.0@[i].cell) == target);
            }
        }
        None
    }

    /// The triangles stitched from all records, as vertex-index triples;
    /// `None` where a quad needs a voxel that has no record.
    #[verifier::rlimit(30)]
    pub fn fetch_triangle_indices(&self) -> (r: Option<Vec<Triangle<u32>>>)
        requires
            self.wf(),
        ensures
            r is Some <==> list_resolvable(self.0@),
            r is Some ==> r->0@ == list_triangles(self.0@),
    {
        let mut indices: Vec<Triangle<u32>> = Vec::with_capacity(self.0.len());
        let mut i: usize = 0;
        while i < self.0.len()
            invariant
                self.wf(),
                i <= self.0@.len(),
                indices@ == list_triangles_upto(self.0@, i as int),
                forall|j: int|
                    0 <= j < i ==> cell_resolvable(
                        list_present(self.0@),
                        #[trigger] self.0@[j].cell,
                        self.0@[j].sign_changes,
                    ),
            decreases self.0@.len() - i,
        {
            let c = self.0[i].cell;
            let p = self.0[i].sign_changes;
            if !stitch_cell(self, c, p, &mut indices) {
                assert(self.0@[i as int].cell == c);
                return None;
            }
            assert(list_triangles_upto(self.0@, i + 1) == list_triangles_upto(self.0@, i as int)
                + cell_triangles(list_resolver(self.0@), c, p));
            i += 1;
        }
        assert(list_resolvable(self.0@));
        Some(indices)
    }
}

impl<V> VertexResolver for VertexList<V> {
    open spec fn inv(&self) -> bool {
        self.wf()
    }

    open spec fn present(&self) -> spec_fn(Coord) -> bool {
        list_present(self.0@)
    }

    open spec fn resolver(&self) -> spec_fn(Coord) -> u32 {
        list_resolver(self.0@)
    }

    fn resolve(&self, c: Coord) -> (r: Option<u32>) {
        self.vertex_index(c.0, c.1, c.2)
    }
}

/// Every index that a resolvable record sequence stitches is the index of
/// one of its vertices.
pub proof fn lemma_list_triangle_indices<V>(s: Seq<VertexListItem<V>>, n: int)
    requires
        keys_increasing(s),
        list_resolvable(s),
        0 <= n <= s.len(),
    ensures
        forall|k: int|
            0 <= k < list_triangles_upto(s, n).len() ==> {
                let t = #[trigger] list_triangles_upto(s, n)[k];
                t.0 < s.len() && t.1 < s.len() && t.2 < s.len()
            },
    decreases n,
{
    if n > 0 {
        lemma_list_triangle_indices(s, n - 1);
        assert forall|d: Coord| #[trigger] list_present(s)(d) implies list_resolver(s)(d) < s.len() by {
            let i = choose|i: int| 0 <= i < s.len() && #[trigger] s[i].cell == d;
            lemma_list_index_unique(s, i);
        }
        assert(cell_resolvable(list_present(s), s[n - 1].cell, s[n - 1].sign_changes));
        lemma_cell_triangle_indices(
            list_present(s),
            list_resolver(s),
            s.len() as int,
            s[n - 1].cell,
            s[n - 1].sign_changes,
        );
        let a = list_triangles_upto(s, n - 1);
        let b = cell_triangles(list_resolver(s), s[n - 1].cell, s[n - 1].sign_changes);
        assert(list_triangles_upto(s, n) == a + b);
        assert forall|k: int| 0 <= k < (a + b).len() implies {
            let t = #[trigger] (a + b)[k];
            t.0 < s.len() && t.1 < s.len() && t.2 < s.len()
        } by {
            if k < a.len() {
                assert((a + b)[k] == a[k]);
            } else {
                assert((a + b)[k] == b[k - a.len()]);
            }
        }
    }
}

/// Whether every index of every triangle is below `n`.
pub open spec fn indices_below(t: Seq<Triangle<u32>>, n: int) -> bool {
    forall|k: int|
        0 <= k < t.len() ==> (#[trigger] t[k]).0 < n && t[k].1 < n && t[k].2 < n
}

/// Each index triple replaced by the vertices it names.
pub open spec fn triangles_of<V: Copy>(t: Seq<Triangle<u32>>, v: Seq<V>) -> Seq<Triangle<V>> {
    t.map_values(|x: Triangle<u32>| Triangle(v[x.0 as int], v[x.1 as int], v[x.2 as int]))
}

/// The triangles named by `indices`, each with its vertices copied out of
/// `vertices`.
pub fn triangles_from_indices<V: Copy>(indices: &Vec<Triangle<u32>>, vertices: &Vec<V>) -> (r: Vec<
    Triangle<V>,
>)
    requires
        indices_below(indices@, vertices@.len() as int),
    ensures
        r@ == triangles_of(indices@, vertices@),
{
    let mut triangles: Vec<Triangle<V>> = Vec::with_capacity(indices.len());
    let mut i: usize = 0;
    while i < indices.len()
        invariant
            i <= indices@.len(),
            indices_below(indices@, vertices@.len() as int),
            triangles@ == triangles_of(indices@.take(i as int), vertices@),
        decreases indices@.len() - i,
    {
        let t = indices[i];
        assert(indices@[i as int] == t);
        assert(t.0 < vertices@.len() && t.1 < vertices@.len() && t.2 < vertices@.len());
        triangles.push(
            Triangle(vertices[t.0 as usize], vertices[t.1 as usize], vertices[t.2 as usize]),
        );
        assert(indices@.take(i as int + 1) == indices@.take(i as int).push(t));
        i += 1;
    }
    assert(indices@.take(i as int) == indices@);
    triangles
}

/// The finished mesh: a vertex list and index triples into it.
pub struct TriangleMesh<V> {
    pub vertices: Vec<V>,
    pub triangle_indices: Vec<Triangle<u32>>,
}

impl<V> Default for TriangleMesh<V> {
    fn default() -> (r: Self)
        ensures
            r.vertices@.len() == 0,
            r.triangle_indices@.len() == 0,
    {
        TriangleMesh { vertices: Vec::new(), triangle_indices: Vec::new() }
    }
}

impl<V> TriangleMesh<V> {
    /// Whether every index names a vertex of the mesh.
    pub open spec fn wf(&self) -> bool {
        indices_below(self.triangle_indices@, self.vertices@.len() as int)
    }

    pub fn clear(&mut self)
        ensures
            final(self).vertices@.len() == 0,
            final(self).triangle_indices@.len() == 0,
    {
        self.vertices.clear();
        self.triangle_indices.clear();
    }

    /// The mesh as a triangle soup, each triangle with its own vertices.
    pub fn fetch_triangles(&self) -> (r: Vec<Triangle<V>>) where V: Copy
        requires
            self.wf(),
        ensures
            r@ == triangles_of(self.triangle_indices@, self.vertices@),
    {
        triangles_from_indices(&self.triangle_indices, &self.vertices)
    }

    /// The mesh of a streaming vertex list: its vertices in record order and
    /// the triangles it stitches; `None` where a quad needs a voxel that has
    /// no record.
    pub fn from_vertex_list(l: VertexList<V>) -> (r: Option<Self>) where V: Copy
        requires
            l.wf(),
        ensures
            r is Some <==> list_resolvable(l.0@),
            r matches Some(m) ==> {
                &&& m.wf()
                &&& m.vertices@ == list_vertices(l.0@)
                &&& m.triangle_indices@ == list_triangles(l.0@)
            },
    {
        match l.fetch_triangle_indices() {
            Some(triangle_indices) => {
                proof {
                    lemma_list_triangle_indices(l.0@, l.0@.len() as int);
                }
                let vertices = l.fetch_vertices();
                Some(TriangleMesh { vertices, triangle_indices })
            },
            None => None,
        }
    }
}

} // verus!
