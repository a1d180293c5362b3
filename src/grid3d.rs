use vstd::arithmetic::div_mod::{lemma_div_denominator, lemma_fundamental_div_mod_converse};
use vstd::prelude::*;

use crate::geometry::{Axis3D, Triangle};
use crate::mesh::{indices_below, triangles_from_indices, triangles_of};
use crate::triangulator::{
    cell_resolvable, cell_triangles, lemma_cell_triangle_indices, stitch_cell, Coord, Pattern,
    VertexResolver,
};

verus! {

/// The number of samples along each axis of a volume.
#[derive(Clone, Copy, PartialEq, Eq, Structural)]
pub struct Grid3DResolution {
    pub x: u16,
    pub y: u16,
    pub z: u16,
}

/// The position in the buffer of the sample at `(x, y, z)`: `x` is the most
/// significant axis, `z` the least.
pub open spec fn grid_index(size: Grid3DResolution, x: int, y: int, z: int) -> int {
    (x * size.y + y) * size.z + z
}

pub open spec fn in_grid(size: Grid3DResolution, c: Coord) -> bool {
    c.0 < size.x && c.1 < size.y && c.2 < size.z
}

pub open spec fn n_samples(size: Grid3DResolution) -> int {
    size.x * size.y * size.z
}

/// Digits `(a, b, c)` of a number written in the mixed radix `(n1, n2)`.
pub proof fn lemma_mixed_radix(k: int, a: int, b: int, c: int, n1: int, n2: int)
    requires
        0 <= a,
        0 <= b < n1,
        0 <= c < n2,
        k == (a * n1 + b) * n2 + c,
    ensures
        k / n2 == a * n1 + b,
        k % n2 == c,
        (k / n2) % n1 == b,
        k / (n1 * n2) == a,
{
    lemma_fundamental_div_mod_converse(k, n2, a * n1 + b, c);
    lemma_fundamental_div_mod_converse(k / n2, n1, a, b);
    assert(0 <= k) by (nonlinear_arith)
        requires
            0 <= a,
            0 <= b,
            0 <= c,
            0 < n1,
            0 < n2,
            k == (a * n1 + b) * n2 + c,
    ;
    lemma_div_denominator(k, n2, n1);
    assert(n2 * n1 == n1 * n2) by (nonlinear_arith);
}

/// A coordinate inside the volume has its index inside the buffer.
pub proof fn lemma_grid_index_bounds(size: Grid3DResolution, x: int, y: int, z: int)
    requires
        0 <= x < size.x,
        0 <= y < size.y,
        0 <= z < size.z,
    ensures
        0 <= x * size.y + y < size.x * size.y <= n_samples(size),
        0 <= grid_index(size, x, y, z) < n_samples(size),
{
    let (sx, sy, sz) = (size.x as int, size.y as int, size.z as int);
    assert(0 <= x * sy + y < sx * sy) by (nonlinear_arith)
        requires
            0 <= x < sx,
            0 <= y < sy,
    ;
    let m = x * sy + y;
    assert(0 <= m * sz + z < sx * sy * sz) by (nonlinear_arith)
        requires
            0 <= m < sx * sy,
            0 <= z < sz,
    ;
    assert(sx * sy <= sx * sy * sz) by (nonlinear_arith)
        requires
            0 <= sx * sy,
            1 <= sz,
    ;
}

/// A dense volume: one payload per sample, addressed by coordinate.
pub struct Grid3D<T> {
    pub data: Vec<T>,
    pub size: Grid3DResolution,
}

impl<T> Grid3D<T> {
    pub open spec fn wf(&self) -> bool {
        self.data@.len() == n_samples(self.size)
    }

    pub open spec fn at(&self, c: Coord) -> T {
        self.data@[grid_index(self.size, c.0 as int, c.1 as int, c.2 as int)]
    }

    pub fn index(&self, x: u16, y: u16, z: u16) -> (r: usize)
        requires
            self.wf(),
            in_grid(self.size, (x, y, z)),
        ensures
            r == grid_index(self.size, x as int, y as int, z as int),
            r < self.data@.len(),
    {
        proof {
            lemma_grid_index_bounds(self.size, x as int, y as int, z as int);
        }
        let (sy, sz) = (self.size.y as usize, self.size.z as usize);
        let n = self.data.len();
        assert(x * sy + y < n);
        let m = x as usize * sy + y as usize;
        m * sz + z as usize
    }

    pub fn get(&self, x: u16, y: u16, z: u16) -> (r: &T)
        requires
            self.wf(),
            in_grid(self.size, (x, y, z)),
        ensures
            *r == self.at((x, y, z)),
    {
        let i = self.index(x, y, z);
        &self.data[i]
    }

    pub fn get_mut(&mut self, x: u16, y: u16, z: u16) -> (r: &mut T)
        requires
            old(self).wf(),
            in_grid(old(self).size, (x, y, z)),
        ensures
            *r == old(self).at((x, y, z)),
            final(self).size == old(self).size,
            final(self).data@ == old(self).data@.update(
                grid_index(old(self).size, x as int, y as int, z as int),
                *final(r),
            ),
    {
        let i = self.index(x, y, z);
        &mut self.data[i]
    }

    pub fn n_cells(&self) -> (r: usize)
        requires
            self.wf(),
        ensures
            r == n_samples(self.size),
    {
        self.data.len()
    }

    pub fn size_x(&self) -> (r: u16)
        ensures
            r == self.size.x,
    {
        self.size.x
    }

    pub fn size_y(&self) -> (r: u16)
        ensures
            r == self.size.y,
    {
        self.size.y
    }

    pub fn size_z(&self) -> (r: u16)
        ensures
            r == self.size.z,
    {
        self.size.z
    }
}

impl<T: Copy> Grid3D<T> {
    /// A volume of the given resolution whose every sample is `value`.
    pub fn filled(x: u16, y: u16, z: u16, value: T) -> (r: Self)
        requires
            x > 0,
            y > 0,
            z > 0,
            x * y * z <= usize::MAX,
        ensures
            r.wf(),
            r.size == (Grid3DResolution { x, y, z }),
            forall|i: int| 0 <= i < r.data@.len() ==> #[trigger] r.data@[i] == value,
    {
        let size = Grid3DResolution { x, y, z };
        assert(x * y <= x * y * z) by (nonlinear_arith)
            requires
                0 <= x * y,
                1 <= z,
        ;
        let len = x as usize * y as usize * z as usize;
        let mut data: Vec<T> = Vec::with_capacity(len);
        let mut i: usize = 0;
        while i < len
            invariant
                i <= len,
                data@.len() == i,
                forall|j: int| 0 <= j < i ==> #[trigger] data@[j] == value,
            decreases len - i,
        {
            data.push(value);
            i += 1;
        }
        Grid3D { data, size }
    }

    /// The eight samples at the corners of the cell whose origin corner is
    /// `(x, y, z)`, `x` offset varying fastest, then `y`, then `z`.
    pub fn cell_corners(&self, x: u16, y: u16, z: u16) -> (r: [T; 8])
        requires
            self.wf(),
            x + 1 < self.size.x,
            y + 1 < self.size.y,
            z + 1 < self.size.z,
        ensures
            r@ == cell_samples(*self, (x, y, z)),
    {
        let r = [
            *self.get(x, y, z),
            *self.get(x + 1, y, z),
            *self.get(x, y + 1, z),
            *self.get(x + 1, y + 1, z),
            *self.get(x, y, z + 1),
            *self.get(x + 1, y, z + 1),
            *self.get(x, y + 1, z + 1),
            *self.get(x + 1, y + 1, z + 1),
        ];
        assert(r@ =~= cell_samples(*self, (x, y, z)));
        r
    }
}

impl<T: Copy + Default> Grid3D<T> {
    /// A volume of the given resolution holding `T::default()` everywhere.
    pub fn new(x: u16, y: u16, z: u16) -> (r: Self)
        requires
            x > 0,
            y > 0,
            z > 0,
            x * y * z <= usize::MAX,
        ensures
            r.wf(),
            r.size == (Grid3DResolution { x, y, z }),
            forall|i: int| 0 <= i < r.data@.len() ==> #[trigger] r.data@[i] == r.data@[0],
    {
        Self::filled(x, y, z, T::default())
    }
}

/// The sample coordinate of corner `k` of the cell with origin `c`.
pub open spec fn corner_coord(c: Coord, k: int) -> Coord {
    ((c.0 + k % 2) as u16, (c.1 + (k / 2) % 2) as u16, (c.2 + k / 4) as u16)
}

/// The eight samples at the corners of the cell with origin `c`, in
/// `corner_index` order.
pub open spec fn cell_samples<T>(g: Grid3D<T>, c: Coord) -> Seq<T> {
    Seq::new(8, |k: int| g.at(corner_coord(c, k)))
}

/// The position among a cell's eight corners of the one offset by
/// `(dx, dy, dz)` from its origin.
pub open spec fn corner_index(dx: int, dy: int, dz: int) -> int {
    dx + 2 * dy + 4 * dz
}

/// One voxel: whether each of its eight corner samples is positive, in
/// `corner_index` order, and its grid coordinate.
#[derive(Clone, Copy)]
pub struct Cell {
    pub positive: [bool; 8],
    pub x: u16,
    pub y: u16,
    pub z: u16,
}

/// The sign pattern of a cell: its `+x`, `+y`, `+z` and origin corners.
pub open spec fn cell_pattern(c: Cell) -> Pattern {
    (c.positive@[1], c.positive@[2], c.positive@[4], c.positive@[0])
}

/// The four bits of a sign pattern as a number below 16.
pub open spec fn pattern_bits(p: Pattern) -> int {
    (if p.0 {
        1int
    } else {
        0
    }) + (if p.1 {
        2int
    } else {
        0
    }) + (if p.2 {
        4int
    } else {
        0
    }) + (if p.3 {
        8int
    } else {
        0
    })
}

/// One of the twelve edges of a cell: its axis and its two fixed offsets in
/// the perpendicular plane, `(dx, dy)` along z, `(dx, dz)` along y and
/// `(dy, dz)` along x.
#[derive(Clone, Copy)]
pub struct CellEdge {
    pub axis: Axis3D,
    pub u: u8,
    pub v: u8,
}

/// The twelve edges in the order they are examined: the four along z, then
/// the four along y, then the four along x, each group with `u` outer.
pub open spec fn cell_edge(k: int) -> CellEdge {
    let axis = if k < 4 {
        Axis3D::Z
    } else if k < 8 {
        Axis3D::Y
    } else {
        Axis3D::X
    };
    CellEdge { axis, u: ((k / 2) % 2) as u8, v: (k % 2) as u8 }
}

/// The corner an edge starts from, at offset 0 along its axis.
pub open spec fn edge_start(e: CellEdge) -> int {
    match e.axis {
        Axis3D::Z => corner_index(e.u as int, e.v as int, 0),
        Axis3D::Y => corner_index(e.u as int, 0, e.v as int),
        Axis3D::X => corner_index(0, e.u as int, e.v as int),
    }
}

/// The corner an edge ends at, at offset 1 along its axis.
pub open spec fn edge_end(e: CellEdge) -> int {
    match e.axis {
        Axis3D::Z => corner_index(e.u as int, e.v as int, 1),
        Axis3D::Y => corner_index(e.u as int, 1, e.v as int),
        Axis3D::X => corner_index(1, e.u as int, e.v as int),
    }
}

pub open spec fn edge_crosses(positive: Seq<bool>, e: CellEdge) -> bool {
    positive[edge_start(e)] != positive[edge_end(e)]
}

/// The crossing edges among the first `n` edges, in examination order.
pub open spec fn crossings_upto(positive: Seq<bool>, n: int) -> Seq<CellEdge>
    decreases n,
{
    if n <= 0 {
        seq![]
    } else if edge_crosses(positive, cell_edge(n - 1)) {
        crossings_upto(positive, n - 1).push(cell_edge(n - 1))
    } else {
        crossings_upto(positive, n - 1)
    }
}

/// The edges of a cell whose endpoints differ in sign.
pub open spec fn crossing_edges(positive: Seq<bool>) -> Seq<CellEdge> {
    crossings_upto(positive, 12)
}

/// Whether a cell yields a surface vertex: at least two edges cross.
pub open spec fn emits_vertex(positive: Seq<bool>) -> bool {
    crossing_edges(positive).len() >= 2
}

impl CellEdge {
    /// The `k`-th edge in examination order.
    pub fn nth(k: usize) -> (r: CellEdge)
        requires
            k < 12,
        ensures
            r == cell_edge(k as int),
    {
        let axis = if k < 4 {
            Axis3D::Z
        } else if k < 8 {
            Axis3D::Y
        } else {
            Axis3D::X
        };
        CellEdge { axis, u: ((k / 2) % 2) as u8, v: (k % 2) as u8 }
    }

    /// The corner indices of the edge's start and end.
    pub fn endpoints(&self) -> (r: (usize, usize))
        requires
            self.u < 2,
            self.v < 2,
        ensures
            r.0 == edge_start(*self),
            r.1 == edge_end(*self),
    {
        let (u, v) = (self.u as usize, self.v as usize);
        match self.axis {
            Axis3D::Z => (u + 2 * v, u + 2 * v + 4),
            Axis3D::Y => (u + 4 * v, u + 2 + 4 * v),
            Axis3D::X => (2 * u + 4 * v, 1 + 2 * u + 4 * v),
        }
    }
}

impl Cell {
    pub fn new(positive: [bool; 8], x: u16, y: u16, z: u16) -> (r: Self)
        ensures
            r == (Cell { positive, x, y, z }),
    {
        Cell { positive, x, y, z }
    }

    /// Whether the corner offset by `(dx, dy, dz)` is positive.
    pub fn get(&self, dx: u8, dy: u8, dz: u8) -> (r: bool)
        requires
            dx < 2,
            dy < 2,
            dz < 2,
        ensures
            r == self.positive@[corner_index(dx as int, dy as int, dz as int)],
    {
        self.positive[(((dz * 2) + dy) * 2 + dx) as usize]
    }

    pub fn sign_changes(&self) -> (r: Pattern)
        ensures
            r == cell_pattern(*self),
    {
        (self.get(1, 0, 0), self.get(0, 1, 0), self.get(0, 0, 1), self.get(0, 0, 0))
    }

    pub fn sign_changes_u8(&self) -> (r: u8)
        ensures
            r == pattern_bits(cell_pattern(*self)),
    {
        let changes = self.sign_changes();
        let (a, b, c, d) = (changes.0 as u8, changes.1 as u8, changes.2 as u8, changes.3 as u8);
        let r = a | (b << 1u8) | (c << 2u8) | (d << 3u8);
        assert(r == a + 2 * b + 4 * c + 8 * d) by (bit_vector)
            requires
                a <= 1 && b <= 1 && c <= 1 && d <= 1,
                r == a | (b << 1u8) | (c << 2u8) | (d << 3u8),
        ;
        r
    }

    /// The edges that cross the zero level, in examination order.
    pub fn crossing_edges(&self) -> (r: Vec<CellEdge>)
        ensures
            r@ == crossing_edges(self.positive@),
    {
        let mut r: Vec<CellEdge> = Vec::new();
        let mut k: usize = 0;
        while k < 12
            invariant
                k <= 12,
                r@ == crossings_upto(self.positive@, k as int),
            decreases 12 - k,
        {
            let e = CellEdge::nth(k);
            let (s, t) = e.endpoints();
            if self.positive[s] != self.positive[t] {
                r.push(e);
            }
            k += 1;
        }
        r
    }

    /// The crossing edges whose interpolated points place the cell's
    /// vertex, or `None` where fewer than two edges cross.
    pub fn try_fetch_crossing_edges(&self) -> (r: Option<Vec<CellEdge>>)
        ensures
            r is Some <==> emits_vertex(self.positive@),
            r is Some ==> r->0@ == crossing_edges(self.positive@),
    {
        let changes = self.crossing_edges();
        if changes.len() <= 1 {
            None
        } else {
            Some(changes)
        }
    }
}

/// The sign pattern held in the low four bits of a packed record.
pub open spec fn bits_pattern(b: int) -> Pattern {
    (b % 2 == 1, (b / 2) % 2 == 1, (b / 4) % 2 == 1, (b / 8) % 2 == 1)
}

/// A packed vertex record of the dense strategy: the vertex index above
/// the low four bits, the sign pattern in them.
///
/// An all-zero record is a valid record (vertex 0, all-negative pattern);
/// the dense strategy therefore marks absent voxels with `None` rather
/// than with any record value.
#[derive(Clone, Copy, PartialEq, Eq, Structural)]
pub struct VertexCell(pub u32);

/// Packing a vertex index and a pattern and reading them back gives both.
pub proof fn lemma_vertex_cell_round_trip(id: u32, p: Pattern)
    requires
        id < 0x1000_0000,
    ensures
        (id * 16 + pattern_bits(p)) / 16 == id,
        bits_pattern(id * 16 + pattern_bits(p)) == p,
{
    let b = pattern_bits(p) as u32;
    let w = (id * 16 + b) as u32;
    assert(w / 16 == id && w % 2 == b % 2 && (w / 2) % 2 == (b / 2) % 2 && (w / 4) % 2 == (b / 4)
        % 2 && (w / 8) % 2 == (b / 8) % 2) by (bit_vector)
        requires
            id < 0x1000_0000,
            b < 16,
            w == id * 16 + b,
    ;
}

impl VertexCell {
    pub fn new(vertex_id: usize, cell: &Cell) -> (r: Self)
        requires
            vertex_id < 0x1000_0000,
        ensures
            r.0 == vertex_id * 16 + pattern_bits(cell_pattern(*cell)),
    {
        Self::pack(vertex_id, cell.sign_changes())
    }

    /// The record of vertex `vertex_id` for a voxel with pattern `p`.
    pub fn pack(vertex_id: usize, p: Pattern) -> (r: Self)
        requires
            vertex_id < 0x1000_0000,
        ensures
            r.0 == vertex_id * 16 + pattern_bits(p),
    {
        let (a, b, c, d) = (p.0 as u32, p.1 as u32, p.2 as u32, p.3 as u32);
        let id = vertex_id as u32;
        let w = (id << 4u32) | a | (b << 1u32) | (c << 2u32) | (d << 3u32);
        assert(w == id * 16 + a + 2 * b + 4 * c + 8 * d) by (bit_vector)
            requires
                id < 0x1000_0000,
                a <= 1 && b <= 1 && c <= 1 && d <= 1,
                w == (id << 4u32) | a | (b << 1u32) | (c << 2u32) | (d << 3u32),
        ;
        VertexCell(w)
    }

    pub fn vertex_id(&self) -> (r: u32)
        ensures
            r == self.0 / 16,
    {
        let w = self.0;
        assert(w >> 4u32 == w / 16) by (bit_vector);
        w >> 4u32
    }

    pub fn vertex<V: Copy>(&self, vertices: &[V]) -> (r: V)
        requires
            self.0 / 16 < vertices@.len(),
        ensures
            r == vertices@[(self.0 / 16) as int],
    {
        vertices[self.vertex_id() as usize]
    }

    pub fn changes(&self) -> (r: Pattern)
        ensures
            r == bits_pattern(self.0 as int),
    {
        let w = self.0;
        assert((w & 1 != 0) == (w % 2 == 1) && (w & 2 != 0) == ((w / 2) % 2 == 1) && (w & 4 != 0)
            == ((w / 4) % 2 == 1) && (w & 8 != 0) == ((w / 8) % 2 == 1)) by (bit_vector);
        (w & 1 != 0, w & 2 != 0, w & 4 != 0, w & 8 != 0)
    }

    /// Whether no bit of the sign pattern is set.
    pub fn is_empty(&self) -> (r: bool)
        ensures
            r == (self.0 % 16 == 0),
    {
        let w = self.0;
        assert((w & 15 == 0) == (w % 16 == 0)) by (bit_vector);
        w & 15 == 0
    }
}

/// The record of vertex `id` for a voxel with pattern `p`.
pub open spec fn dense_record(id: int, p: Pattern) -> VertexCell {
    VertexCell((id * 16 + pattern_bits(p)) as u32)
}

/// Which voxels of a dense record grid hold a record.
pub open spec fn dense_present(g: Grid3D<Option<VertexCell>>) -> spec_fn(Coord) -> bool {
    |c: Coord| in_grid(g.size, c) && g.at(c) is Some
}

/// The vertex index in each voxel's record.
pub open spec fn dense_resolver(g: Grid3D<Option<VertexCell>>) -> spec_fn(Coord) -> u32 {
    |c: Coord| ((g.at(c)->0).0 / 16) as u32
}

/// The coordinate whose sample sits at position `k` of the buffer.
pub open spec fn grid_coord(size: Grid3DResolution, k: int) -> Coord {
    let (sy, sz) = (size.y as int, size.z as int);
    ((k / (sy * sz)) as u16, ((k / sz) % sy) as u16, (k % sz) as u16)
}

/// The triangles stitched by the records among the first `n` buffer
/// positions, in buffer order.
pub open spec fn dense_triangles_upto(g: Grid3D<Option<VertexCell>>, n: int) -> Seq<Triangle<u32>>
    decreases n,
{
    if n <= 0 {
        seq![]
    } else {
        dense_triangles_upto(g, n - 1) + match g.data@[n - 1] {
            Some(vc) => cell_triangles(
                dense_resolver(g),
                grid_coord(g.size, n - 1),
                bits_pattern(vc.0 as int),
            ),
            None => seq![],
        }
    }
}

pub open spec fn dense_triangles(g: Grid3D<Option<VertexCell>>) -> Seq<Triangle<u32>> {
    dense_triangles_upto(g, g.data@.len() as int)
}

/// Whether every quad that a record stitches finds all its voxels.
pub open spec fn dense_resolvable(g: Grid3D<Option<VertexCell>>) -> bool {
    forall|c: Coord|
        in_grid(g.size, c) && #[trigger] g.at(c) is Some ==> cell_resolvable(
            dense_present(g),
            c,
            bits_pattern((g.at(c)->0).0 as int),
        )
}

impl VertexResolver for Grid3D<Option<VertexCell>> {
    open spec fn inv(&self) -> bool {
        self.wf()
    }

    open spec fn present(&self) -> spec_fn(Coord) -> bool {
        dense_present(*self)
    }

    open spec fn resolver(&self) -> spec_fn(Coord) -> u32 {
        dense_resolver(*self)
    }

    fn resolve(&self, c: Coord) -> (r: Option<u32>) {
        if c.0 < self.size.x && c.1 < self.size.y && c.2 < self.size.z {
            match self.get(c.0, c.1, c.2) {
                Some(vc) => Some(vc.vertex_id()),
                None => None,
            }
        } else {
            None
        }
    }
}

impl Grid3D<Option<VertexCell>> {
    /// Records `vertex` as the next entry of `vertices` and stores its index
    /// and the cell's sign pattern at the cell's coordinate.
    pub fn insert_vertex<V: Copy>(&mut self, cell: &Cell, vertex: &V, vertices: &mut Vec<V>)
        requires
            old(self).wf(),
            in_grid(old(self).size, (cell.x, cell.y, cell.z)),
            old(vertices)@.len() < 0x1000_0000,
        ensures
            final(self).size == old(self).size,
            final(self).data@ == old(self).data@.update(
                grid_index(old(self).size, cell.x as int, cell.y as int, cell.z as int),
                Some(dense_record(old(vertices)@.len() as int, cell_pattern(*cell))),
            ),
            final(vertices)@ == old(vertices)@.push(*vertex),
    {
        self.insert((cell.x, cell.y, cell.z), cell.sign_changes(), *vertex, vertices);
    }

    /// Records `vertex` as the next entry of `vertices` and stores its index
    /// and the pattern `sign_changes` at the voxel `cell`.
    pub fn insert<V>(&mut self, cell: Coord, sign_changes: Pattern, vertex: V, vertices: &mut Vec<V>)
        requires
            old(self).wf(),
            in_grid(old(self).size, cell),
            old(vertices)@.len() < 0x1000_0000,
        ensures
            final(self).size == old(self).size,
            final(self).data@ == old(self).data@.update(
                grid_index(old(self).size, cell.0 as int, cell.1 as int, cell.2 as int),
                Some(dense_record(old(vertices)@.len() as int, sign_changes)),
            ),
            final(vertices)@ == old(vertices)@.push(vertex),
    {
        let vertex_cell = VertexCell::pack(vertices.len(), sign_changes);
        *self.get_mut(cell.0, cell.1, cell.2) = Some(vertex_cell);
        vertices.push(vertex);
    }

    /// The triangles stitched from all records as a triangle soup, each
    /// triangle with its own copies of the vertices.
    pub fn fetch_triangles<V: Copy>(&self, vertices: &Vec<V>) -> (r: Option<Vec<Triangle<V>>>)
        requires
            self.wf(),
            forall|c: Coord|
                #[trigger] dense_present(*self)(c) ==> dense_resolver(*self)(c) < vertices@.len(),
        ensures
            r is Some <==> dense_resolvable(*self),
            r is Some ==> r->0@ == triangles_of(dense_triangles(*self), vertices@),
    {
        match self.fetch_triangles_indices() {
            Some(indices) => {
                proof {
                    lemma_dense_triangle_indices(*self, self.data@.len() as int, vertices@.len() as int);
                }
                Some(triangles_from_indices(&indices, vertices))
            },
            None => None,
        }
    }

    /// The triangles stitched from all records, visiting the grid with `x`
    /// slowest and `z` fastest; `None` where a quad needs a voxel that has
    /// no record.
    #[verifier::rlimit(30)]
    pub fn fetch_triangles_indices(&self) -> (r: Option<Vec<Triangle<u32>>>)
        requires
            self.wf(),
        ensures
            r is Some <==> dense_resolvable(*self),
            r is Some ==> r->0@ == dense_triangles(*self),
    {
        let mut indices: Vec<Triangle<u32>> = Vec::new();
        let n = self.data.len();
        let (sx, sy, sz) = (self.size.x, self.size.y, self.size.z);
        let (mut x, mut y, mut z): (u16, u16, u16) = (0, 0, 0);
        let mut i: usize = 0;
        if n > 0 {
            assert(sx > 0 && sy > 0 && sz > 0) by (nonlinear_arith)
                requires
                    n == sx * sy * sz,
                    n > 0,
            ;
        }
        assert(grid_index(self.size, 0, 0, 0) == 0) by (nonlinear_arith)
            requires
                grid_index(self.size, 0, 0, 0) == (0 * self.size.y + 0) * self.size.z + 0,
        ;
        while i < n
            invariant
                self.wf(),
                n == self.data@.len(),
                (sx, sy, sz) == (self.size.x, self.size.y, self.size.z),
                i <= n,
                i < n ==> x < sx && y < sy && z < sz && i == grid_index(
                    self.size,
                    x as int,
                    y as int,
                    z as int,
                ),
                indices@ == dense_triangles_upto(*self, i as int),
                forall|c: Coord|
                    in_grid(self.size, c) && #[trigger] self.at(c) is Some && grid_index(
                        self.size,
                        c.0 as int,
                        c.1 as int,
                        c.2 as int,
                    ) < i ==> cell_resolvable(
                        dense_present(*self),
                        c,
                        bits_pattern((self.at(c)->0).0 as int),
                    ),
            decreases n - i,
        {
            proof {
                lemma_mixed_radix(i as int, x as int, y as int, z as int, sy as int, sz as int);
                lemma_grid_coord_injective(self.size, (x, y, z));
            }
            if let Some(vc) = self.get(x, y, z) {
                if !stitch_cell(self, (x, y, z), vc.changes(), &mut indices) {
                    return None;
                }
            }
            proof {
                assert forall|c: Coord|
                    in_grid(self.size, c) && #[trigger] self.at(c) is Some && grid_index(
                        self.size,
                        c.0 as int,
                        c.1 as int,
                        c.2 as int,
                    ) < i + 1 implies cell_resolvable(
                    dense_present(*self),
                    c,
                    bits_pattern((self.at(c)->0).0 as int),
                ) by {
                    lemma_grid_coord_injective(self.size, c);
                }
                if z + 1 == sz {
                    if y + 1 == sy {
                        assert(i + 1 == (x + 1) * sy * sz) by (nonlinear_arith)
                            requires
                                i == (x * sy + y) * sz + z,
                                z + 1 == sz,
                                y + 1 == sy,
                        ;
                        if x + 1 < sx {
                            assert(i + 1 == grid_index(self.size, x + 1, 0, 0)) by (nonlinear_arith)
                                requires
                                    i + 1 == (x + 1) * sy * sz,
                                    grid_index(self.size, x + 1, 0, 0) == ((x + 1) * sy + 0) * sz + 0,
                            ;
                        } else {
                            assert(n == sx * sy * sz);
                            assert(i + 1 == n) by (nonlinear_arith)
                                requires
                                    i + 1 == (x + 1) * sy * sz,
                                    x + 1 == sx,
                                    n == sx * sy * sz,
                            ;
                        }
                    } else {
                        assert(i + 1 == grid_index(self.size, x as int, y + 1, 0)) by (nonlinear_arith)
                            requires
                                i == (x * sy + y) * sz + z,
                                z + 1 == sz,
                                grid_index(self.size, x as int, y + 1, 0) == (x * sy + (y + 1)) * sz + 0,
                        ;
                    }
                }
            }
            i += 1;
            if z + 1 < sz {
                z += 1;
            } else {
                z = 0;
                if y + 1 < sy {
                    y += 1;
                } else {
                    y = 0;
                    x += 1;
                }
            }
        }
        proof {
            assert forall|c: Coord|
                in_grid(self.size, c) && #[trigger] self.at(c) is Some implies cell_resolvable(
                dense_present(*self),
                c,
                bits_pattern((self.at(c)->0).0 as int),
            ) by {
                lemma_grid_index_bounds(self.size, c.0 as int, c.1 as int, c.2 as int);
            }
        }
        Some(indices)
    }
}

/// A buffer position inside the volume is the one its coordinate maps to.
pub proof fn lemma_grid_coord_inverse(size: Grid3DResolution, k: int)
    requires
        0 <= k < n_samples(size),
    ensures
        in_grid(size, grid_coord(size, k)),
        grid_index(
            size,
            grid_coord(size, k).0 as int,
            grid_coord(size, k).1 as int,
            grid_coord(size, k).2 as int,
        ) == k,
{
    let (sx, sy, sz) = (size.x as int, size.y as int, size.z as int);
    assert(sx > 0 && sy > 0 && sz > 0) by (nonlinear_arith)
        requires
            0 <= k < sx * sy * sz,
            sx >= 0,
            sy >= 0,
            sz >= 0,
    ;
    let q = k / sz;
    let z = k % sz;
    let y = q % sy;
    let x = q / sy;
    vstd::arithmetic::div_mod::lemma_fundamental_div_mod(k, sz);
    vstd::arithmetic::div_mod::lemma_fundamental_div_mod(q, sy);
    lemma_div_denominator(k, sz, sy);
    assert(sy * sz == sz * sy) by (nonlinear_arith);
    assert(0 <= q) by (nonlinear_arith)
        requires
            0 <= k,
            sz > 0,
            q == k / sz,
    ;
    assert(x < sx) by (nonlinear_arith)
        requires
            0 <= k < sx * sy * sz,
            k == sz * q + z,
            0 <= z < sz,
            q == sy * x + y,
            0 <= y < sy,
            sy > 0,
            sz > 0,
    ;
    assert(0 <= x) by (nonlinear_arith)
        requires
            0 <= q,
            sy > 0,
            x == q / sy,
    ;
    assert(k == (x * sy + y) * sz + z) by (nonlinear_arith)
        requires
            k == sz * q + z,
            q == sy * x + y,
    ;
}

/// Every index that a dense record grid stitches is the index of a present
/// voxel's vertex.
pub proof fn lemma_dense_triangle_indices(g: Grid3D<Option<VertexCell>>, n: int, bound: int)
    requires
        g.wf(),
        dense_resolvable(g),
        0 <= n <= g.data@.len(),
        forall|c: Coord| #[trigger] dense_present(g)(c) ==> dense_resolver(g)(c) < bound,
    ensures
        indices_below(dense_triangles_upto(g, n), bound),
    decreases n,
{
    if n > 0 {
        lemma_dense_triangle_indices(g, n - 1, bound);
        let a = dense_triangles_upto(g, n - 1);
        let b = match g.data@[n - 1] {
            Some(vc) => cell_triangles(dense_resolver(g), grid_coord(g.size, n - 1), bits_pattern(vc.0 as int)),
            None => seq![],
        };
        if let Some(vc) = g.data@[n - 1] {
            let c = grid_coord(g.size, n - 1);
            lemma_grid_coord_inverse(g.size, n - 1);
            assert(g.at(c) is Some);
            lemma_cell_triangle_indices(dense_present(g), dense_resolver(g), bound, c, bits_pattern(vc.0 as int));
        }
        assert(dense_triangles_upto(g, n) == a + b);
        assert forall|k: int| 0 <= k < (a + b).len() implies {
            let t = #[trigger] (a + b)[k];
            t.0 < bound && t.1 < bound && t.2 < bound
        } by {
            if k < a.len() {
                assert((a + b)[k] == a[k]);
            } else {
                assert((a + b)[k] == b[k - a.len()]);
            }
        }
    }
}

/// A coordinate inside the volume is the one its buffer position maps back to.
pub proof fn lemma_grid_coord_injective(size: Grid3DResolution, c: Coord)
    requires
        in_grid(size, c),
    ensures
        grid_coord(size, grid_index(size, c.0 as int, c.1 as int, c.2 as int)) == c,
{
    let k = grid_index(size, c.0 as int, c.1 as int, c.2 as int);
    lemma_mixed_radix(k, c.0 as int, c.1 as int, c.2 as int, size.y as int, size.z as int);
}

/// The sign pattern held in the low four bits of `s`, as a sampler that
/// evaluates the field elsewhere reports it.
pub fn sign_pattern_from_bits(s: u32) -> (r: Pattern)
    ensures
        r == bits_pattern(s as int),
{
    VertexCell(s).changes()
}

pub open spec fn is_power_of_two(n: int) -> bool
    decreases n,
{
    if n <= 0 {
        false
    } else if n == 1 {
        true
    } else {
        n % 2 == 0 && is_power_of_two(n / 2)
    }
}

/// The requested grid resolution if it is zero or a power of two;
/// otherwise twice the largest power of two below it, which is the next
/// power of two, or zero where that does not fit in 32 bits.
pub fn round_up_resolution(res: u32) -> (r: u32)
    ensures
        res == 0 || is_power_of_two(res as int) ==> r == res,
        res != 0 && !is_power_of_two(res as int) && res < 0x8000_0000 ==> {
            &&& is_power_of_two(r as int)
            &&& res < r < 2 * res
        },
        res != 0 && !is_power_of_two(res as int) && res >= 0x8000_0000 ==> r == 0,
{
    if res == 0 {
        return 0;
    }
    // p: the largest power of two not above res.
    let mut p: u32 = 1;
    while p <= res / 2
        invariant
            1 <= p <= res,
            is_power_of_two(p as int),
        decreases res - p,
    {
        assert(is_power_of_two(2 * p as int)) by {
            assert((2 * p as int) / 2 == p as int);
        }
        p = p * 2;
    }
    assert(res < 2 * p);
    proof {
        if is_power_of_two(res as int) {
            lemma_power_of_two_between(res as int, p as int);
        }
        if res >= 0x8000_0000 && p < 0x8000_0000 {
            reveal_with_fuel(is_power_of_two, 32);
            assert(is_power_of_two(0x4000_0000));
            lemma_power_of_two_between(p as int, 0x4000_0000);
        }
    }
    if p == res {
        res
    } else if p >= 0x8000_0000 {
        0
    } else {
        assert(is_power_of_two(2 * p as int)) by {
            assert((2 * p as int) / 2 == p as int);
        }
        2 * p
    }
}

/// A number strictly between a power of two `p` and `2 * p` is no power of
/// two; one that is, equals `p`.
proof fn lemma_power_of_two_between(n: int, p: int)
    requires
        is_power_of_two(p),
        p <= n < 2 * p,
        is_power_of_two(n),
    ensures
        n == p,
    decreases p,
{
    if p > 1 {
        assert(n > 1);
        lemma_power_of_two_between(n / 2, p / 2);
    }
}

} // verus!
