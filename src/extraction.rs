//! Extraction from a sampled sign volume: the sweep over its cells, and
//! what holds of the records built from the cells that yield a vertex.

use vstd::prelude::*;

use crate::grid3d::{
    cell_edge, cell_samples, corner_coord, crossing_edges, crossings_upto,
    edge_crosses, edge_end, edge_start, emits_vertex, lemma_grid_index_bounds, lemma_mixed_radix,
    Cell, Grid3D, Grid3DResolution,
};
use crate::mesh::{
    item_cells, lemma_list_triangle_indices, list_present, list_resolvable, list_triangles,
    list_vertices, sort_key, TriangleMesh, VertexList, VertexListItem,
};
use crate::strategies::lemma_concat_contains;
use crate::triangulator::{axis_active, axis_quad, cell_resolvable, Coord, Pattern};

verus! {

/// The number of cells of a volume: one fewer than its samples along each
/// axis.
pub open spec fn n_cells_of(size: Grid3DResolution) -> int {
    if size.x > 0 && size.y > 0 && size.z > 0 {
        (size.x - 1) * (size.y - 1) * (size.z - 1)
    } else {
        0
    }
}

/// The origin of the `k`-th cell of the sweep, which varies `x` fastest and
/// `z` slowest.
pub open spec fn sweep_coord(size: Grid3DResolution, k: int) -> Coord {
    let (cx, cy) = (size.x - 1, size.y - 1);
    ((k % cx) as u16, ((k / cx) % cy) as u16, (k / (cy * cx)) as u16)
}

/// The origins of the cells among the first `n` of the sweep that yield a
/// surface vertex.
pub open spec fn surface_upto(g: Grid3D<bool>, n: int) -> Seq<Coord>
    decreases n,
{
    if n <= 0 {
        seq![]
    } else {
        let c = sweep_coord(g.size, n - 1);
        surface_upto(g, n - 1) + if emits_vertex(cell_samples(g, c)) {
            seq![c]
        } else {
            seq![]
        }
    }
}

/// The origins of all cells of a sign volume that yield a surface vertex,
/// in sweep order.
pub open spec fn surface_coords(g: Grid3D<bool>) -> Seq<Coord> {
    surface_upto(g, n_cells_of(g.size))
}

pub open spec fn cell_coords(s: Seq<Cell>) -> Seq<Coord> {
    s.map_values(|c: Cell| (c.x, c.y, c.z))
}

pub open spec fn coords_increasing(s: Seq<Coord>) -> bool {
    forall|i: int, j: int| 0 <= i < j < s.len() ==> sort_key(#[trigger] s[i]) < sort_key(#[trigger] s[j])
}

/// The `k`-th cell of the sweep lies inside the volume's cells.
pub proof fn lemma_sweep_coord_in_range(size: Grid3DResolution, k: int)
    requires
        0 <= k < n_cells_of(size),
    ensures
        sweep_coord(size, k).0 + 1 < size.x,
        sweep_coord(size, k).1 + 1 < size.y,
        sweep_coord(size, k).2 + 1 < size.z,
{
    let (cx, cy, cz) = (size.x - 1, size.y - 1, size.z - 1);
    assert(cx > 0 && cy > 0 && cz > 0) by (nonlinear_arith)
        requires
            0 <= k < cx * cy * cz,
            cx >= 0,
            cy >= 0,
            cz >= 0,
    ;
    let q = k / (cy * cx);
    assert(cy * cx > 0) by (nonlinear_arith)
        requires
            cx > 0,
            cy > 0,
    ;
    assert(q < cz) by (nonlinear_arith)
        requires
            cy * cx > 0,
            0 <= k < cx * cy * cz,
            q == k / (cy * cx),
    ;
}

/// Corners of equal samples have no crossing edge among the first `n`.
proof fn lemma_uniform_cell_no_crossings(positive: Seq<bool>, n: int)
    requires
        positive.len() == 8,
        forall|k: int| 0 <= k < 8 ==> #[trigger] positive[k] == positive[0],
        n <= 12,
    ensures
        crossings_upto(positive, n).len() == 0,
    decreases n,
{
    if n > 0 {
        lemma_uniform_cell_no_crossings(positive, n - 1);
        let e = cell_edge(n - 1);
        assert(0 <= edge_start(e) < 8 && 0 <= edge_end(e) < 8);
        assert(positive[edge_start(e)] == positive[0]);
        assert(positive[edge_end(e)] == positive[0]);
    }
}

/// A volume whose samples all have the same sign, entirely inside or
/// entirely outside, has no cell that yields a surface vertex; so the
/// records built from its surface cells, one per cell, are none, and they
/// hold no vertices and stitch no triangles.
pub proof fn lemma_uniform_volume_has_no_surface<V>(g: Grid3D<bool>, s: Seq<VertexListItem<V>>)
    requires
        g.wf(),
        forall|i: int| 0 <= i < g.data@.len() ==> #[trigger] g.data@[i] == g.data@[0],
        item_cells(s) == surface_coords(g),
    ensures
        surface_coords(g).len() == 0,
        list_vertices(s).len() == 0,
        list_triangles(s).len() == 0,
{
    lemma_uniform_surface_upto(g, n_cells_of(g.size));
    assert(s.len() == item_cells(s).len());
}

proof fn lemma_uniform_surface_upto(g: Grid3D<bool>, n: int)
    requires
        g.wf(),
        forall|i: int| 0 <= i < g.data@.len() ==> #[trigger] g.data@[i] == g.data@[0],
        n <= n_cells_of(g.size),
    ensures
        surface_upto(g, n).len() == 0,
    decreases n,
{
    if n > 0 {
        lemma_uniform_surface_upto(g, n - 1);
        let c = sweep_coord(g.size, n - 1);
        lemma_sweep_coord_in_range(g.size, n - 1);
        let samples = cell_samples(g, c);
        assert forall|k: int| 0 <= k < 8 implies #[trigger] samples[k] == samples[0] by {
            let d = corner_coord(c, k);
            lemma_grid_index_bounds(g.size, d.0 as int, d.1 as int, d.2 as int);
            lemma_grid_index_bounds(g.size, c.0 as int, c.1 as int, c.2 as int);
            assert(corner_coord(c, 0) == c);
        }
        lemma_uniform_cell_no_crossings(samples, 12);
    }
}

/// The cells of a sign volume that yield a surface vertex, in sweep order
/// (`x` fastest, `z` slowest), which is increasing sort-key order.
#[verifier::rlimit(30)]
pub fn surface_cells(signs: &Grid3D<bool>) -> (r: Vec<Cell>)
    requires
        signs.wf(),
    ensures
        cell_coords(r@) == surface_coords(*signs),
        coords_increasing(cell_coords(r@)),
        forall|i: int|
            0 <= i < r@.len() ==> (#[trigger] r@[i]).positive@ == cell_samples(
                *signs,
                (r@[i].x, r@[i].y, r@[i].z),
            ),
{
    let mut r: Vec<Cell> = Vec::new();
    let (sx, sy, sz) = (signs.size.x, signs.size.y, signs.size.z);
    if sx < 2 || sy < 2 || sz < 2 {
        proof {
            if sx > 0 && sy > 0 && sz > 0 {
                assert((sx - 1) * (sy - 1) * (sz - 1) == 0) by (nonlinear_arith)
                    requires
                        sx - 1 == 0 || sy - 1 == 0 || sz - 1 == 0,
                ;
            }
        }
        assert(cell_coords(r@) =~= seq![]);
        return r;
    }
    let (cx, cy, cz) = (sx - 1, sy - 1, sz - 1);
    let n = signs.data.len();
    assert(cx * cy <= sx * sy) by (nonlinear_arith)
        requires
            0 < cx < sx,
            0 < cy < sy,
    ;
    assert(cx * cy * cz <= sx * sy * sz) by (nonlinear_arith)
        requires
            0 <= cx * cy <= sx * sy,
            0 < cz < sz,
    ;
    assert(cx * cy <= cx * cy * cz) by (nonlinear_arith)
        requires
            0 <= cx * cy,
            1 <= cz,
    ;
    assert(cx * cy * cz <= n);
    let total = cx as usize * cy as usize * cz as usize;
    let (mut x, mut y, mut z): (u16, u16, u16) = (0, 0, 0);
    let mut k: usize = 0;
    assert(((0 * cy + 0) * cx + 0) == 0) by (nonlinear_arith);
    while k < total
        invariant
            signs.wf(),
            (sx, sy, sz) == (signs.size.x, signs.size.y, signs.size.z),
            cx == sx - 1 && cy == sy - 1 && cz == sz - 1,
            cx > 0 && cy > 0 && cz > 0,
            total == n_cells_of(signs.size),
            k <= total,
            k < total ==> x < cx && y < cy && z < cz && k == (z * cy + y) * cx + x,
            cell_coords(r@) == surface_upto(*signs, k as int),
            coords_increasing(cell_coords(r@)),
            k < total ==> forall|i: int|
                0 <= i < r@.len() ==> sort_key(#[trigger] cell_coords(r@)[i]) < sort_key((x, y, z)),
            forall|i: int|
                0 <= i < r@.len() ==> (#[trigger] r@[i]).positive@ == cell_samples(
                    *signs,
                    (r@[i].x, r@[i].y, r@[i].z),
                ),
        decreases total - k,
    {
        proof {
            lemma_mixed_radix(k as int, z as int, y as int, x as int, cy as int, cx as int);
            assert(sweep_coord(signs.size, k as int) == (x, y, z));
        }
        let cell = Cell::new(signs.cell_corners(x, y, z), x, y, z);
        let ghost before = r@;
        if cell.try_fetch_crossing_edges().is_some() {
            r.push(cell);
            proof {
                assert(cell_coords(r@) =~= cell_coords(before).push((x, y, z)));
            }
        }
        assert(cell_coords(r@) == surface_upto(*signs, k + 1));
        let ghost here = (x, y, z);
        if x + 1 < cx {
            x += 1;
        } else {
            x = 0;
            if y + 1 < cy {
                y += 1;
            } else {
                y = 0;
                z += 1;
            }
        }
        proof {
            if k + 1 < total {
                assert(sort_key(here) < sort_key((x, y, z)));
                if here.0 + 1 == cx && here.1 + 1 == cy {
                    assert(k + 1 == (z * cy + y) * cx + x) by (nonlinear_arith)
                        requires
                            k == (here.2 * cy + here.1) * cx + here.0,
                            here.0 + 1 == cx,
                            here.1 + 1 == cy,
                            z == here.2 + 1,
                            x == 0,
                            y == 0,
                    ;
                } else if here.0 + 1 == cx {
                    assert(k + 1 == (z * cy + y) * cx + x) by (nonlinear_arith)
                        requires
                            k == (here.2 * cy + here.1) * cx + here.0,
                            here.0 + 1 == cx,
                            z == here.2,
                            y == here.1 + 1,
                            x == 0,
                    ;
                }
                if here.0 + 1 == cx && here.1 + 1 == cy && z == cz {
                    assert(k + 1 == total) by (nonlinear_arith)
                        requires
                            k == (here.2 * cy + here.1) * cx + here.0,
                            here.0 + 1 == cx,
                            here.1 + 1 == cy,
                            here.2 + 1 == cz,
                            total == cx * cy * cz,
                    ;
                }
            }
        }
        k += 1;
    }
    r
}

/// A cube's sign changes come in pairs on every face, so no cell has
/// exactly one crossing edge.
pub proof fn lemma_no_single_crossing(pos: Seq<bool>)
    requires
        pos.len() == 8,
    ensures
        crossing_edges(pos).len() != 1,
{
    reveal_with_fuel(crossings_upto, 13);
    assert(edge_start(cell_edge(0)) == 0 && edge_end(cell_edge(0)) == 4);
    assert(edge_start(cell_edge(1)) == 2 && edge_end(cell_edge(1)) == 6);
    assert(edge_start(cell_edge(2)) == 1 && edge_end(cell_edge(2)) == 5);
    assert(edge_start(cell_edge(3)) == 3 && edge_end(cell_edge(3)) == 7);
    assert(edge_start(cell_edge(4)) == 0 && edge_end(cell_edge(4)) == 2);
    assert(edge_start(cell_edge(5)) == 4 && edge_end(cell_edge(5)) == 6);
    assert(edge_start(cell_edge(6)) == 1 && edge_end(cell_edge(6)) == 3);
    assert(edge_start(cell_edge(7)) == 5 && edge_end(cell_edge(7)) == 7);
    assert(edge_start(cell_edge(8)) == 0 && edge_end(cell_edge(8)) == 1);
    assert(edge_start(cell_edge(9)) == 4 && edge_end(cell_edge(9)) == 5);
    assert(edge_start(cell_edge(10)) == 2 && edge_end(cell_edge(10)) == 3);
    assert(edge_start(cell_edge(11)) == 6 && edge_end(cell_edge(11)) == 7);
}

/// A crossing edge among the first `n` makes the crossing list non-empty.
proof fn lemma_crossing_found(pos: Seq<bool>, k: int, n: int)
    requires
        0 <= k < n <= 12,
        edge_crosses(pos, cell_edge(k)),
    ensures
        crossings_upto(pos, n).len() >= 1,
    decreases n,
{
    if k < n - 1 {
        lemma_crossing_found(pos, k, n - 1);
    }
}

/// Whether `c` is the origin of a cell of the volume.
pub open spec fn in_cells(size: Grid3DResolution, c: Coord) -> bool {
    c.0 + 1 < size.x && c.1 + 1 < size.y && c.2 + 1 < size.z
}

/// The cells among the first `n` of the sweep that yield a vertex are
/// exactly the surface cells found by then.
proof fn lemma_surface_upto_contains(g: Grid3D<bool>, n: int, c: Coord)
    requires
        0 <= n,
    ensures
        surface_upto(g, n).contains(c) <==> exists|k: int|
            0 <= k < n && #[trigger] sweep_coord(g.size, k) == c && emits_vertex(cell_samples(g, c)),
    decreases n,
{
    if n > 0 {
        lemma_surface_upto_contains(g, n - 1, c);
        let d = sweep_coord(g.size, n - 1);
        let tail = if emits_vertex(cell_samples(g, d)) {
            seq![d]
        } else {
            seq![]
        };
        lemma_concat_contains(surface_upto(g, n - 1), tail, c);
        assert(surface_upto(g, n) == surface_upto(g, n - 1) + tail);
        if tail.contains(c) {
            assert(tail[0] == c);
            assert(sweep_coord(g.size, n - 1) == c);
        }
        if exists|k: int|
            0 <= k < n && #[trigger] sweep_coord(g.size, k) == c && emits_vertex(cell_samples(g, c)) {
            let k = choose|k: int|
                0 <= k < n && #[trigger] sweep_coord(g.size, k) == c && emits_vertex(
                    cell_samples(g, c),
                );
            if k == n - 1 {
                assert(tail[0] == c);
                assert(tail.contains(c));
            } else {
                assert(surface_upto(g, n - 1).contains(c));
            }
        }
    }
}

/// A cell of the volume is in the sweep, at the position its mixed-radix
/// digits give.
proof fn lemma_cell_in_sweep(size: Grid3DResolution, c: Coord)
    requires
        in_cells(size, c),
    ensures
        ({
            let k = (c.2 * (size.y - 1) + c.1) * (size.x - 1) + c.0;
            &&& 0 <= k < n_cells_of(size)
            &&& sweep_coord(size, k) == c
        }),
{
    let (cx, cy, cz) = (size.x - 1, size.y - 1, size.z - 1);
    let k = (c.2 * cy + c.1) * cx + c.0;
    lemma_mixed_radix(k, c.2 as int, c.1 as int, c.0 as int, cy, cx);
    let cells = Grid3DResolution { x: cz as u16, y: cy as u16, z: cx as u16 };
    lemma_grid_index_bounds(cells, c.2 as int, c.1 as int, c.0 as int);
    assert(cz * cy * cx == cx * cy * cz) by (nonlinear_arith);
}

/// The cell at `c` stepped back by `a` and `b` along the two axes
/// perpendicular to `axis`.
pub open spec fn neighbour(c: Coord, axis: int, a: int, b: int) -> Coord {
    if axis == 0 {
        (c.0, (c.1 - a) as u16, (c.2 - b) as u16)
    } else if axis == 1 {
        ((c.0 - a) as u16, c.1, (c.2 - b) as u16)
    } else {
        ((c.0 - a) as u16, (c.1 - b) as u16, c.2)
    }
}

/// The corner of a cell at the far end of its principal edge along `axis`.
pub open spec fn axis_corner(axis: int) -> int {
    if axis == 0 {
        1
    } else if axis == 1 {
        2
    } else {
        4
    }
}

/// Every cell around a crossing principal edge of `c` yields a vertex.
proof fn lemma_neighbour_emits(g: Grid3D<bool>, c: Coord, axis: int, a: int, b: int)
    requires
        g.wf(),
        in_cells(g.size, c),
        0 <= axis < 3,
        0 <= a <= 1,
        0 <= b <= 1,
        axis == 0 ==> c.1 >= a && c.2 >= b,
        axis == 1 ==> c.0 >= a && c.2 >= b,
        axis == 2 ==> c.0 >= a && c.1 >= b,
        cell_samples(g, c)[0] != cell_samples(g, c)[axis_corner(axis)],
    ensures
        in_cells(g.size, neighbour(c, axis, a, b)),
        surface_coords(g).contains(neighbour(c, axis, a, b)),
{
    let q = neighbour(c, axis, a, b);
    let k = if axis == 0 {
        8 + 2 * a + b
    } else if axis == 1 {
        4 + 2 * a + b
    } else {
        2 * a + b
    };
    let e = cell_edge(k);
    let pos = cell_samples(g, q);
    assert(e.u == a && e.v == b);
    assert(corner_coord(q, edge_start(e)) == corner_coord(c, 0));
    assert(corner_coord(q, edge_end(e)) == corner_coord(c, axis_corner(axis)));
    assert(edge_crosses(pos, e));
    lemma_crossing_found(pos, k, 12);
    lemma_no_single_crossing(pos);
    lemma_cell_in_sweep(g.size, q);
    let j = (q.2 * (g.size.y - 1) + q.1) * (g.size.x - 1) + q.0;
    lemma_surface_upto_contains(g, n_cells_of(g.size), q);
    assert(sweep_coord(g.size, j) == q);
}

/// The sign pattern that a cell's corner samples give it.
pub open spec fn samples_pattern(pos: Seq<bool>) -> Pattern {
    (pos[1], pos[2], pos[4], pos[0])
}

/// Records built from the surface cells of a sign volume, one per cell in
/// sweep order with the cell's own pattern, always resolve: every quad they
/// stitch finds a vertex for each of its four voxels, so extraction from a
/// sampled volume never meets a missing vertex.
#[verifier::rlimit(30)]
pub proof fn lemma_surface_records_resolvable<V>(g: Grid3D<bool>, s: Seq<VertexListItem<V>>)
    requires
        g.wf(),
        item_cells(s) == surface_coords(g),
        forall|i: int|
            0 <= i < s.len() ==> s[i].sign_changes == samples_pattern(
                cell_samples(g, #[trigger] s[i].cell),
            ),
    ensures
        list_resolvable(s),
{
    assert forall|i: int| 0 <= i < s.len() implies cell_resolvable(
        list_present(s),
        #[trigger] s[i].cell,
        s[i].sign_changes,
    ) by {
        let c = s[i].cell;
        let p = s[i].sign_changes;
        assert(item_cells(s)[i] == c);
        lemma_surface_upto_contains(g, n_cells_of(g.size), c);
        let k = choose|k: int|
            0 <= k < n_cells_of(g.size) && #[trigger] sweep_coord(g.size, k) == c && emits_vertex(
                cell_samples(g, c),
            );
        lemma_sweep_coord_in_range(g.size, k);
        assert forall|axis: int| 0 <= axis < 3 && #[trigger] axis_active(c, p, axis) implies {
            let q = axis_quad(c, axis);
            list_present(s)(q.0) && list_present(s)(q.1) && list_present(s)(q.2) && list_present(
                s,
            )(q.3)
        } by {
            let q = axis_quad(c, axis);
            lemma_neighbour_emits(g, c, axis, 1, 1);
            lemma_neighbour_emits(g, c, axis, 0, 1);
            lemma_neighbour_emits(g, c, axis, 0, 0);
            lemma_neighbour_emits(g, c, axis, 1, 0);
            assert(q.0 == neighbour(c, axis, 1, 1));
            assert(q.1 == neighbour(c, axis, 0, 1));
            assert(q.2 == neighbour(c, axis, 0, 0));
            assert(q.3 == neighbour(c, axis, 1, 0));
            assert forall|d: Coord| surface_coords(g).contains(d) implies #[trigger] list_present(s)(d) by {
                let j = choose|j: int| 0 <= j < surface_coords(g).len() && surface_coords(g)[j] == d;
                assert(item_cells(s)[j] == d);
                assert(s[j].cell == d);
            }
        }
    }
}

/// The records of a sign volume's surface cells in sweep order, the `i`-th
/// with the `i`-th vertex of `vertices`.
pub open spec fn surface_records<V>(g: Grid3D<bool>, vertices: Seq<V>) -> Seq<VertexListItem<V>> {
    Seq::new(
        vertices.len(),
        |i: int|
            VertexListItem {
                cell: surface_coords(g)[i],
                sign_changes: samples_pattern(cell_samples(g, surface_coords(g)[i])),
                vertex: vertices[i],
            },
    )
}

impl<V: Copy> TriangleMesh<V> {
    /// The mesh of a sign volume: `vertices[i]` is the vertex placed in the
    /// `i`-th surface cell in sweep order, and the triangles are those the
    /// records of these cells stitch, which always resolve.
    #[verifier::rlimit(30)]
    pub fn from_sign_volume(signs: &Grid3D<bool>, vertices: &Vec<V>) -> (r: Self)
        requires
            signs.wf(),
            vertices@.len() == surface_coords(*signs).len(),
            vertices@.len() < u32::MAX,
        ensures
            r.wf(),
            r.vertices@ == vertices@,
            r.triangle_indices@ == list_triangles(surface_records(*signs, vertices@)),
    {
        let cells = surface_cells(signs);
        let ghost records = surface_records(*signs, vertices@);
        let mut list: VertexList<V> = VertexList::with_capacity(cells.len());
        let mut i: usize = 0;
        while i < cells.len()
            invariant
                signs.wf(),
                cells@.len() == vertices@.len(),
                vertices@.len() < u32::MAX,
                cell_coords(cells@) == surface_coords(*signs),
                coords_increasing(cell_coords(cells@)),
                forall|j: int|
                    0 <= j < cells@.len() ==> (#[trigger] cells@[j]).positive@ == cell_samples(
                        *signs,
                        (cells@[j].x, cells@[j].y, cells@[j].z),
                    ),
                records == surface_records(*signs, vertices@),
                i <= cells@.len(),
                list.wf(),
                list.0@ == records.take(i as int),
            decreases cells@.len() - i,
        {
            let cell = &cells[i];
            let c = (cell.x, cell.y, cell.z);
            assert(cell_coords(cells@)[i as int] == c);
            proof {
                if i > 0 {
                    assert(cell_coords(cells@)[i - 1] == list.0@.last().cell);
                }
            }
            list.insert(c, cell.sign_changes(), vertices[i]);
            assert(list.0@ == records.take(i + 1));
            i += 1;
        }
        assert(records.take(i as int) == records);
        proof {
            assert(item_cells(records) =~= surface_coords(*signs));
            lemma_surface_records_resolvable(*signs, records);
            lemma_list_triangle_indices(records, records.len() as int);
        }
        // The records resolve, so stitching never reports a missing vertex.
        let triangle_indices = match list.fetch_triangle_indices() {
            Some(t) => t,
            None => Vec::new(),
        };
        let mesh_vertices = list.fetch_vertices();
        assert(mesh_vertices@ =~= vertices@);
        TriangleMesh { vertices: mesh_vertices, triangle_indices }
    }
}

} // verus!
