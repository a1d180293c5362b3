use std::collections::{BTreeMap, BTreeSet};

use sdf2mesh::extraction::surface_cells;
use sdf2mesh::grid3d::{Cell, CellEdge, Grid3D, VertexCell};
use sdf2mesh::mesh::{TriangleMesh, VertexList, VertexListItem};
use sdf2mesh::triangulator::WINDING_INVERTED;
use sdf2mesh::{Axis3D, Bounds, Edge, Quad, Triangle};

type Coord = (u16, u16, u16);

/// Signs of `f` sampled on an `n`^3 grid spanning `[lo, hi]^3`.
fn sign_grid(n: u16, lo: f32, hi: f32, f: impl Fn(f32, f32, f32) -> f32) -> Grid3D<bool> {
    let mut g: Grid3D<bool> = Grid3D::new(n, n, n);
    let step = (hi - lo) / (n as f32 - 1.0);
    for x in 0..n {
        for y in 0..n {
            for z in 0..n {
                let p = (lo + step * x as f32, lo + step * y as f32, lo + step * z as f32);
                *g.get_mut(x, y, z) = f(p.0, p.1, p.2) > 0.0;
            }
        }
    }
    g
}

fn sphere(r: f32) -> impl Fn(f32, f32, f32) -> f32 {
    move |x, y, z| (x * x + y * y + z * z).sqrt() - r
}

/// The streaming list of the surface cells, each vertex payload being the
/// cell's own coordinate.
fn stream_of(g: &Grid3D<bool>) -> VertexList<Coord> {
    let mut list = VertexList::with_capacity(0);
    for cell in surface_cells(g) {
        let c = (cell.x, cell.y, cell.z);
        assert!(list.can_insert(c));
        list.insert(c, cell.sign_changes(), c);
    }
    list
}

fn dense_of(g: &Grid3D<bool>) -> (Grid3D<Option<VertexCell>>, Vec<Coord>) {
    let mut records: Grid3D<Option<VertexCell>> =
        Grid3D::new(g.size_x(), g.size_y(), g.size_z());
    let mut vertices = Vec::new();
    for cell in surface_cells(g) {
        records.insert_vertex(&cell, &(cell.x, cell.y, cell.z), &mut vertices);
    }
    (records, vertices)
}

fn edge_counts(tris: &[Triangle<u32>]) -> BTreeMap<(u32, u32), usize> {
    let mut counts = BTreeMap::new();
    for t in tris {
        for (a, b) in [(t.0, t.1), (t.1, t.2), (t.2, t.0)] {
            *counts.entry((a.min(b), a.max(b))).or_insert(0) += 1;
        }
    }
    counts
}

#[test]
fn sphere_in_small_grid_is_closed() {
    let g = sign_grid(4, -2.0, 2.0, sphere(1.5));
    let mesh = TriangleMesh::from_vertex_list(stream_of(&g)).unwrap();
    assert!(!mesh.vertices.is_empty());
    assert!(!mesh.triangle_indices.is_empty());
    let counts = edge_counts(&mesh.triangle_indices);
    assert!(counts.values().all(|&c| c == 2));
    // Eight inner samples, each with three outward edges: 24 quads.
    assert_eq!(mesh.triangle_indices.len(), 48);
    for t in &mesh.triangle_indices {
        let n = mesh.vertices.len() as u32;
        assert!(t.0 < n && t.1 < n && t.2 < n);
    }
}

#[test]
fn sphere_mesh_from_sign_volume_is_closed() {
    let g = sign_grid(4, -2.0, 2.0, sphere(1.5));
    let cells = surface_cells(&g);
    let vertices: Vec<Coord> = cells.iter().map(|c| (c.x, c.y, c.z)).collect();
    let mesh = TriangleMesh::from_sign_volume(&g, &vertices);
    assert_eq!(mesh.vertices, vertices);
    assert_eq!(mesh.triangle_indices.len(), 48);
    assert!(edge_counts(&mesh.triangle_indices).values().all(|&c| c == 2));
    let streamed = TriangleMesh::from_vertex_list(stream_of(&g)).unwrap();
    assert_eq!(mesh.triangle_indices, streamed.triangle_indices);
}

#[test]
fn larger_sphere_mesh_is_closed() {
    let g = sign_grid(12, -1.0, 1.0, sphere(0.8));
    let n = surface_cells(&g).len();
    let vertices: Vec<usize> = (0..n).collect();
    let mesh = TriangleMesh::from_sign_volume(&g, &vertices);
    assert!(!mesh.triangle_indices.is_empty());
    assert!(edge_counts(&mesh.triangle_indices).values().all(|&c| c == 2));
}

#[test]
fn uniform_fields_yield_nothing() {
    for inside in [false, true] {
        let g = sign_grid(5, -1.0, 1.0, |_, _, _| if inside { -1.0 } else { 1.0 });
        assert!(surface_cells(&g).is_empty());
        let mesh = TriangleMesh::from_vertex_list(stream_of(&g)).unwrap();
        assert!(mesh.vertices.is_empty());
        assert!(mesh.triangle_indices.is_empty());
        let (records, vertices) = dense_of(&g);
        assert!(vertices.is_empty());
        assert_eq!(records.fetch_triangles_indices().unwrap().len(), 0);
    }
}

#[test]
fn dense_and_streaming_agree() {
    let g = sign_grid(7, -1.0, 1.0, sphere(0.7));
    let list = stream_of(&g);
    let list_vertices = list.fetch_vertices();
    let list_tris = list.fetch_triangle_indices().unwrap();
    let (records, dense_vertices) = dense_of(&g);
    let dense_tris = records.fetch_triangles_indices().unwrap();
    assert_eq!(list_vertices, dense_vertices);
    assert_eq!(list_tris.len(), dense_tris.len());
    let a: BTreeSet<(u32, u32, u32)> = list_tris.iter().map(|t| (t.0, t.1, t.2)).collect();
    let b: BTreeSet<(u32, u32, u32)> = dense_tris.iter().map(|t| (t.0, t.1, t.2)).collect();
    assert_eq!(a, b);
    assert!(!a.is_empty());
    let soup = records.fetch_triangles(&dense_vertices).unwrap();
    for (t, s) in dense_tris.iter().zip(soup.iter()) {
        assert_eq!(s.0, dense_vertices[t.0 as usize]);
        assert_eq!(s.1, dense_vertices[t.1 as usize]);
        assert_eq!(s.2, dense_vertices[t.2 as usize]);
    }
}

#[test]
fn single_voxel_crossings() {
    // No corner positive: nothing crosses.
    let none = Cell::new([false; 8], 0, 0, 0);
    assert!(none.crossing_edges().is_empty());
    assert!(none.try_fetch_crossing_edges().is_none());
    // One positive corner: its three edges cross, enough for a vertex.
    let mut corner = [false; 8];
    corner[7] = true;
    let one = Cell::new(corner, 0, 0, 0);
    let edges = one.try_fetch_crossing_edges().unwrap();
    assert_eq!(edges.len(), 3);
    assert!(matches!(edges[0].axis, Axis3D::Z));
    assert_eq!((edges[0].u, edges[0].v), (1, 1));
    assert_eq!(edges[0].endpoints(), (3, 7));
    assert!(matches!(edges[1].axis, Axis3D::Y));
    assert_eq!(edges[1].endpoints(), (5, 7));
    assert!(matches!(edges[2].axis, Axis3D::X));
    assert_eq!(edges[2].endpoints(), (6, 7));
    // A positive half along z: the four z edges cross.
    let half = Cell::new([false, false, false, false, true, true, true, true], 1, 2, 3);
    let edges = half.try_fetch_crossing_edges().unwrap();
    assert_eq!(edges.len(), 4);
    assert!(edges.iter().all(|e| matches!(e.axis, Axis3D::Z)));
}

#[test]
fn nth_edge_order() {
    let e = CellEdge::nth(6);
    assert!(matches!(e.axis, Axis3D::Y));
    assert_eq!((e.u, e.v), (1, 0));
    assert_eq!(e.endpoints(), (1, 3));
}

#[test]
fn sign_patterns() {
    let cell = Cell::new([true, true, false, false, true, false, false, false], 0, 0, 0);
    assert_eq!(cell.sign_changes(), (true, false, true, true));
    assert_eq!(cell.sign_changes_u8(), 0b1101);
    assert!(cell.get(0, 0, 1));
    assert!(!cell.get(1, 1, 0));
}

#[test]
fn vertex_cell_packing() {
    let cell = Cell::new([true, false, true, false, false, false, false, false], 0, 0, 0);
    let vc = VertexCell::new(5, &cell);
    assert_eq!(vc.0, 5 * 16 + 0b1010);
    assert_eq!(vc.vertex_id(), 5);
    assert_eq!(vc.changes(), (false, true, false, true));
    assert!(!vc.is_empty());
    assert_eq!(vc.vertex(&[10, 11, 12, 13, 14, 15]), 15);
    let packed = VertexCell::pack(3, (true, true, true, true));
    assert_eq!(packed.0, 63);
}

#[test]
fn first_vertex_with_empty_pattern_is_still_recorded() {
    // Vertex 0 with an all-negative pattern packs to zero, which the
    // record itself cannot tell from "no crossings"; the dense grid keeps
    // it apart by holding `Some`.
    let mut records: Grid3D<Option<VertexCell>> = Grid3D::new(2, 2, 2);
    let mut vertices = Vec::new();
    records.insert((0, 0, 0), (false, false, false, false), 'a', &mut vertices);
    let rec = records.get(0, 0, 0).unwrap();
    assert_eq!(rec.0, 0);
    assert!(rec.is_empty());
    assert!(records.get(1, 0, 0).is_none());
    assert_eq!(vertices, vec!['a']);
}

#[test]
fn missing_neighbour_vertex_aborts_stitching() {
    // A voxel whose x edge crosses needs three neighbours that are absent.
    let mut list = VertexList::default();
    assert!(list.is_empty());
    list.insert((0, 1, 1), (true, false, false, false), ());
    assert!(list.fetch_triangle_indices().is_none());
    assert!(TriangleMesh::from_vertex_list(list).is_none());
    let mut records: Grid3D<Option<VertexCell>> = Grid3D::new(2, 2, 2);
    let mut vertices = Vec::new();
    records.insert((0, 1, 1), (true, false, false, false), (), &mut vertices);
    assert!(records.fetch_triangles_indices().is_none());
}

#[test]
fn boundary_voxels_stitch_nothing() {
    // Crossings on every axis, but on the minimal faces no quad is formed.
    let mut list = VertexList::with_capacity(1);
    list.insert((0, 0, 0), (true, true, true, false), ());
    assert_eq!(list.fetch_triangle_indices().unwrap().len(), 0);
}

#[test]
fn quad_around_x_edge() {
    // Four voxels around the x edge of voxel (0, 1, 1), inserted in key order.
    let mut list = VertexList::with_capacity(4);
    list.insert((0, 0, 0), (false, false, false, false), ());
    list.insert((0, 1, 0), (false, false, false, false), ());
    list.insert((0, 0, 1), (false, false, false, false), ());
    assert!(!list.can_insert((0, 0, 1)));
    assert!(!list.can_insert((5, 0, 0)));
    list.insert((0, 1, 1), (false, false, false, true), ());
    assert_eq!(list.len(), 4);
    let tris = list.fetch_triangle_indices().unwrap();
    // Quad (v(0,0,0), v(0,1,0), v(0,1,1), v(0,0,1)) = (0, 1, 3, 2), not
    // reversed since the +x corner is negative.
    assert_eq!(tris, vec![Triangle(3, 1, 0), Triangle(0, 2, 3)]);
    // The same voxel with the +x corner positive and origin negative
    // reverses the quad.
    let mut list = VertexList::with_capacity(4);
    list.insert((0, 0, 0), (false, false, false, false), ());
    list.insert((0, 1, 0), (false, false, false, false), ());
    list.insert((0, 0, 1), (false, false, false, false), ());
    list.insert((0, 1, 1), (true, false, false, false), ());
    let tris = list.fetch_triangle_indices().unwrap();
    assert_eq!(tris, vec![Triangle(1, 3, 2), Triangle(2, 0, 1)]);
}

#[test]
fn winding_table() {
    assert_eq!(WINDING_INVERTED, [false, true, false]);
}

#[test]
fn sort_key_layout() {
    assert_eq!(VertexListItem::<()>::compute_index(1, 2, 3), 1 | (2 << 16) | (3 << 32));
    assert_eq!(VertexListItem::<()>::compute_index(65535, 0, 0), 65535);
    let item = VertexListItem { cell: (0, 0, 1), sign_changes: (false, false, false, false), vertex: () };
    assert_eq!(item.index(), 1 << 32);
}

#[test]
fn grid_index_layout() {
    let mut g: Grid3D<u32> = Grid3D::new(2, 3, 4);
    assert_eq!(g.n_cells(), 24);
    assert_eq!(g.index(1, 2, 3), (1 * 3 + 2) * 4 + 3);
    assert_eq!(g.index(0, 0, 1), 1);
    *g.get_mut(1, 0, 2) = 9;
    assert_eq!(g.data[(1 * 3 + 0) * 4 + 2], 9);
    assert_eq!(*g.get(1, 0, 2), 9);
    assert_eq!((g.size_x(), g.size_y(), g.size_z()), (2, 3, 4));
    let f = Grid3D::filled(2, 2, 2, 7u8);
    assert_eq!(f.cell_corners(0, 0, 0), [7; 8]);
    let mut h: Grid3D<u8> = Grid3D::new(2, 2, 2);
    for i in 0..8 {
        h.data[i] = i as u8;
    }
    // Corners in x-fastest order; buffer in z-fastest order.
    assert_eq!(h.cell_corners(0, 0, 0), [0, 4, 2, 6, 1, 5, 3, 7]);
}

#[test]
fn mesh_triangles_and_clear() {
    let mut mesh = TriangleMesh {
        vertices: vec!['a', 'b', 'c', 'd'],
        triangle_indices: vec![Triangle(0, 1, 2), Triangle(3, 2, 1)],
    };
    let tris = mesh.fetch_triangles();
    assert_eq!(tris, vec![Triangle('a', 'b', 'c'), Triangle('d', 'c', 'b')]);
    mesh.clear();
    assert!(mesh.vertices.is_empty() && mesh.triangle_indices.is_empty());
    let empty: TriangleMesh<char> = TriangleMesh::default();
    assert!(empty.vertices.is_empty());
}

#[test]
fn quads_edges_and_bounds() {
    let q = Quad(1, 2, 3, 4);
    assert_eq!(q.swap(false), q);
    assert_eq!(q.swap(true), Quad(4, 3, 2, 1));
    assert_eq!(q.make_triangles(), (Triangle(3, 2, 1), Triangle(1, 4, 3)));
    let e = Edge(1, 2).swap(true);
    assert_eq!((e.0, e.1), (2, 1));
    let e = Edge(1, 2).swap(false);
    assert_eq!((e.0, e.1), (1, 2));
    let mut b = Bounds::min_max(1, 5);
    assert_eq!((*b.min(), *b.max()), (1, 5));
    *b.min_mut() = -3;
    *b.max_mut() = 8;
    assert_eq!((b.0, b.1), (-3, 8));
}

/// Cross product of `b - a` and `c - a`.
fn cross_from(a: [f32; 3], b: [f32; 3], c: [f32; 3]) -> [f32; 3] {
    let u = [b[0] - a[0], b[1] - a[1], b[2] - a[2]];
    let v = [c[0] - a[0], c[1] - a[1], c[2] - a[2]];
    [u[1] * v[2] - u[2] * v[1], u[2] * v[0] - u[0] * v[2], u[0] * v[1] - u[1] * v[0]]
}

/// Every triangle's normal `(v2 - v0) x (v1 - v0)` points away from the
/// side whose samples are positive: for a sphere SDF, negative inside, that
/// is towards the centre, with no exception.
#[test]
fn sphere_triangles_face_away_from_positive_side() {
    let (n, lo, hi) = (16u16, -1.0f32, 1.0f32);
    let g = sign_grid(n, lo, hi, sphere(0.6));
    let step = (hi - lo) / (n as f32 - 1.0);
    let centers: Vec<[f32; 3]> = surface_cells(&g)
        .iter()
        .map(|c| {
            [
                lo + step * (c.x as f32 + 0.5),
                lo + step * (c.y as f32 + 0.5),
                lo + step * (c.z as f32 + 0.5),
            ]
        })
        .collect();
    let mesh = TriangleMesh::from_sign_volume(&g, &centers);
    let mut towards_negative = 0usize;
    for t in &mesh.triangle_indices {
        let (v0, v1, v2) = (
            mesh.vertices[t.0 as usize],
            mesh.vertices[t.1 as usize],
            mesh.vertices[t.2 as usize],
        );
        // The normal (v2 - v0) x (v1 - v0).
        let normal = cross_from(v0, v2, v1);
        let centroid = [
            (v0[0] + v1[0] + v2[0]) / 3.0,
            (v0[1] + v1[1] + v2[1]) / 3.0,
            (v0[2] + v1[2] + v2[2]) / 3.0,
        ];
        let dot = normal[0] * centroid[0] + normal[1] * centroid[1] + normal[2] * centroid[2];
        if dot < 0.0 {
            towards_negative += 1;
        }
    }
    let total = mesh.triangle_indices.len();
    assert!(total > 0);
    assert_eq!(towards_negative, total);
}

#[test]
fn sphere_surface_cells_straddle_the_sphere() {
    let (n, lo, hi, r) = (24u16, -1.0f32, 1.0f32, 0.7f32);
    let g = sign_grid(n, lo, hi, sphere(r));
    let step = (hi - lo) / (n as f32 - 1.0);
    let diagonal = step * 3.0f32.sqrt();
    let cells = surface_cells(&g);
    assert!(!cells.is_empty());
    for c in &cells {
        let p = [
            lo + step * (c.x as f32 + 0.5),
            lo + step * (c.y as f32 + 0.5),
            lo + step * (c.z as f32 + 0.5),
        ];
        let d = (p[0] * p[0] + p[1] * p[1] + p[2] * p[2]).sqrt();
        assert!((d - r).abs() <= diagonal);
    }
}
