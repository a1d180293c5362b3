use vstd::prelude::*;

use crate::geometry::Triangle;
use crate::grid3d::{
    bits_pattern, dense_present, dense_record, dense_resolvable, dense_resolver,
    dense_triangles, dense_triangles_upto, grid_coord, grid_index, in_grid,
    lemma_grid_coord_injective, lemma_grid_coord_inverse, lemma_grid_index_bounds,
    lemma_vertex_cell_round_trip, n_samples, Grid3D, Grid3DResolution, VertexCell,
};
use crate::mesh::{
    keys_increasing, lemma_list_index_unique, list_present, list_resolvable, list_resolver,
    list_triangles, list_triangles_upto, VertexListItem,
};
use crate::triangulator::{cell_triangles, lemma_cell_triangles_agree, Coord};

verus! {

/// The dense record buffer after inserting the first `n` records of `s`,
/// one `insert` each, into an empty volume of resolution `size`.
pub open spec fn dense_records<V>(size: Grid3DResolution, s: Seq<VertexListItem<V>>, n: int) -> Seq<
    Option<VertexCell>,
>
    decreases n,
{
    if n <= 0 {
        Seq::new(n_samples(size) as nat, |i: int| None)
    } else {
        dense_records(size, s, n - 1).update(
            grid_index(size, s[n - 1].cell.0 as int, s[n - 1].cell.1 as int, s[n - 1].cell.2 as int),
            Some(dense_record(n - 1, s[n - 1].sign_changes)),
        )
    }
}

pub open spec fn cell_index(size: Grid3DResolution, c: Coord) -> int {
    grid_index(size, c.0 as int, c.1 as int, c.2 as int)
}

proof fn lemma_cell_index_injective(size: Grid3DResolution, a: Coord, b: Coord)
    requires
        in_grid(size, a),
        in_grid(size, b),
        cell_index(size, a) == cell_index(size, b),
    ensures
        a == b,
{
    lemma_grid_coord_injective(size, a);
    lemma_grid_coord_injective(size, b);
}

proof fn lemma_dense_records<V>(size: Grid3DResolution, s: Seq<VertexListItem<V>>, n: int)
    requires
        keys_increasing(s),
        forall|i: int| 0 <= i < s.len() ==> in_grid(size, #[trigger] s[i].cell),
        0 <= n <= s.len(),
    ensures
        dense_records(size, s, n).len() == n_samples(size),
        forall|i: int|
            0 <= i < n ==> dense_records(size, s, n)[cell_index(size, #[trigger] s[i].cell)]
                == Some(dense_record(i, s[i].sign_changes)),
        forall|c: Coord|
            in_grid(size, c) && (#[trigger] dense_records(size, s, n)[cell_index(size, c)]) is Some
                ==> exists|i: int| 0 <= i < n && #[trigger] s[i].cell == c,
    decreases n,
{
    if n == 0 {
        assert forall|c: Coord|
            in_grid(size, c) && (#[trigger] dense_records(size, s, n)[cell_index(size, c)]) is Some
                implies exists|i: int| 0 <= i < n && #[trigger] s[i].cell == c by {
            lemma_grid_index_bounds(size, c.0 as int, c.1 as int, c.2 as int);
        }
    } else {
        lemma_dense_records(size, s, n - 1);
        let prev = dense_records(size, s, n - 1);
        let last = s[n - 1].cell;
        lemma_grid_index_bounds(size, last.0 as int, last.1 as int, last.2 as int);
        assert(dense_records(size, s, n) == prev.update(
            cell_index(size, last),
            Some(dense_record(n - 1, s[n - 1].sign_changes)),
        ));
        assert forall|i: int| 0 <= i < n implies dense_records(size, s, n)[cell_index(
            size,
            #[trigger] s[i].cell,
        )] == Some(dense_record(i, s[i].sign_changes)) by {
            let c = s[i].cell;
            lemma_grid_index_bounds(size, c.0 as int, c.1 as int, c.2 as int);
            if i < n - 1 {
                assert(s[i].cell != last) by {
                    assert(crate::mesh::sort_key(s[i].cell) < crate::mesh::sort_key(s[n - 1].cell));
                }
                if cell_index(size, s[i].cell) == cell_index(size, last) {
                    lemma_cell_index_injective(size, s[i].cell, last);
                }
            }
        }
        assert forall|c: Coord|
            in_grid(size, c) && (#[trigger] dense_records(size, s, n)[cell_index(size, c)]) is Some
                implies exists|i: int| 0 <= i < n && #[trigger] s[i].cell == c by {
            lemma_grid_index_bounds(size, c.0 as int, c.1 as int, c.2 as int);
            if cell_index(size, c) == cell_index(size, last) {
                lemma_cell_index_injective(size, c, last);
                assert(s[n - 1].cell == c);
            } else {
                assert(prev[cell_index(size, c)] is Some);
            }
        }
    }
}

pub proof fn lemma_concat_contains<A>(a: Seq<A>, b: Seq<A>, t: A)
    ensures
        (a + b).contains(t) <==> a.contains(t) || b.contains(t),
{
    if (a + b).contains(t) {
        let k = choose|k: int| 0 <= k < (a + b).len() && (a + b)[k] == t;
        if k >= a.len() {
            assert(b[k - a.len()] == t);
        }
    }
    if a.contains(t) {
        let k = choose|k: int| 0 <= k < a.len() && a[k] == t;
        assert((a + b)[k] == t);
    }
    if b.contains(t) {
        let k = choose|k: int| 0 <= k < b.len() && b[k] == t;
        assert((a + b)[k + a.len()] == t);
    }
}

proof fn lemma_dense_contains(g: Grid3D<Option<VertexCell>>, n: int, t: Triangle<u32>)
    requires
        0 <= n <= g.data@.len(),
    ensures
        dense_triangles_upto(g, n).contains(t) <==> exists|k: int|
            0 <= k < n && (#[trigger] g.data@[k]) is Some && cell_triangles(
                dense_resolver(g),
                grid_coord(g.size, k),
                bits_pattern((g.data@[k]->0).0 as int),
            ).contains(t),
    decreases n,
{
    if n > 0 {
        lemma_dense_contains(g, n - 1, t);
        let b = match g.data@[n - 1] {
            Some(vc) => cell_triangles(
                dense_resolver(g),
                grid_coord(g.size, n - 1),
                bits_pattern(vc.0 as int),
            ),
            None => seq![],
        };
        lemma_concat_contains(dense_triangles_upto(g, n - 1), b, t);
        if b.contains(t) {
            assert(g.data@[n - 1] is Some);
        }
    }
}

proof fn lemma_list_contains<V>(s: Seq<VertexListItem<V>>, n: int, t: Triangle<u32>)
    requires
        0 <= n <= s.len(),
    ensures
        list_triangles_upto(s, n).contains(t) <==> exists|i: int|
            0 <= i < n && cell_triangles(
                list_resolver(s),
                #[trigger] s[i].cell,
                s[i].sign_changes,
            ).contains(t),
    decreases n,
{
    if n > 0 {
        lemma_list_contains(s, n - 1, t);
        lemma_concat_contains(
            list_triangles_upto(s, n - 1),
            cell_triangles(list_resolver(s), s[n - 1].cell, s[n - 1].sign_changes),
            t,
        );
    }
}

/// Fed the same ordered stream of records `s` — the dense strategy by one
/// `insert` per record into an empty volume, the streaming strategy by
/// keeping the records as its list — both strategies hold a vertex for the
/// same voxels, give each the same vertex index (its record's position, so
/// both vertex lists are the records' vertices in order), agree on whether
/// stitching succeeds, and where it does stitch the same set of triangles.
#[verifier::rlimit(30)]
pub proof fn lemma_strategies_agree<V>(g: Grid3D<Option<VertexCell>>, s: Seq<VertexListItem<V>>)
    requires
        keys_increasing(s),
        s.len() < 0x1000_0000,
        forall|i: int| 0 <= i < s.len() ==> in_grid(g.size, #[trigger] s[i].cell),
        g.data@ == dense_records(g.size, s, s.len() as int),
    ensures
        dense_present(g) == list_present(s),
        forall|c: Coord| #[trigger] dense_present(g)(c) ==> dense_resolver(g)(c) == list_resolver(s)(c),
        dense_resolvable(g) <==> list_resolvable(s),
        dense_resolvable(g) ==> forall|t: Triangle<u32>|
            dense_triangles(g).contains(t) <==> #[trigger] list_triangles(s).contains(t),
{
    let size = g.size;
    let n = s.len() as int;
    lemma_dense_records(size, s, n);
    // The record of each present voxel is that of its entry in the stream.
    assert forall|i: int| 0 <= i < n implies {
        &&& #[trigger] g.at(s[i].cell) == Some(dense_record(i, s[i].sign_changes))
        &&& dense_resolver(g)(s[i].cell) == i
        &&& list_resolver(s)(s[i].cell) == i
        &&& bits_pattern((g.at(s[i].cell)->0).0 as int) == s[i].sign_changes
    } by {
        assert(g.at(s[i].cell) == g.data@[cell_index(size, s[i].cell)]);
        lemma_vertex_cell_round_trip(i as u32, s[i].sign_changes);
        lemma_list_index_unique(s, i);
    }
    assert forall|c: Coord| #[trigger] dense_present(g)(c) == list_present(s)(c) by {
        if list_present(s)(c) {
            let i = choose|i: int| 0 <= i < s.len() && #[trigger] s[i].cell == c;
            assert(g.at(s[i].cell) is Some);
        }
        if dense_present(g)(c) {
            assert(g.data@[cell_index(size, c)] is Some);
            let i = choose|i: int| 0 <= i < n && #[trigger] s[i].cell == c;
            assert(s[i].cell == c);
        }
    }
    assert(dense_present(g) =~= list_present(s));
    assert forall|c: Coord| #[trigger] dense_present(g)(c) implies dense_resolver(g)(c) == list_resolver(s)(c) by {
        assert(list_present(s)(c));
        let i = choose|i: int| 0 <= i < s.len() && #[trigger] s[i].cell == c;
        assert(g.at(s[i].cell) is Some);
    }
    if dense_resolvable(g) {
        assert forall|i: int| 0 <= i < n implies crate::triangulator::cell_resolvable(
            list_present(s),
            #[trigger] s[i].cell,
            s[i].sign_changes,
        ) by {
            assert(g.at(s[i].cell) is Some);
        }
    }
    if list_resolvable(s) {
        assert forall|c: Coord| in_grid(size, c) && #[trigger] g.at(c) is Some implies crate::triangulator::cell_resolvable(
            dense_present(g),
            c,
            bits_pattern((g.at(c)->0).0 as int),
        ) by {
            assert(g.data@[cell_index(size, c)] is Some);
            let i = choose|i: int| 0 <= i < n && #[trigger] s[i].cell == c;
            assert(s[i].cell == c);
        }
    }
    if dense_resolvable(g) {
        assert forall|t: Triangle<u32>|
            dense_triangles(g).contains(t) <==> #[trigger] list_triangles(s).contains(t) by {
            lemma_dense_contains(g, g.data@.len() as int, t);
            lemma_list_contains(s, n, t);
            if dense_triangles(g).contains(t) {
                let k = choose|k: int|
                    0 <= k < g.data@.len() && (#[trigger] g.data@[k]) is Some && cell_triangles(
                        dense_resolver(g),
                        grid_coord(size, k),
                        bits_pattern((g.data@[k]->0).0 as int),
                    ).contains(t);
                let c = grid_coord(size, k);
                lemma_grid_coord_inverse(size, k);
                assert(g.at(c) is Some);
                let i = choose|i: int| 0 <= i < n && #[trigger] s[i].cell == c;
                assert(s[i].cell == c);
                lemma_cell_triangles_agree(
                    list_present(s),
                    dense_resolver(g),
                    list_resolver(s),
                    c,
                    s[i].sign_changes,
                );
            }
            if list_triangles(s).contains(t) {
                let i = choose|i: int|
                    0 <= i < n && cell_triangles(
                        list_resolver(s),
                        #[trigger] s[i].cell,
                        s[i].sign_changes,
                    ).contains(t);
                let c = s[i].cell;
                let k = cell_index(size, c);
                lemma_grid_index_bounds(size, c.0 as int, c.1 as int, c.2 as int);
                lemma_grid_coord_injective(size, c);
                assert(g.at(c) is Some);
                lemma_cell_triangles_agree(
                    list_present(s),
                    dense_resolver(g),
                    list_resolver(s),
                    c,
                    s[i].sign_changes,
                );
                assert(g.data@[k] is Some);
            }
        }
    }
}

} // verus!
