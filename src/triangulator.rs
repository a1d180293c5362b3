use vstd::prelude::*;

use crate::geometry::{quad_swapped, quad_triangles, Quad, Triangle};

verus! {

/// A voxel's grid coordinate `(x, y, z)`.
pub type Coord = (u16, u16, u16);

/// A voxel's sign pattern: whether its corners at `+x`, `+y`, `+z` and its
/// origin corner are positive, in that order.
pub type Pattern = (bool, bool, bool, bool);

/// Whether the voxel's principal edge along `axis` (0, 1, 2 for x, y, z)
/// joins two corners of different sign.
pub open spec fn crosses(p: Pattern, axis: int) -> bool {
    if axis == 0 {
        p.0 != p.3
    } else if axis == 1 {
        p.1 != p.3
    } else {
        p.2 != p.3
    }
}

/// Whether both coordinates in the plane perpendicular to `axis` are
/// positive, so that the neighbours at -1 along them exist.
pub open spec fn in_plane_positive(c: Coord, axis: int) -> bool {
    if axis == 0 {
        c.1 > 0 && c.2 > 0
    } else if axis == 1 {
        c.0 > 0 && c.2 > 0
    } else {
        c.0 > 0 && c.1 > 0
    }
}

/// Whether the voxel at `c` with pattern `p` stitches a quad around its
/// principal edge along `axis`.
pub open spec fn axis_active(c: Coord, p: Pattern, axis: int) -> bool {
    crosses(p, axis) && in_plane_positive(c, axis)
}

/// The four voxels sharing the principal edge of `c` along `axis`: `c`
/// stepped back along both in-plane axes, along the first, `c` itself, and
/// `c` stepped back along the second.
pub open spec fn axis_quad(c: Coord, axis: int) -> Quad<Coord> {
    let (x, y, z) = c;
    if axis == 0 {
        Quad(
            (x, (y - 1) as u16, (z - 1) as u16),
            (x, y, (z - 1) as u16),
            (x, y, z),
            (x, (y - 1) as u16, z),
        )
    } else if axis == 1 {
        Quad(
            ((x - 1) as u16, y, (z - 1) as u16),
            (x, y, (z - 1) as u16),
            (x, y, z),
            ((x - 1) as u16, y, z),
        )
    } else {
        Quad(
            ((x - 1) as u16, (y - 1) as u16, z),
            (x, (y - 1) as u16, z),
            (x, y, z),
            ((x - 1) as u16, y, z),
        )
    }
}

/// The fixed winding convention: the x axis reverses its quad when the
/// `+x` corner is positive, the y axis when the `+y` corner is not, and
/// the z axis when the `+z` corner is positive.
pub open spec fn winding_inverted(axis: int) -> bool {
    axis == 1
}

/// Whether the quad around the principal edge along `axis` is reversed.
pub open spec fn axis_flip(p: Pattern, axis: int) -> bool {
    let bit = if axis == 0 {
        p.0
    } else if axis == 1 {
        p.1
    } else {
        p.2
    };
    bit != winding_inverted(axis)
}

pub open spec fn quad_map(q: Quad<Coord>, f: spec_fn(Coord) -> u32) -> Quad<u32> {
    Quad(f(q.0), f(q.1), f(q.2), f(q.3))
}

/// The two triangles stitched around the principal edge along `axis` of
/// the voxel at `c`, or none, given the vertex index `f` of each voxel.
pub open spec fn axis_triangles(
    f: spec_fn(Coord) -> u32,
    c: Coord,
    p: Pattern,
    axis: int,
) -> Seq<Triangle<u32>> {
    if axis_active(c, p, axis) {
        let t = quad_triangles(quad_swapped(quad_map(axis_quad(c, axis), f), axis_flip(p, axis)));
        seq![t.0, t.1]
    } else {
        seq![]
    }
}

/// All triangles that the voxel at `c` stitches: those of the x axis, then
/// of the y axis, then of the z axis.
pub open spec fn cell_triangles(f: spec_fn(Coord) -> u32, c: Coord, p: Pattern) -> Seq<
    Triangle<u32>,
> {
    axis_triangles(f, c, p, 0) + axis_triangles(f, c, p, 1) + axis_triangles(f, c, p, 2)
}

/// Whether every voxel that the quads of `c` need is present.
pub open spec fn cell_resolvable(present: spec_fn(Coord) -> bool, c: Coord, p: Pattern) -> bool {
    forall|axis: int|
        0 <= axis < 3 && #[trigger] axis_active(c, p, axis) ==> {
            let q = axis_quad(c, axis);
            present(q.0) && present(q.1) && present(q.2) && present(q.3)
        }
}

/// Two resolvers that agree on the voxels a cell needs give it the same
/// triangles.
pub proof fn lemma_cell_triangles_agree(
    present: spec_fn(Coord) -> bool,
    f: spec_fn(Coord) -> u32,
    g: spec_fn(Coord) -> u32,
    c: Coord,
    p: Pattern,
)
    requires
        cell_resolvable(present, c, p),
        forall|d: Coord| #[trigger] present(d) ==> f(d) == g(d),
    ensures
        cell_triangles(f, c, p) == cell_triangles(g, c, p),
{
}

/// Every index in the triangles of a resolvable cell is one the resolver
/// gives to a present voxel.
pub proof fn lemma_cell_triangle_indices(
    present: spec_fn(Coord) -> bool,
    f: spec_fn(Coord) -> u32,
    bound: int,
    c: Coord,
    p: Pattern,
)
    requires
        cell_resolvable(present, c, p),
        forall|d: Coord| #[trigger] present(d) ==> f(d) < bound,
    ensures
        forall|k: int|
            0 <= k < cell_triangles(f, c, p).len() ==> {
                let t = #[trigger] cell_triangles(f, c, p)[k];
                t.0 < bound && t.1 < bound && t.2 < bound
            },
{
}

/// The stitching convention's per-axis reversal flag, as a lookup table.
pub const WINDING_INVERTED: [bool; 3] = [false, true, false];

pub fn is_axis_active(c: Coord, p: Pattern, axis: usize) -> (r: bool)
    requires
        axis < 3,
    ensures
        r == axis_active(c, p, axis as int),
{
    let (x, y, z) = c;
    if axis == 0 {
        p.0 != p.3 && y > 0 && z > 0
    } else if axis == 1 {
        p.1 != p.3 && x > 0 && z > 0
    } else {
        p.2 != p.3 && x > 0 && y > 0
    }
}

pub fn axis_winding_flip(p: Pattern, axis: usize) -> (r: bool)
    requires
        axis < 3,
    ensures
        r == axis_flip(p, axis as int),
{
    let bit = if axis == 0 {
        p.0
    } else if axis == 1 {
        p.1
    } else {
        p.2
    };
    bit != WINDING_INVERTED[axis]
}

pub fn axis_quad_cells(c: Coord, axis: usize) -> (r: Quad<Coord>)
    requires
        axis < 3,
        in_plane_positive(c, axis as int),
    ensures
        r == axis_quad(c, axis as int),
{
    let (x, y, z) = c;
    if axis == 0 {
        Quad((x, y - 1, z - 1), (x, y, z - 1), (x, y, z), (x, y - 1, z))
    } else if axis == 1 {
        Quad((x - 1, y, z - 1), (x, y, z - 1), (x, y, z), (x - 1, y, z))
    } else {
        Quad((x - 1, y - 1, z), (x, y - 1, z), (x, y, z), (x - 1, y, z))
    }
}

/// Appends the two triangles of `q`, reversed first when `flip` holds.
pub fn push_quad_triangles(out: &mut Vec<Triangle<u32>>, q: Quad<u32>, flip: bool)
    ensures
        final(out)@ == old(out)@ + {
            let t = quad_triangles(quad_swapped(q, flip));
            seq![t.0, t.1]
        },
{
    let tris = q.swap(flip).make_triangles();
    out.push(tris.0);
    out.push(tris.1);
}

/// The lookup that both vertex accumulation strategies offer: the index of
/// the vertex recorded for a voxel.
pub trait VertexResolver {
    spec fn inv(&self) -> bool;

    /// Which voxels have a recorded vertex.
    spec fn present(&self) -> spec_fn(Coord) -> bool;

    /// The vertex index recorded for each present voxel.
    spec fn resolver(&self) -> spec_fn(Coord) -> u32;

    fn resolve(&self, c: Coord) -> (r: Option<u32>)
        requires
            self.inv(),
        ensures
            r is Some <==> (self.present())(c),
            r is Some ==> r->0 == (self.resolver())(c),
    ;
}

/// Appends the triangles of the voxel `c` around its principal edge along
/// `axis`; false where a voxel of its quad has no vertex.
pub fn stitch_axis<A: VertexResolver>(
    acc: &A,
    c: Coord,
    p: Pattern,
    axis: usize,
    out: &mut Vec<Triangle<u32>>,
) -> (ok: bool)
    requires
        acc.inv(),
        axis < 3,
    ensures
        ok == (axis_active(c, p, axis as int) ==> {
            let q = axis_quad(c, axis as int);
            let present = acc.present();
            present(q.0) && present(q.1) && present(q.2) && present(q.3)
        }),
        ok ==> final(out)@ == old(out)@ + axis_triangles(acc.resolver(), c, p, axis as int),
{
    if !is_axis_active(c, p, axis) {
        return true;
    }
    let q = axis_quad_cells(c, axis);
    match (acc.resolve(q.0), acc.resolve(q.1), acc.resolve(q.2), acc.resolve(q.3)) {
        (Some(a), Some(b), Some(d), Some(e)) => {
            push_quad_triangles(out, Quad(a, b, d, e), axis_winding_flip(p, axis));
            true
        },
        _ => false,
    }
}

/// Appends all triangles of the voxel `c` with pattern `p`; false where a
/// voxel of one of its quads has no vertex.
pub fn stitch_cell<A: VertexResolver>(acc: &A, c: Coord, p: Pattern, out: &mut Vec<Triangle<u32>>) -> (ok: bool)
    requires
        acc.inv(),
    ensures
        ok == cell_resolvable(acc.present(), c, p),
        ok ==> final(out)@ == old(out)@ + cell_triangles(acc.resolver(), c, p),
{
    let ok0 = stitch_axis(acc, c, p, 0, out);
    let ok1 = ok0 && stitch_axis(acc, c, p, 1, out);
    let ok2 = ok1 && stitch_axis(acc, c, p, 2, out);
    proof {
        if !ok2 {
            if !ok0 {
                assert(axis_active(c, p, 0));
            } else if !ok1 {
                assert(axis_active(c, p, 1));
            } else {
                assert(axis_active(c, p, 2));
            }
        } else {
            assert forall|axis: int| 0 <= axis < 3 && #[trigger] axis_active(c, p, axis) implies {
                let q = axis_quad(c, axis);
                let present = acc.present();
                present(q.0) && present(q.1) && present(q.2) && present(q.3)
            } by {
                assert(axis == 0 || axis == 1 || axis == 2);
            }
        }
    }
    ok2
}

} // verus!
