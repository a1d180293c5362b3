use vstd::prelude::*;

verus! {

/// An axis of the plane.
#[derive(Clone, Copy, Debug, PartialEq, Eq, Structural)]
pub enum Axis2D {
    X,
    Y,
}

/// An axis of space.
#[derive(Clone, Copy, Debug, PartialEq, Eq, Structural)]
pub enum Axis3D {
    X,
    Y,
    Z,
}

/// An axis-aligned box given by its two corners, `min` first.
///
/// Nothing forces `min <= max`: a box that was built from two arbitrary
/// corners keeps them as given.
#[derive(Clone, Copy)]
pub struct Bounds<T: Copy>(pub T, pub T);

impl<T: Copy> Bounds<T> {
    pub fn min_max(min: T, max: T) -> (r: Self)
        ensures
            r.0 == min,
            r.1 == max,
    {
        Bounds(min, max)
    }

    pub fn min(&self) -> (r: &T)
        ensures
            *r == self.0,
    {
        &self.0
    }

    pub fn max(&self) -> (r: &T)
        ensures
            *r == self.1,
    {
        &self.1
    }

    pub fn min_mut(&mut self) -> (r: &mut T)
        ensures
            *r == old(self).0,
            *final(self) == Bounds(*final(r), old(self).1),
    {
        &mut self.0
    }

    pub fn max_mut(&mut self) -> (r: &mut T)
        ensures
            *r == old(self).1,
            *final(self) == Bounds(old(self).0, *final(r)),
    {
        &mut self.1
    }
}

/// A directed segment between two items.
pub struct Edge<T: Copy>(pub T, pub T);

impl<T: Copy> Edge<T> {
    /// The same edge, reversed when `yes` holds.
    pub fn swap(&self, yes: bool) -> (r: Edge<T>)
        ensures
            yes ==> r.0 == self.1 && r.1 == self.0,
            !yes ==> r.0 == self.0 && r.1 == self.1,
    {
        if yes {
            Edge(self.1, self.0)
        } else {
            Edge(self.0, self.1)
        }
    }
}

/// Three items in winding order.
#[derive(Clone, Copy, Debug, PartialEq, Eq)]
pub struct Triangle<T: Copy>(pub T, pub T, pub T);

/// Four items in winding order, the corners of a quadrilateral.
#[derive(Clone, Copy, Default, Debug, PartialEq, Eq)]
pub struct Quad<T: Copy>(pub T, pub T, pub T, pub T);

/// The quad with its winding reversed when `yes` holds.
pub open spec fn quad_swapped<T: Copy>(q: Quad<T>, yes: bool) -> Quad<T> {
    if yes {
        Quad(q.3, q.2, q.1, q.0)
    } else {
        q
    }
}

/// The two triangles of a quad, split along the diagonal from its first to
/// its third corner; both keep the quad's orientation.
pub open spec fn quad_triangles<T: Copy>(q: Quad<T>) -> (Triangle<T>, Triangle<T>) {
    (Triangle(q.2, q.1, q.0), Triangle(q.0, q.3, q.2))
}

/// Whether the triangle runs from `a` straight to `b` along one of its
/// sides.
pub open spec fn has_directed_edge<T: Copy>(t: Triangle<T>, a: T, b: T) -> bool {
    (t.0 == a && t.1 == b) || (t.1 == a && t.2 == b) || (t.2 == a && t.0 == b)
}

/// The two triangles of a quad face the same way: each side of the quad is
/// run backwards by one of them, and they run their shared diagonal in
/// opposite directions.
pub proof fn lemma_quad_triangles_consistent<T: Copy>(q: Quad<T>)
    ensures
        ({
            let (t0, t1) = quad_triangles(q);
            &&& has_directed_edge(t0, q.1, q.0)
            &&& has_directed_edge(t0, q.2, q.1)
            &&& has_directed_edge(t1, q.3, q.2)
            &&& has_directed_edge(t1, q.0, q.3)
            &&& has_directed_edge(t0, q.0, q.2)
            &&& has_directed_edge(t1, q.2, q.0)
        }),
{
}

impl<T: Copy> Quad<T> {
    pub fn swap(&self, yes: bool) -> (r: Quad<T>)
        ensures
            r == quad_swapped(*self, yes),
    {
        if yes {
            Quad(self.3, self.2, self.1, self.0)
        } else {
            Quad(self.0, self.1, self.2, self.3)
        }
    }

    pub fn make_triangles(&self) -> (r: (Triangle<T>, Triangle<T>))
        ensures
            r == quad_triangles(*self),
    {
        (Triangle(self.2, self.1, self.0), Triangle(self.0, self.3, self.2))
    }
}

} // verus!
