use vstd::prelude::*;

use crate::mesh::{IcoCoord, MeshView, Vertex};

verus! {

/// Integer vectors in three dimensions.
pub type Vec3 = (int, int, int);

pub open spec fn add3(u: Vec3, w: Vec3) -> Vec3 {
    (u.0 + w.0, u.1 + w.1, u.2 + w.2)
}

pub open spec fn sub3(u: Vec3, w: Vec3) -> Vec3 {
    (u.0 - w.0, u.1 - w.1, u.2 - w.2)
}

pub open spec fn scale3(k: int, u: Vec3) -> Vec3 {
    (k * u.0, k * u.1, k * u.2)
}

pub open spec fn dot3(u: Vec3, w: Vec3) -> int {
    u.0 * w.0 + u.1 * w.1 + u.2 * w.2
}

/// The cross product, with the same component formulas as the renderer's
/// surface normal.
pub open spec fn cross3(u: Vec3, w: Vec3) -> Vec3 {
    (u.1 * w.2 - u.2 * w.1, u.2 * w.0 - u.0 * w.2, u.0 * w.1 - u.1 * w.0)
}

/// The normal of the triangle `a, b, c`: `(b - a) x (c - a)`.
pub open spec fn normal3(a: Vec3, b: Vec3, c: Vec3) -> Vec3 {
    cross3(sub3(b, a), sub3(c, a))
}

/// The numerators of a rational point (zero for other kinds of vertex).
pub open spec fn numerators(v: Vertex) -> Vec3 {
    match v {
        Vertex::Exact { x, y, z, .. } => (x as int, y as int, z as int),
        _ => (0, 0, 0),
    }
}

/// The denominator of a rational point (zero for other kinds of vertex).
pub open spec fn denominator(v: Vertex) -> int {
    match v {
        Vertex::Exact { den, .. } => den as int,
        _ => 0,
    }
}

/// `v` is a rational point with denominator `d`.
pub open spec fn has_den(v: Vertex, d: int) -> bool {
    v is Exact && denominator(v) == d
}

/// The triangle `a, b, c` of rational points with denominator `d` has a
/// normal pointing away from the point `p / pd`: the normal has a positive
/// dot product with the vector from that point to the triangle's centroid.
pub open spec fn turned_away_from(a: Vec3, b: Vec3, c: Vec3, d: int, p: Vec3, pd: int) -> bool {
    dot3(
        normal3(a, b, c),
        sub3(scale3(pd, add3(add3(a, b), c)), scale3(3 * d, p)),
    ) > 0
}

/// Every triangle of `m` has rational corners with one denominator, and
/// its normal points away from the point `p / pd`.
pub open spec fn faces_away_from(m: MeshView, p: Vec3, pd: int) -> bool {
    forall|t: int| 0 <= t < m.triangles.len() ==> {
        let tri = #[trigger] m.triangles[t];
        let va = m.vertices[tri.a as int];
        let vb = m.vertices[tri.b as int];
        let vc = m.vertices[tri.c as int];
        &&& has_den(va, denominator(va))
        &&& has_den(vb, denominator(va))
        &&& has_den(vc, denominator(va))
        &&& turned_away_from(
            numerators(va),
            numerators(vb),
            numerators(vc),
            denominator(va),
            p,
            pd,
        )
    }
}

/// The length that an icosahedron coordinate stands for, given the two
/// lengths `a` and `b`.
pub open spec fn ico_length(c: IcoCoord, a: int, b: int) -> int {
    match c {
        IcoCoord::Zero => 0,
        IcoCoord::PlusA => a,
        IcoCoord::MinusA => -a,
        IcoCoord::PlusB => b,
        IcoCoord::MinusB => -b,
    }
}

/// The position of an icosahedron corner for lengths `a` and `b` (the
/// origin for other kinds of vertex).
pub open spec fn ico_position(v: Vertex, a: int, b: int) -> Vec3 {
    match v {
        Vertex::Icosa(x, y, z) => (ico_length(x, a, b), ico_length(y, a, b), ico_length(z, a, b)),
        _ => (0, 0, 0),
    }
}

/// The determinant of the matrix with rows `u`, `v`, `w`.
pub open spec fn det3(u: Vec3, v: Vec3, w: Vec3) -> int {
    dot3(u, cross3(v, w))
}

/// Every triangle of `m` is made of icosahedron corners and, for the
/// lengths `a` and `b`, winds counter-clockwise seen from outside: the
/// determinant of its three corner positions is positive, so its normal
/// points away from the origin.
pub open spec fn winds_outward(m: MeshView, a: int, b: int) -> bool {
    forall|t: int| 0 <= t < m.triangles.len() ==> {
        let tri = #[trigger] m.triangles[t];
        det3(
            ico_position(m.vertices[tri.a as int], a, b),
            ico_position(m.vertices[tri.b as int], a, b),
            ico_position(m.vertices[tri.c as int], a, b),
        ) > 0
    }
}

} // verus!
