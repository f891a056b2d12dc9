use vstd::prelude::*;

use crate::geometry::{add3, cross3, det3, dot3, ico_position, normal3, scale3, Vec3};
use crate::mesh::{edge_of, has_edge, MeshView, MyMesh, Triangle, Vertex};
use crate::shapes::{create_icosahedron, ico_triangles, ico_vertices, lemma_icosahedron_winds_outward, lemma_icosahedron_wf};

verus! {

/// The three midpoints that subdividing adds for triangle `t`, in the order
/// `ab, bc, ca`.
pub open spec fn edge_midpoint(t: Triangle, r: int) -> Vertex {
    if r == 0 {
        Vertex::Midpoint { p: t.a, q: t.b }
    } else if r == 1 {
        Vertex::Midpoint { p: t.b, q: t.c }
    } else {
        Vertex::Midpoint { p: t.c, q: t.a }
    }
}

/// The vertices after one subdivision: the old ones, then three midpoints
/// for each triangle in turn.
pub open spec fn subdivided_vertices(m: MeshView) -> Seq<Vertex> {
    m.vertices + Seq::new(3 * m.triangles.len(), |k: int| edge_midpoint(m.triangles[k / 3], k % 3))
}

/// Child `r` (0 to 3) of triangle `t`, whose midpoints `ab, bc, ca` are the
/// vertices numbered `base, base + 1, base + 2`.
pub open spec fn child(t: Triangle, base: int, r: int) -> Triangle {
    let ab = base as usize;
    let bc = (base + 1) as usize;
    let ca = (base + 2) as usize;
    if r == 0 {
        Triangle { a: t.a, b: ab, c: ca }
    } else if r == 1 {
        Triangle { a: ab, b: t.b, c: bc }
    } else if r == 2 {
        Triangle { a: ca, b: bc, c: t.c }
    } else {
        Triangle { a: ab, b: bc, c: ca }
    }
}

/// The triangles after one subdivision: each triangle in turn is replaced
/// by its four children.
pub open spec fn subdivided_triangles(m: MeshView) -> Seq<Triangle> {
    Seq::new(
        4 * m.triangles.len(),
        |k: int| child(m.triangles[k / 4], m.vertices.len() + 3 * (k / 4), k % 4),
    )
}

pub open spec fn subdivided(m: MeshView) -> MeshView {
    MeshView { vertices: subdivided_vertices(m), triangles: subdivided_triangles(m) }
}

/// Splits every triangle `a, b, c` into the four triangles
/// `(a, ab, ca), (ab, b, bc), (ca, bc, c), (ab, bc, ca)`, where `ab`, `bc`
/// and `ca` are new midpoint vertices of its edges, taken onto the unit
/// sphere.
pub fn subdivide(mesh: MyMesh) -> (r: MyMesh)
    requires
        mesh@.wf(),
        mesh@.vertices.len() + 3 * mesh@.triangles.len() <= usize::MAX,
        4 * mesh@.triangles.len() <= usize::MAX,
    ensures
        r@ == subdivided(mesh@),
        r@.wf(),
        forall|k: int, e: int|
            0 <= k < r@.triangles.len() && 0 <= e < 3 ==> #[trigger] child_edge_closed(r@, mesh@.triangles[k / 4], k, e),
{
    let ghost m = mesh@;
    let n_vertices = mesh.vertices.len();
    let n_triangles = mesh.triangles.len();
    let mut vertices = mesh.vertices;
    let old_triangles = mesh.triangles;
    let mut new_triangles: Vec<Triangle> = Vec::new();
    for i in 0..n_triangles
        invariant
            n_vertices == m.vertices.len(),
            n_triangles == m.triangles.len(),
            old_triangles@ == m.triangles,
            m.wf(),
            m.vertices.len() + 3 * m.triangles.len() <= usize::MAX,
            4 * m.triangles.len() <= usize::MAX,
            vertices@ =~= subdivided_vertices(m).take(n_vertices + 3 * i),
            new_triangles@ =~= subdivided_triangles(m).take(4 * i),
    {
        let tri = old_triangles[i];
        let ab = n_vertices + 3 * i;
        let bc = ab + 1;
        let ca = ab + 2;
        vertices.push(Vertex::Midpoint { p: tri.a, q: tri.b });
        vertices.push(Vertex::Midpoint { p: tri.b, q: tri.c });
        vertices.push(Vertex::Midpoint { p: tri.c, q: tri.a });
        new_triangles.push(Triangle { a: tri.a, b: ab, c: ca });
        new_triangles.push(Triangle { a: ab, b: tri.b, c: bc });
        new_triangles.push(Triangle { a: ca, b: bc, c: tri.c });
        new_triangles.push(Triangle { a: ab, b: bc, c: ca });
    }
    assert(vertices@ =~= subdivided_vertices(m));
    assert(new_triangles@ =~= subdivided_triangles(m));
    let r = MyMesh { vertices, triangles: new_triangles };
    proof {
        lemma_subdivided_wf(m);
        assert forall|k: int, e: int|
            0 <= k < r@.triangles.len() && 0 <= e < 3 implies #[trigger] child_edge_closed(r@, m.triangles[k / 4], k, e) by {
            lemma_children_tile_parent(m, k, e);
        }
    }
    r
}

/// Subdividing keeps a mesh well formed.
pub proof fn lemma_subdivided_wf(m: MeshView)
    requires
        m.wf(),
    ensures
        subdivided(m).wf(),
{
    let s = subdivided(m);
    let n = m.vertices.len();
    assert forall|k: int| 0 <= k < s.vertices.len() implies crate::mesh::vertex_refers_back(
        #[trigger] s.vertices[k],
        k,
    ) by {
        if k >= n {
            let t = m.triangles[(k - n) / 3];
            assert(crate::mesh::triangle_in_range(t, n));
        }
    }
    assert forall|k: int| 0 <= k < s.triangles.len() implies crate::mesh::triangle_in_range(
        #[trigger] s.triangles[k],
        s.vertices.len(),
    ) by {
        let t = m.triangles[k / 4];
        assert(crate::mesh::triangle_in_range(t, n));
        assert(n + 3 * (k / 4) + 2 < n + 3 * m.triangles.len());
    }
}

/// Vertex `u` of `s` lies on the side from `p` to `q` of a triangle: it is
/// one of the two ends or the midpoint between them.
pub open spec fn on_side(s: MeshView, u: usize, p: usize, q: usize) -> bool {
    u == p || u == q || s.vertices[u as int] == (Vertex::Midpoint { p, q })
}

/// The segment from `u` to `v` runs along a side of triangle `t`.
pub open spec fn along_side(s: MeshView, t: Triangle, u: usize, v: usize) -> bool {
    ||| on_side(s, u, t.a, t.b) && on_side(s, v, t.a, t.b)
    ||| on_side(s, u, t.b, t.c) && on_side(s, v, t.b, t.c)
    ||| on_side(s, u, t.c, t.a) && on_side(s, v, t.c, t.a)
}

/// Edge `e` of child `k` in the subdivision `s` either runs along a side of
/// its parent `t`, or another child of the same parent walks it the other
/// way.
pub open spec fn child_edge_closed(s: MeshView, t: Triangle, k: int, e: int) -> bool {
    let (u, v) = edge_of(s.triangles[k], e);
    ||| along_side(s, t, u, v)
    ||| exists|k2: int| k2 / 4 == k / 4 && k2 != k && 0 <= k2 < s.triangles.len() && #[trigger] has_edge(s, k2, v, u)
}

proof fn lemma_reverse_in(s: MeshView, k2: int, e2: int, u: usize, v: usize)
    requires
        0 <= e2 < 3,
        edge_of(s.triangles[k2], e2) == (v, u),
    ensures
        has_edge(s, k2, v, u),
{
}

/// The four children of every triangle tile it: every edge of a child either
/// runs along a side of the parent or is shared with another child of the
/// same parent, walked the other way. So the children fit together without
/// gaps or overlaps, and the middle child on the three edge midpoints is
/// there.
pub proof fn lemma_children_tile_parent(m: MeshView, k: int, e: int)
    requires
        m.wf(),
        m.vertices.len() + 3 * m.triangles.len() <= usize::MAX,
        0 <= k < subdivided(m).triangles.len(),
        0 <= e < 3,
    ensures
        child_edge_closed(subdivided(m), m.triangles[k / 4], k, e),
{
    let s = subdivided(m);
    let n = m.vertices.len();
    let i = k / 4;
    let r = k % 4;
    let t = m.triangles[i];
    assert(crate::mesh::triangle_in_range(t, n));
    let base = n + 3 * i;
    assert(base + 2 < n + 3 * m.triangles.len());
    let sv = subdivided_vertices(m);
    assert(sv[base] == edge_midpoint(t, 0));
    assert(sv[base + 1] == edge_midpoint(t, 1));
    assert(sv[base + 2] == edge_midpoint(t, 2));
    let ab = base as usize;
    let bc = (base + 1) as usize;
    let ca = (base + 2) as usize;
    assert(s.triangles[4 * i] == child(t, base, 0));
    assert(s.triangles[4 * i + 1] == child(t, base, 1));
    assert(s.triangles[4 * i + 2] == child(t, base, 2));
    assert(s.triangles[4 * i + 3] == child(t, base, 3));
    assert(s.triangles[k] == child(t, base, r));
    assert(ab != t.a && ab != t.b && ab != t.c && bc != t.a && bc != t.b && bc != t.c && ca != t.a && ca != t.b && ca != t.c);
    if r == 0 && e == 1 {
        lemma_reverse_in(s, 4 * i + 3, 2, ab, ca);
    } else if r == 1 && e == 2 {
        lemma_reverse_in(s, 4 * i + 3, 0, bc, ab);
    } else if r == 2 && e == 0 {
        lemma_reverse_in(s, 4 * i + 3, 1, ca, bc);
    } else if r == 3 && e == 0 {
        lemma_reverse_in(s, 4 * i + 1, 2, ab, bc);
    } else if r == 3 && e == 1 {
        lemma_reverse_in(s, 4 * i + 2, 0, bc, ca);
    } else if r == 3 && e == 2 {
        lemma_reverse_in(s, 4 * i, 1, ca, ab);
    }
}

/// `4` to the power `n`.
pub open spec fn pow4(n: nat) -> nat
    decreases n,
{
    if n == 0 {
        1
    } else {
        4 * pow4((n - 1) as nat)
    }
}

/// The icosahedron subdivided `n` times.
pub open spec fn sphere_mesh(n: nat) -> MeshView
    decreases n,
{
    if n == 0 {
        MeshView { vertices: ico_vertices(), triangles: ico_triangles() }
    } else {
        subdivided(sphere_mesh((n - 1) as nat))
    }
}

/// Powers of four grow with the exponent.
pub proof fn lemma_pow4_monotonic(i: nat, n: nat)
    requires
        i <= n,
    ensures
        1 <= pow4(i) <= pow4(n),
    decreases n,
{
    if n > 0 {
        if i < n {
            lemma_pow4_monotonic(i, (n - 1) as nat);
        } else {
            lemma_pow4_monotonic((n - 1) as nat, (n - 1) as nat);
        }
    }
}

/// After `n` subdivisions the sphere has `20 * 4^n` triangles and
/// `20 * 4^n - 8` vertices.
pub proof fn lemma_sphere_counts(n: nat)
    ensures
        sphere_mesh(n).triangles.len() == 20 * pow4(n),
        sphere_mesh(n).vertices.len() + 8 == 20 * pow4(n),
    decreases n,
{
    if n > 0 {
        lemma_sphere_counts((n - 1) as nat);
    }
}

/// The icosahedron, subdivided `subdivisions` times: a sphere of
/// `20 * 4^subdivisions` triangles whose corners lie on the unit sphere.
/// Every triangle winds counter-clockwise seen from outside, for any
/// positive lengths of the icosahedron and wherever each midpoint is placed
/// on the ray through the sum of its ends.
pub fn generate_sphere_triangles(subdivisions: u32) -> (r: MyMesh)
    requires
        20 * pow4(subdivisions as nat) <= usize::MAX,
    ensures
        r@ == sphere_mesh(subdivisions as nat),
        r@.wf(),
        forall|a: int, b: int, pos: spec_fn(int) -> Vec3, scale: spec_fn(int) -> int|
            0 < a && 0 < b && #[trigger] placed_on_sphere(r@, pos, scale, a, b) ==> winds_outward_at(r@, pos),
{
    let mut ico = create_icosahedron();
    for s in 0..subdivisions
        invariant
            20 * pow4(subdivisions as nat) <= usize::MAX,
            ico@ == sphere_mesh(s as nat),
            ico@.wf(),
    {
        proof {
            lemma_sphere_counts(s as nat);
            lemma_sphere_counts((s + 1) as nat);
            lemma_pow4_monotonic((s + 1) as nat, subdivisions as nat);
        }
        ico = subdivide(ico);
    }
    assert forall|a: int, b: int, pos: spec_fn(int) -> Vec3, scale: spec_fn(int) -> int|
        0 < a && 0 < b && #[trigger] placed_on_sphere(ico@, pos, scale, a, b) implies winds_outward_at(ico@, pos) by {
        lemma_sphere_winds_outward(subdivisions as nat, a, b, pos, scale);
    }
    ico
}

/// The position, in doubled coordinates, of vertex `id` of the flat (not yet
/// projected) subdivision of `m`, when the vertices of `m` stand at `pos`:
/// an old vertex at twice its position, a midpoint at the sum of its two
/// ends.
pub open spec fn flat_position(m: MeshView, pos: spec_fn(int) -> Vec3, id: int) -> Vec3 {
    if id < m.vertices.len() {
        scale3(2, pos(id))
    } else {
        match subdivided_vertices(m)[id] {
            Vertex::Midpoint { p, q } => add3(pos(p as int), pos(q as int)),
            _ => (0, 0, 0),
        }
    }
}

proof fn lemma_children_normals(a: Vec3, b: Vec3, c: Vec3)
    ensures
        normal3(scale3(2, a), add3(a, b), add3(c, a)) == normal3(a, b, c),
        normal3(add3(a, b), scale3(2, b), add3(b, c)) == normal3(a, b, c),
        normal3(add3(c, a), add3(b, c), scale3(2, c)) == normal3(a, b, c),
        normal3(add3(a, b), add3(b, c), add3(c, a)) == normal3(a, b, c),
{
    assert(normal3(scale3(2, a), add3(a, b), add3(c, a)) == normal3(a, b, c)) by (nonlinear_arith);
    assert(normal3(add3(a, b), scale3(2, b), add3(b, c)) == normal3(a, b, c)) by (nonlinear_arith);
    assert(normal3(add3(c, a), add3(b, c), scale3(2, c)) == normal3(a, b, c)) by (nonlinear_arith);
    assert(normal3(add3(a, b), add3(b, c), add3(c, a)) == normal3(a, b, c)) by (nonlinear_arith);
}

/// Subdividing keeps every triangle's winding: wherever the vertices of `m`
/// stand, each of the four children of a triangle, with its midpoints taken
/// on the flat triangle (in doubled coordinates), has exactly the normal of
/// its parent.
pub proof fn lemma_subdivision_keeps_winding(m: MeshView, pos: spec_fn(int) -> Vec3, k: int)
    requires
        m.wf(),
        m.vertices.len() + 3 * m.triangles.len() <= usize::MAX,
        0 <= k < subdivided(m).triangles.len(),
    ensures
        ({
            let s = subdivided(m);
            let t = m.triangles[k / 4];
            let ch = s.triangles[k];
            normal3(
                flat_position(m, pos, ch.a as int),
                flat_position(m, pos, ch.b as int),
                flat_position(m, pos, ch.c as int),
            ) == normal3(pos(t.a as int), pos(t.b as int), pos(t.c as int))
        }),
{
    let n = m.vertices.len();
    let i = k / 4;
    let t = m.triangles[i];
    assert(crate::mesh::triangle_in_range(t, n));
    let base = n + 3 * i;
    let sv = subdivided_vertices(m);
    assert(sv[base] == edge_midpoint(t, 0));
    assert(sv[base + 1] == edge_midpoint(t, 1));
    assert(sv[base + 2] == edge_midpoint(t, 2));
    assert(base + 2 < n + 3 * m.triangles.len());
    lemma_children_normals(pos(t.a as int), pos(t.b as int), pos(t.c as int));
    let ch = subdivided(m).triangles[k];
    assert(ch == child(t, base, k % 4));
}

/// The vertices of `m` stand at `pos`: each icosahedron corner at its
/// position for the lengths `a` and `b`, and each midpoint of `p` and `q` at
/// the positive multiple `scale(k)` of `pos(p) + pos(q)` (as taking the
/// midpoint onto the sphere does).
pub open spec fn placed_on_sphere(
    m: MeshView,
    pos: spec_fn(int) -> Vec3,
    scale: spec_fn(int) -> int,
    a: int,
    b: int,
) -> bool {
    forall|k: int|
        0 <= k < m.vertices.len() ==> match #[trigger] m.vertices[k] {
            Vertex::Midpoint { p, q } => scale(k) > 0 && pos(k) == scale3(scale(k), add3(pos(p as int), pos(q as int))),
            v => pos(k) == ico_position(v, a, b),
        }
}

/// Every triangle of `m` winds counter-clockwise seen from outside when its
/// vertices stand at `pos`: the determinant of its corners is positive.
pub open spec fn winds_outward_at(m: MeshView, pos: spec_fn(int) -> Vec3) -> bool {
    forall|t: int| 0 <= t < m.triangles.len() ==> {
        let tri = #[trigger] m.triangles[t];
        det3(pos(tri.a as int), pos(tri.b as int), pos(tri.c as int)) > 0
    }
}

proof fn lemma_mul_add(x: int, y: int, z: int)
    ensures
        (x + y) * z == x * z + y * z,
        z * (x + y) == z * x + z * y,
{
    assert((x + y) * z == x * z + y * z) by (nonlinear_arith);
    assert(z * (x + y) == z * x + z * y) by (nonlinear_arith);
}

proof fn lemma_mul_scaled(c: int, x: int, y: int)
    ensures
        (c * x) * y == c * (x * y),
        x * (c * y) == c * (x * y),
{
    assert((c * x) * y == c * (x * y)) by (nonlinear_arith);
    assert(x * (c * y) == c * (x * y)) by (nonlinear_arith);
}

proof fn lemma_scale_sum(c: int, x: int, y: int)
    ensures
        c * (x + y) == c * x + c * y,
        c * (x - y) == c * x - c * y,
{
    assert(c * (x + y) == c * x + c * y) by (nonlinear_arith);
    assert(c * (x - y) == c * x - c * y) by (nonlinear_arith);
}

proof fn lemma_cross_add(u: Vec3, v: Vec3, w: Vec3)
    ensures
        cross3(add3(u, v), w) == add3(cross3(u, w), cross3(v, w)),
        cross3(w, add3(u, v)) == add3(cross3(w, u), cross3(w, v)),
{
    let (u0, u1, u2) = u;
    let (v0, v1, v2) = v;
    let (w0, w1, w2) = w;
    lemma_mul_add(u1, v1, w2);
    lemma_mul_add(u2, v2, w1);
    lemma_mul_add(u2, v2, w0);
    lemma_mul_add(u0, v0, w2);
    lemma_mul_add(u0, v0, w1);
    lemma_mul_add(u1, v1, w0);
}

proof fn lemma_cross_self(u: Vec3)
    ensures
        cross3(u, u) == (0int, 0int, 0int),
{
    let (u0, u1, u2) = u;
    lemma_rotate(u1, u2, 1);
    lemma_rotate(u2, u0, 1);
    lemma_rotate(u0, u1, 1);
    assert(u1 * u2 == u2 * u1) by (nonlinear_arith);
    assert(u2 * u0 == u0 * u2) by (nonlinear_arith);
    assert(u0 * u1 == u1 * u0) by (nonlinear_arith);
}

proof fn lemma_cross_scale(c: int, u: Vec3, w: Vec3)
    ensures
        cross3(scale3(c, u), w) == scale3(c, cross3(u, w)),
        cross3(w, scale3(c, u)) == scale3(c, cross3(w, u)),
{
    let (u0, u1, u2) = u;
    let (w0, w1, w2) = w;
    lemma_mul_scaled(c, u1, w2);
    lemma_mul_scaled(c, u2, w1);
    lemma_mul_scaled(c, u2, w0);
    lemma_mul_scaled(c, u0, w2);
    lemma_mul_scaled(c, u0, w1);
    lemma_mul_scaled(c, u1, w0);
    lemma_mul_scaled(c, w1, u2);
    lemma_mul_scaled(c, w2, u1);
    lemma_mul_scaled(c, w2, u0);
    lemma_mul_scaled(c, w0, u2);
    lemma_mul_scaled(c, w0, u1);
    lemma_mul_scaled(c, w1, u0);
    lemma_scale_sum(c, u1 * w2, u2 * w1);
    lemma_scale_sum(c, u2 * w0, u0 * w2);
    lemma_scale_sum(c, u0 * w1, u1 * w0);
    lemma_scale_sum(c, w1 * u2, w2 * u1);
    lemma_scale_sum(c, w2 * u0, w0 * u2);
    lemma_scale_sum(c, w0 * u1, w1 * u0);
}

proof fn lemma_dot_linear(c: int, u: Vec3, v: Vec3, x: Vec3)
    ensures
        dot3(add3(u, v), x) == dot3(u, x) + dot3(v, x),
        dot3(x, add3(u, v)) == dot3(x, u) + dot3(x, v),
        dot3(scale3(c, u), x) == c * dot3(u, x),
        dot3(x, scale3(c, u)) == c * dot3(x, u),
        dot3(x, (0int, 0int, 0int)) == 0,
{
    let (u0, u1, u2) = u;
    let (v0, v1, v2) = v;
    let (x0, x1, x2) = x;
    lemma_mul_add(u0, v0, x0);
    lemma_mul_add(u1, v1, x1);
    lemma_mul_add(u2, v2, x2);
    lemma_mul_scaled(c, u0, x0);
    lemma_mul_scaled(c, u1, x1);
    lemma_mul_scaled(c, u2, x2);
    lemma_mul_scaled(c, x0, u0);
    lemma_mul_scaled(c, x1, u1);
    lemma_mul_scaled(c, x2, u2);
    lemma_scale_sum(c, u0 * x0, u1 * x1);
    lemma_scale_sum(c, u0 * x0 + u1 * x1, u2 * x2);
    lemma_scale_sum(c, x0 * u0, x1 * u1);
    lemma_scale_sum(c, x0 * u0 + x1 * u1, x2 * u2);
    assert(x0 * 0 == 0 && x1 * 0 == 0 && x2 * 0 == 0) by (nonlinear_arith);
}

/// A determinant with a repeated row is zero.
proof fn lemma_det_repeated(a: Vec3, c: Vec3)
    ensures
        det3(a, a, c) == 0,
        det3(a, c, a) == 0,
        det3(c, a, a) == 0,
{
    let (a0, a1, a2) = a;
    let (c0, c1, c2) = c;
    assert(a0 * (a1 * c2 - a2 * c1) + a1 * (a2 * c0 - a0 * c2) + a2 * (a0 * c1 - a1 * c0) == 0) by (nonlinear_arith);
    assert(a0 * (c1 * a2 - c2 * a1) + a1 * (c2 * a0 - c0 * a2) + a2 * (c0 * a1 - c1 * a0) == 0) by (nonlinear_arith);
    lemma_cross_self(a);
    lemma_dot_linear(0, a, a, c);
}

proof fn lemma_distribute(x: int, p: int, q: int)
    ensures
        x * (p - q) == x * p - x * q,
{
    assert(x * (p - q) == x * p - x * q) by (nonlinear_arith);
}

proof fn lemma_rotate(x: int, y: int, z: int)
    ensures
        x * (y * z) == z * (x * y),
{
    assert(x * (y * z) == z * (x * y)) by (nonlinear_arith);
}

/// Rotating the rows keeps the determinant.
proof fn lemma_det_cyclic(a: Vec3, b: Vec3, c: Vec3)
    ensures
        det3(b, c, a) == det3(a, b, c),
{
    let (a0, a1, a2) = a;
    let (b0, b1, b2) = b;
    let (c0, c1, c2) = c;
    lemma_distribute(b0, c1 * a2, c2 * a1);
    lemma_distribute(b1, c2 * a0, c0 * a2);
    lemma_distribute(b2, c0 * a1, c1 * a0);
    lemma_distribute(a0, b1 * c2, b2 * c1);
    lemma_distribute(a1, b2 * c0, b0 * c2);
    lemma_distribute(a2, b0 * c1, b1 * c0);
    lemma_rotate(b0, c1, a2);
    lemma_rotate(b0, c2, a1);
    lemma_rotate(b1, c2, a0);
    lemma_rotate(b1, c0, a2);
    lemma_rotate(b2, c0, a1);
    lemma_rotate(b2, c1, a0);
}

proof fn lemma_det_scales(u: Vec3, v: Vec3, w: Vec3, c: int)
    ensures
        det3(scale3(c, u), v, w) == c * det3(u, v, w),
        det3(u, scale3(c, v), w) == c * det3(u, v, w),
        det3(u, v, scale3(c, w)) == c * det3(u, v, w),
{
    lemma_dot_linear(c, u, u, cross3(v, w));
    lemma_cross_scale(c, v, w);
    lemma_dot_linear(c, cross3(v, w), cross3(v, w), u);
    lemma_cross_scale(c, w, v);
}

proof fn lemma_det_children(a: Vec3, b: Vec3, c: Vec3)
    ensures
        det3(a, add3(a, b), add3(c, a)) == det3(a, b, c),
        det3(add3(a, b), b, add3(b, c)) == det3(a, b, c),
        det3(add3(c, a), add3(b, c), c) == det3(a, b, c),
        det3(add3(a, b), add3(b, c), add3(c, a)) == 2 * det3(a, b, c),
{
    let d = det3(a, b, c);
    lemma_det_cyclic(a, b, c);
    lemma_det_cyclic(b, c, a);
    lemma_det_repeated(a, b);
    lemma_det_repeated(a, c);
    lemma_det_repeated(b, a);
    lemma_det_repeated(b, c);
    lemma_det_repeated(c, a);
    lemma_det_repeated(c, b);
    // det(a, a + b, c + a)
    lemma_cross_add(a, b, add3(c, a));
    lemma_cross_add(c, a, a);
    lemma_cross_add(c, a, b);
    lemma_dot_linear(0, cross3(a, add3(c, a)), cross3(b, add3(c, a)), a);
    lemma_dot_linear(0, cross3(a, c), cross3(a, a), a);
    lemma_dot_linear(0, cross3(b, c), cross3(b, a), a);
    assert(det3(a, add3(a, b), add3(c, a)) == d);
    // det(a + b, b, b + c)
    lemma_cross_add(b, c, b);
    lemma_dot_linear(0, a, b, cross3(b, add3(b, c)));
    lemma_dot_linear(0, cross3(b, b), cross3(b, c), a);
    lemma_dot_linear(0, cross3(b, b), cross3(b, c), b);
    assert(det3(add3(a, b), b, add3(b, c)) == d);
    // det(c + a, b + c, c)
    lemma_cross_add(b, c, c);
    lemma_dot_linear(0, c, a, cross3(add3(b, c), c));
    lemma_dot_linear(0, cross3(b, c), cross3(c, c), c);
    lemma_dot_linear(0, cross3(b, c), cross3(c, c), a);
    assert(det3(add3(c, a), add3(b, c), c) == d);
    // det(a + b, b + c, c + a)
    lemma_cross_add(b, c, add3(c, a));
    lemma_cross_add(c, a, b);
    lemma_cross_add(c, a, c);
    let x = add3(cross3(b, c), cross3(b, a));
    let y = add3(cross3(c, c), cross3(c, a));
    lemma_dot_linear(0, a, b, add3(x, y));
    lemma_dot_linear(0, x, y, a);
    lemma_dot_linear(0, x, y, b);
    lemma_dot_linear(0, cross3(b, c), cross3(b, a), a);
    lemma_dot_linear(0, cross3(b, c), cross3(b, a), b);
    lemma_dot_linear(0, cross3(c, c), cross3(c, a), a);
    lemma_dot_linear(0, cross3(c, c), cross3(c, a), b);
    assert(det3(add3(a, b), add3(b, c), add3(c, a)) == 2 * d);
}

proof fn lemma_positive_product(x: int, y: int)
    requires
        0 < x,
        0 < y,
    ensures
        0 < x * y,
{
    assert(0 < x * y) by (nonlinear_arith)
        requires
            0 < x,
            0 < y,
    ;
}

/// The four children of a triangle that winds outward wind outward too,
/// whatever positive multiples of the edge sums their midpoints stand at.
proof fn lemma_children_wind_outward(a: Vec3, b: Vec3, c: Vec3, sab: int, sbc: int, sca: int)
    requires
        det3(a, b, c) > 0,
        sab > 0,
        sbc > 0,
        sca > 0,
    ensures
        det3(a, scale3(sab, add3(a, b)), scale3(sca, add3(c, a))) > 0,
        det3(scale3(sab, add3(a, b)), b, scale3(sbc, add3(b, c))) > 0,
        det3(scale3(sca, add3(c, a)), scale3(sbc, add3(b, c)), c) > 0,
        det3(scale3(sab, add3(a, b)), scale3(sbc, add3(b, c)), scale3(sca, add3(c, a))) > 0,
{
    let d = det3(a, b, c);
    let ab = add3(a, b);
    let bc = add3(b, c);
    let ca = add3(c, a);
    lemma_det_children(a, b, c);
    // first child
    lemma_det_scales(a, ab, ca, sab);
    lemma_det_scales(a, scale3(sab, ab), ca, sca);
    lemma_positive_product(sab, d);
    lemma_positive_product(sca, sab * d);
    // second child
    lemma_det_scales(ab, b, bc, sab);
    lemma_det_scales(scale3(sab, ab), b, bc, sbc);
    lemma_positive_product(sbc, sab * d);
    // third child
    lemma_det_scales(ca, bc, c, sca);
    lemma_det_scales(scale3(sca, ca), bc, c, sbc);
    lemma_positive_product(sca, d);
    lemma_positive_product(sbc, sca * d);
    // middle child
    lemma_det_scales(ab, bc, ca, sab);
    lemma_det_scales(scale3(sab, ab), bc, ca, sbc);
    lemma_det_scales(scale3(sab, ab), scale3(sbc, bc), ca, sca);
    lemma_positive_product(sab, 2 * d);
    lemma_positive_product(sbc, sab * (2 * d));
    lemma_positive_product(sca, sbc * (sab * (2 * d)));
}

/// The subdivided sphere winds outward: for any positive lengths `a` and
/// `b` of the icosahedron, and wherever each midpoint is placed on the ray
/// through the sum of its two ends (as taking it onto the sphere does),
/// every triangle of the icosahedron subdivided `n` times winds
/// counter-clockwise seen from outside.
pub proof fn lemma_sphere_winds_outward(
    n: nat,
    a: int,
    b: int,
    pos: spec_fn(int) -> Vec3,
    scale: spec_fn(int) -> int,
)
    requires
        0 < a,
        0 < b,
        20 * pow4(n) <= usize::MAX,
        placed_on_sphere(sphere_mesh(n), pos, scale, a, b),
    ensures
        winds_outward_at(sphere_mesh(n), pos),
    decreases n,
{
    let m = sphere_mesh(n);
    if n == 0 {
        lemma_icosahedron_winds_outward(a, b);
        lemma_icosahedron_wf();
        assert forall|t: int| 0 <= t < m.triangles.len() implies {
            let tri = #[trigger] m.triangles[t];
            det3(pos(tri.a as int), pos(tri.b as int), pos(tri.c as int)) > 0
        } by {
            let tri = m.triangles[t];
            let mw = MeshView { vertices: ico_vertices(), triangles: ico_triangles() };
            assert(det3(
                ico_position(mw.vertices[tri.a as int], a, b),
                ico_position(mw.vertices[tri.b as int], a, b),
                ico_position(mw.vertices[tri.c as int], a, b),
            ) > 0);
            lemma_icosahedron_wf();
            assert(crate::mesh::triangle_in_range(tri, 12));
            assert(m.vertices[tri.a as int] is Icosa);
            assert(m.vertices[tri.b as int] is Icosa);
            assert(m.vertices[tri.c as int] is Icosa);
        }
    } else {
        let prev = sphere_mesh((n - 1) as nat);
        lemma_pow4_monotonic((n - 1) as nat, n);
        assert(pow4(n) == 4 * pow4((n - 1) as nat));
        lemma_sphere_counts((n - 1) as nat);
        lemma_sphere_counts(n);
        assert(m == subdivided(prev));
        assert forall|k: int| 0 <= k < prev.vertices.len() implies #[trigger] prev.vertices[k] == m.vertices[k] by {
            assert(subdivided_vertices(prev)[k] == prev.vertices[k]);
        }
        assert(placed_on_sphere(prev, pos, scale, a, b)) by {
            assert forall|k: int| 0 <= k < prev.vertices.len() implies match #[trigger] prev.vertices[k] {
                Vertex::Midpoint { p, q } => scale(k) > 0 && pos(k) == scale3(scale(k), add3(pos(p as int), pos(q as int))),
                v => pos(k) == ico_position(v, a, b),
            } by {
                assert(prev.vertices[k] == m.vertices[k]);
            }
        }
        lemma_sphere_winds_outward((n - 1) as nat, a, b, pos, scale);
        let nv = prev.vertices.len();
        assert forall|k: int| 0 <= k < m.triangles.len() implies {
            let tri = #[trigger] m.triangles[k];
            det3(pos(tri.a as int), pos(tri.b as int), pos(tri.c as int)) > 0
        } by {
            let i = k / 4;
            let t = prev.triangles[i];
            let base = nv + 3 * i;
            assert(base + 2 < nv + 3 * prev.triangles.len());
            let sv = subdivided_vertices(prev);
            assert(sv[base] == edge_midpoint(t, 0));
            assert(sv[base + 1] == edge_midpoint(t, 1));
            assert(sv[base + 2] == edge_midpoint(t, 2));
            assert(m.vertices[base] == sv[base]);
            assert(m.vertices[base + 1] == sv[base + 1]);
            assert(m.vertices[base + 2] == sv[base + 2]);
            assert(det3(pos(t.a as int), pos(t.b as int), pos(t.c as int)) > 0);
            lemma_children_wind_outward(
                pos(t.a as int),
                pos(t.b as int),
                pos(t.c as int),
                scale(base),
                scale(base + 1),
                scale(base + 2),
            );
            assert(m.triangles[k] == child(t, base, k % 4));
        }
    }
}

} // verus!
