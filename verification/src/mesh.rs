use vstd::prelude::*;

verus! {

/// One coordinate of a corner of the golden-ratio icosahedron: zero, or plus
/// or minus one of the two lengths `a` and `b = phi * a`.
#[derive(Clone, Copy, Debug, PartialEq, Eq, Structural)]
pub enum IcoCoord {
    Zero,
    PlusA,
    MinusA,
    PlusB,
    MinusB,
}

/// A vertex of a mesh, described exactly.
#[derive(Clone, Copy, Debug, PartialEq, Eq, Structural)]
pub enum Vertex {
    /// The rational point `(x / den, y / den, z / den)`.
    Exact { x: i64, y: i64, z: i64, den: u64 },
    /// A corner of the icosahedron, scaled onto the unit sphere.
    Icosa(IcoCoord, IcoCoord, IcoCoord),
    /// The midpoint of the vertices numbered `p` and `q`, scaled onto the
    /// unit sphere.
    Midpoint { p: usize, q: usize },
    /// The terrain sample at column `i` and row `j` of a height grid.
    Grid { i: usize, j: usize },
}

/// A triangle given by the numbers of its three corners, in drawing order.
#[derive(Clone, Copy, Debug, PartialEq, Eq, Structural)]
pub struct Triangle {
    pub a: usize,
    pub b: usize,
    pub c: usize,
}

/// An index mesh: a list of vertices and a list of triangles over them.
pub struct MyMesh {
    pub vertices: Vec<Vertex>,
    pub triangles: Vec<Triangle>,
}

/// What a mesh is: its vertices and its triangles.
pub struct MeshView {
    pub vertices: Seq<Vertex>,
    pub triangles: Seq<Triangle>,
}

impl View for MyMesh {
    type V = MeshView;

    open spec fn view(&self) -> MeshView {
        MeshView { vertices: self.vertices@, triangles: self.triangles@ }
    }
}

/// Every corner of `t` names a vertex among the first `n`.
pub open spec fn triangle_in_range(t: Triangle, n: nat) -> bool {
    t.a < n && t.b < n && t.c < n
}

/// A midpoint vertex refers only to vertices listed before it.
pub open spec fn vertex_refers_back(v: Vertex, k: int) -> bool {
    match v {
        Vertex::Midpoint { p, q } => p < k && q < k,
        Vertex::Exact { den, .. } => den > 0,
        _ => true,
    }
}

/// Edge `e` (0, 1 or 2) of `t`, in drawing order: `a -> b`, `b -> c`,
/// `c -> a`.
pub open spec fn edge_of(t: Triangle, e: int) -> (usize, usize) {
    if e == 0 {
        (t.a, t.b)
    } else if e == 1 {
        (t.b, t.c)
    } else {
        (t.c, t.a)
    }
}

/// Triangle `t` of `m` has the directed edge `u -> v`.
pub open spec fn has_edge(m: MeshView, t: int, u: usize, v: usize) -> bool {
    exists|e: int| 0 <= e < 3 && #[trigger] edge_of(m.triangles[t], e) == (u, v)
}

/// Another triangle of `m` walks edge `e` of triangle `t` the other way.
pub open spec fn edge_reversed_elsewhere(m: MeshView, t: int, e: int) -> bool {
    exists|t2: int|
        0 <= t2 < m.triangles.len() && t2 != t && #[trigger] has_edge(
            m,
            t2,
            edge_of(m.triangles[t], e).1,
            edge_of(m.triangles[t], e).0,
        )
}

/// `m` is a closed surface: every directed edge of every triangle is
/// walked the other way by another triangle.
pub open spec fn closed_surface(m: MeshView) -> bool {
    forall|t: int, e: int|
        0 <= t < m.triangles.len() && 0 <= e < 3 ==> #[trigger] edge_reversed_elsewhere(m, t, e)
}

impl MeshView {
    /// Well-formedness: every triangle corner names a listed vertex, every
    /// midpoint is taken between earlier vertices, and every rational point
    /// has a positive denominator.
    pub open spec fn wf(self) -> bool {
        &&& forall|k: int| 0 <= k < self.vertices.len() ==> vertex_refers_back(#[trigger] self.vertices[k], k)
        &&& forall|t: int| 0 <= t < self.triangles.len() ==> triangle_in_range(#[trigger] self.triangles[t], self.vertices.len())
    }
}

impl MyMesh {
    /// An empty mesh.
    pub fn new() -> (m: MyMesh)
        ensures
            m@.vertices.len() == 0,
            m@.triangles.len() == 0,
            m@.wf(),
    {
        MyMesh { vertices: Vec::new(), triangles: Vec::new() }
    }
}

} // verus!
