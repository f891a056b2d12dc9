use vstd::prelude::*;

use crate::geometry::{
    denominator, det3, faces_away_from, has_den, ico_position, numerators, turned_away_from, winds_outward,
};
use crate::mesh::{closed_surface, edge_of, edge_reversed_elsewhere, has_edge, IcoCoord, MeshView, MyMesh, Triangle, Vertex};

verus! {

pub open spec fn tri(a: usize, b: usize, c: usize) -> Triangle {
    Triangle { a, b, c }
}

pub open spec fn point(x: i64, y: i64, z: i64, den: u64) -> Vertex {
    Vertex::Exact { x, y, z, den }
}

/// The eight corners of the unit cube, in the order
/// `wbs, ebs, wbn, ebn, wus, eus, wun, eun` (west/east is x, bottom/up is y,
/// south/north is z).
pub open spec fn cube_vertices() -> Seq<Vertex> {
    seq![
        point(0, 0, 0, 1),
        point(1, 0, 0, 1),
        point(0, 0, 1, 1),
        point(1, 0, 1, 1),
        point(0, 1, 0, 1),
        point(1, 1, 0, 1),
        point(0, 1, 1, 1),
        point(1, 1, 1, 1),
    ]
}

/// Two triangles for each side of the cube: south, east, north, west, top,
/// bottom.
pub open spec fn cube_triangles() -> Seq<Triangle> {
    seq![
        tri(0, 4, 5), tri(0, 5, 1),
        tri(1, 5, 7), tri(1, 7, 3),
        tri(3, 7, 6), tri(3, 6, 2),
        tri(2, 6, 4), tri(2, 4, 0),
        tri(4, 6, 7), tri(4, 7, 5),
        tri(3, 2, 0), tri(3, 0, 1),
    ]
}

/// Every triangle of the cube turns its normal away from the centre.
proof fn lemma_cube_faces_outward()
    ensures
        faces_away_from(MeshView { vertices: cube_vertices(), triangles: cube_triangles() }, (1, 1, 1), 2),
{
    let m = MeshView { vertices: cube_vertices(), triangles: cube_triangles() };
    assert forall|t: int| 0 <= t < m.triangles.len() implies {
        let tri = #[trigger] m.triangles[t];
        let va = m.vertices[tri.a as int];
        let vb = m.vertices[tri.b as int];
        let vc = m.vertices[tri.c as int];
        &&& has_den(va, denominator(va))
        &&& has_den(vb, denominator(va))
        &&& has_den(vc, denominator(va))
        &&& turned_away_from(numerators(va), numerators(vb), numerators(vc), denominator(va), (1, 1, 1), 2)
    } by {
        let vs = cube_vertices();
        assert(vs[0] == point(0, 0, 0, 1));
        assert(vs[1] == point(1, 0, 0, 1));
        assert(vs[2] == point(0, 0, 1, 1));
        assert(vs[3] == point(1, 0, 1, 1));
        assert(vs[4] == point(0, 1, 0, 1));
        assert(vs[5] == point(1, 1, 0, 1));
        assert(vs[6] == point(0, 1, 1, 1));
        assert(vs[7] == point(1, 1, 1, 1));
        let ts = cube_triangles();
        if t == 0 {
            assert(ts[0] == tri(0, 4, 5));
            assert(turned_away_from((0, 0, 0), (0, 1, 0), (1, 1, 0), 1, (1, 1, 1), 2)) by (nonlinear_arith);
        } else if t == 1 {
            assert(ts[1] == tri(0, 5, 1));
            assert(turned_away_from((0, 0, 0), (1, 1, 0), (1, 0, 0), 1, (1, 1, 1), 2)) by (nonlinear_arith);
        } else if t == 2 {
            assert(ts[2] == tri(1, 5, 7));
            assert(turned_away_from((1, 0, 0), (1, 1, 0), (1, 1, 1), 1, (1, 1, 1), 2)) by (nonlinear_arith);
        } else if t == 3 {
            assert(ts[3] == tri(1, 7, 3));
            assert(turned_away_from((1, 0, 0), (1, 1, 1), (1, 0, 1), 1, (1, 1, 1), 2)) by (nonlinear_arith);
        } else if t == 4 {
            assert(ts[4] == tri(3, 7, 6));
            assert(turned_away_from((1, 0, 1), (1, 1, 1), (0, 1, 1), 1, (1, 1, 1), 2)) by (nonlinear_arith);
        } else if t == 5 {
            assert(ts[5] == tri(3, 6, 2));
            assert(turned_away_from((1, 0, 1), (0, 1, 1), (0, 0, 1), 1, (1, 1, 1), 2)) by (nonlinear_arith);
        } else if t == 6 {
            assert(ts[6] == tri(2, 6, 4));
            assert(turned_away_from((0, 0, 1), (0, 1, 1), (0, 1, 0), 1, (1, 1, 1), 2)) by (nonlinear_arith);
        } else if t == 7 {
            assert(ts[7] == tri(2, 4, 0));
            assert(turned_away_from((0, 0, 1), (0, 1, 0), (0, 0, 0), 1, (1, 1, 1), 2)) by (nonlinear_arith);
        } else if t == 8 {
            assert(ts[8] == tri(4, 6, 7));
            assert(turned_away_from((0, 1, 0), (0, 1, 1), (1, 1, 1), 1, (1, 1, 1), 2)) by (nonlinear_arith);
        } else if t == 9 {
            assert(ts[9] == tri(4, 7, 5));
            assert(turned_away_from((0, 1, 0), (1, 1, 1), (1, 1, 0), 1, (1, 1, 1), 2)) by (nonlinear_arith);
        } else if t == 10 {
            assert(ts[10] == tri(3, 2, 0));
            assert(turned_away_from((1, 0, 1), (0, 0, 1), (0, 0, 0), 1, (1, 1, 1), 2)) by (nonlinear_arith);
        } else {
            assert(ts[11] == tri(3, 0, 1));
            assert(turned_away_from((1, 0, 1), (0, 0, 0), (1, 0, 0), 1, (1, 1, 1), 2)) by (nonlinear_arith);
        }
    }
}

/// The cube's triangles close up: every edge is walked once each way.
pub proof fn lemma_cube_closed()
    ensures
        closed_surface(MeshView { vertices: cube_vertices(), triangles: cube_triangles() }),
{
    let m = MeshView { vertices: cube_vertices(), triangles: cube_triangles() };
    let ts = cube_triangles();
    assert forall|t: int, e: int|
        0 <= t < m.triangles.len() && 0 <= e < 3 implies #[trigger] edge_reversed_elsewhere(m, t, e) by {
        if t == 0 {
            assert(ts[0] == tri(0, 4, 5));
            if e == 0 {
                assert(edge_of(ts[7], 1) == (4usize, 0usize));
                assert(has_edge(m, 7, edge_of(m.triangles[t], e).1, edge_of(m.triangles[t], e).0));
            }
            if e == 1 {
                assert(edge_of(ts[9], 2) == (5usize, 4usize));
                assert(has_edge(m, 9, edge_of(m.triangles[t], e).1, edge_of(m.triangles[t], e).0));
            }
            if e == 2 {
                assert(edge_of(ts[1], 0) == (0usize, 5usize));
                assert(has_edge(m, 1, edge_of(m.triangles[t], e).1, edge_of(m.triangles[t], e).0));
            }
        } else if t == 1 {
            assert(ts[1] == tri(0, 5, 1));
            if e == 0 {
                assert(edge_of(ts[0], 2) == (5usize, 0usize));
                assert(has_edge(m, 0, edge_of(m.triangles[t], e).1, edge_of(m.triangles[t], e).0));
            }
            if e == 1 {
                assert(edge_of(ts[2], 0) == (1usize, 5usize));
                assert(has_edge(m, 2, edge_of(m.triangles[t], e).1, edge_of(m.triangles[t], e).0));
            }
            if e == 2 {
                assert(edge_of(ts[11], 1) == (0usize, 1usize));
                assert(has_edge(m, 11, edge_of(m.triangles[t], e).1, edge_of(m.triangles[t], e).0));
            }
        } else if t == 2 {
            assert(ts[2] == tri(1, 5, 7));
            if e == 0 {
                assert(edge_of(ts[1], 1) == (5usize, 1usize));
                assert(has_edge(m, 1, edge_of(m.triangles[t], e).1, edge_of(m.triangles[t], e).0));
            }
            if e == 1 {
                assert(edge_of(ts[9], 1) == (7usize, 5usize));
                assert(has_edge(m, 9, edge_of(m.triangles[t], e).1, edge_of(m.triangles[t], e).0));
            }
            if e == 2 {
                assert(edge_of(ts[3], 0) == (1usize, 7usize));
                assert(has_edge(m, 3, edge_of(m.triangles[t], e).1, edge_of(m.triangles[t], e).0));
            }
        } else if t == 3 {
            assert(ts[3] == tri(1, 7, 3));
            if e == 0 {
                assert(edge_of(ts[2], 2) == (7usize, 1usize));
                assert(has_edge(m, 2, edge_of(m.triangles[t], e).1, edge_of(m.triangles[t], e).0));
            }
            if e == 1 {
                assert(edge_of(ts[4], 0) == (3usize, 7usize));
                assert(has_edge(m, 4, edge_of(m.triangles[t], e).1, edge_of(m.triangles[t], e).0));
            }
            if e == 2 {
                assert(edge_of(ts[11], 2) == (1usize, 3usize));
                assert(has_edge(m, 11, edge_of(m.triangles[t], e).1, edge_of(m.triangles[t], e).0));
            }
        } else if t == 4 {
            assert(ts[4] == tri(3, 7, 6));
            if e == 0 {
                assert(edge_of(ts[3], 1) == (7usize, 3usize));
                assert(has_edge(m, 3, edge_of(m.triangles[t], e).1, edge_of(m.triangles[t], e).0));
            }
            if e == 1 {
                assert(edge_of(ts[8], 1) == (6usize, 7usize));
                assert(has_edge(m, 8, edge_of(m.triangles[t], e).1, edge_of(m.triangles[t], e).0));
            }
            if e == 2 {
                assert(edge_of(ts[5], 0) == (3usize, 6usize));
                assert(has_edge(m, 5, edge_of(m.triangles[t], e).1, edge_of(m.triangles[t], e).0));
            }
        } else if t == 5 {
            assert(ts[5] == tri(3, 6, 2));
            if e == 0 {
                assert(edge_of(ts[4], 2) == (6usize, 3usize));
                assert(has_edge(m, 4, edge_of(m.triangles[t], e).1, edge_of(m.triangles[t], e).0));
            }
            if e == 1 {
                assert(edge_of(ts[6], 0) == (2usize, 6usize));
                assert(has_edge(m, 6, edge_of(m.triangles[t], e).1, edge_of(m.triangles[t], e).0));
            }
            if e == 2 {
                assert(edge_of(ts[10], 0) == (3usize, 2usize));
                assert(has_edge(m, 10, edge_of(m.triangles[t], e).1, edge_of(m.triangles[t], e).0));
            }
        } else if t == 6 {
            assert(ts[6] == tri(2, 6, 4));
            if e == 0 {
                assert(edge_of(ts[5], 1) == (6usize, 2usize));
                assert(has_edge(m, 5, edge_of(m.triangles[t], e).1, edge_of(m.triangles[t], e).0));
            }
            if e == 1 {
                assert(edge_of(ts[8], 0) == (4usize, 6usize));
                assert(has_edge(m, 8, edge_of(m.triangles[t], e).1, edge_of(m.triangles[t], e).0));
            }
            if e == 2 {
                assert(edge_of(ts[7], 0) == (2usize, 4usize));
                assert(has_edge(m, 7, edge_of(m.triangles[t], e).1, edge_of(m.triangles[t], e).0));
            }
        } else if t == 7 {
            assert(ts[7] == tri(2, 4, 0));
            if e == 0 {
                assert(edge_of(ts[6], 2) == (4usize, 2usize));
                assert(has_edge(m, 6, edge_of(m.triangles[t], e).1, edge_of(m.triangles[t], e).0));
            }
            if e == 1 {
                assert(edge_of(ts[0], 0) == (0usize, 4usize));
                assert(has_edge(m, 0, edge_of(m.triangles[t], e).1, edge_of(m.triangles[t], e).0));
            }
            if e == 2 {
                assert(edge_of(ts[10], 1) == (2usize, 0usize));
                assert(has_edge(m, 10, edge_of(m.triangles[t], e).1, edge_of(m.triangles[t], e).0));
            }
        } else if t == 8 {
            assert(ts[8] == tri(4, 6, 7));
            if e == 0 {
                assert(edge_of(ts[6], 1) == (6usize, 4usize));
                assert(has_edge(m, 6, edge_of(m.triangles[t], e).1, edge_of(m.triangles[t], e).0));
            }
            if e == 1 {
                assert(edge_of(ts[4], 1) == (7usize, 6usize));
                assert(has_edge(m, 4, edge_of(m.triangles[t], e).1, edge_of(m.triangles[t], e).0));
            }
            if e == 2 {
                assert(edge_of(ts[9], 0) == (4usize, 7usize));
                assert(has_edge(m, 9, edge_of(m.triangles[t], e).1, edge_of(m.triangles[t], e).0));
            }
        } else if t == 9 {
            assert(ts[9] == tri(4, 7, 5));
            if e == 0 {
                assert(edge_of(ts[8], 2) == (7usize, 4usize));
                assert(has_edge(m, 8, edge_of(m.triangles[t], e).1, edge_of(m.triangles[t], e).0));
            }
            if e == 1 {
                assert(edge_of(ts[2], 1) == (5usize, 7usize));
                assert(has_edge(m, 2, edge_of(m.triangles[t], e).1, edge_of(m.triangles[t], e).0));
            }
            if e == 2 {
                assert(edge_of(ts[0], 1) == (4usize, 5usize));
                assert(has_edge(m, 0, edge_of(m.triangles[t], e).1, edge_of(m.triangles[t], e).0));
            }
        } else if t == 10 {
            assert(ts[10] == tri(3, 2, 0));
            if e == 0 {
                assert(edge_of(ts[5], 2) == (2usize, 3usize));
                assert(has_edge(m, 5, edge_of(m.triangles[t], e).1, edge_of(m.triangles[t], e).0));
            }
            if e == 1 {
                assert(edge_of(ts[7], 2) == (0usize, 2usize));
                assert(has_edge(m, 7, edge_of(m.triangles[t], e).1, edge_of(m.triangles[t], e).0));
            }
            if e == 2 {
                assert(edge_of(ts[11], 0) == (3usize, 0usize));
                assert(has_edge(m, 11, edge_of(m.triangles[t], e).1, edge_of(m.triangles[t], e).0));
            }
        } else {
            assert(ts[11] == tri(3, 0, 1));
            if e == 0 {
                assert(edge_of(ts[10], 2) == (0usize, 3usize));
                assert(has_edge(m, 10, edge_of(m.triangles[t], e).1, edge_of(m.triangles[t], e).0));
            }
            if e == 1 {
                assert(edge_of(ts[1], 2) == (1usize, 0usize));
                assert(has_edge(m, 1, edge_of(m.triangles[t], e).1, edge_of(m.triangles[t], e).0));
            }
            if e == 2 {
                assert(edge_of(ts[3], 2) == (3usize, 1usize));
                assert(has_edge(m, 3, edge_of(m.triangles[t], e).1, edge_of(m.triangles[t], e).0));
            }
        }
    }
}

/// The unit cube `[0, 1]^3` as twelve triangles, two per side. Every
/// triangle's normal points out of the cube, away from its centre
/// `(1/2, 1/2, 1/2)`.
pub fn new_cube() -> (m: MyMesh)
    ensures
        m@.vertices == cube_vertices(),
        m@.triangles == cube_triangles(),
        m@.wf(),
        faces_away_from(m@, (1, 1, 1), 2),
        closed_surface(m@),
{
    let mut my_mesh = MyMesh::new();
    // the corners
    my_mesh.vertices.push(Vertex::Exact { x: 0, y: 0, z: 0, den: 1 });
    my_mesh.vertices.push(Vertex::Exact { x: 1, y: 0, z: 0, den: 1 });
    my_mesh.vertices.push(Vertex::Exact { x: 0, y: 0, z: 1, den: 1 });
    my_mesh.vertices.push(Vertex::Exact { x: 1, y: 0, z: 1, den: 1 });
    my_mesh.vertices.push(Vertex::Exact { x: 0, y: 1, z: 0, den: 1 });
    my_mesh.vertices.push(Vertex::Exact { x: 1, y: 1, z: 0, den: 1 });
    my_mesh.vertices.push(Vertex::Exact { x: 0, y: 1, z: 1, den: 1 });
    my_mesh.vertices.push(Vertex::Exact { x: 1, y: 1, z: 1, den: 1 });
    // south side
    my_mesh.triangles.push(Triangle { a: 0, b: 4, c: 5 });
    my_mesh.triangles.push(Triangle { a: 0, b: 5, c: 1 });
    // east side
    my_mesh.triangles.push(Triangle { a: 1, b: 5, c: 7 });
    my_mesh.triangles.push(Triangle { a: 1, b: 7, c: 3 });
    // north side
    my_mesh.triangles.push(Triangle { a: 3, b: 7, c: 6 });
    my_mesh.triangles.push(Triangle { a: 3, b: 6, c: 2 });
    // west side
    my_mesh.triangles.push(Triangle { a: 2, b: 6, c: 4 });
    my_mesh.triangles.push(Triangle { a: 2, b: 4, c: 0 });
    // top side
    my_mesh.triangles.push(Triangle { a: 4, b: 6, c: 7 });
    my_mesh.triangles.push(Triangle { a: 4, b: 7, c: 5 });
    // bottom side
    my_mesh.triangles.push(Triangle { a: 3, b: 2, c: 0 });
    my_mesh.triangles.push(Triangle { a: 3, b: 0, c: 1 });
    assert(my_mesh@.vertices =~= cube_vertices());
    assert(my_mesh@.triangles =~= cube_triangles());
    proof {
        lemma_cube_faces_outward();
        lemma_cube_closed();
    }
    my_mesh
}



/// The two test triangles, in halves: `(0, 0, 1), (0, 1/2, 0), (1, 1/2, 1)`
/// and `(1, 1/2, 1), (0, 1/2, 0), (1, 0, 0)`.
pub open spec fn test_vertices() -> Seq<Vertex> {
    seq![point(0, 0, 2, 2), point(0, 1, 0, 2), point(2, 1, 2, 2), point(2, 0, 0, 2)]
}

pub open spec fn test_triangles() -> Seq<Triangle> {
    seq![tri(0, 1, 2), tri(2, 1, 3)]
}

/// A pair of test triangles that share the edge from `(0, 1/2, 0)` to
/// `(1, 1/2, 1)`.
pub fn test_triangle() -> (m: MyMesh)
    ensures
        m@.vertices == test_vertices(),
        m@.triangles == test_triangles(),
        m@.wf(),
{
    let mut m = MyMesh::new();
    m.vertices.push(Vertex::Exact { x: 0, y: 0, z: 2, den: 2 });
    m.vertices.push(Vertex::Exact { x: 0, y: 1, z: 0, den: 2 });
    m.vertices.push(Vertex::Exact { x: 2, y: 1, z: 2, den: 2 });
    m.vertices.push(Vertex::Exact { x: 2, y: 0, z: 0, den: 2 });
    m.triangles.push(Triangle { a: 0, b: 1, c: 2 });
    m.triangles.push(Triangle { a: 2, b: 1, c: 3 });
    assert(m@.vertices =~= test_vertices());
    assert(m@.triangles =~= test_triangles());
    m
}

pub open spec fn corner(x: IcoCoord, y: IcoCoord, z: IcoCoord) -> Vertex {
    Vertex::Icosa(x, y, z)
}

/// The twelve corners of the icosahedron: the cyclic permutations of
/// `(+-a, +-b, 0)`.
pub open spec fn ico_vertices() -> Seq<Vertex> {
    seq![
        corner(IcoCoord::MinusA, IcoCoord::PlusB, IcoCoord::Zero),
        corner(IcoCoord::PlusA, IcoCoord::PlusB, IcoCoord::Zero),
        corner(IcoCoord::MinusA, IcoCoord::MinusB, IcoCoord::Zero),
        corner(IcoCoord::PlusA, IcoCoord::MinusB, IcoCoord::Zero),
        corner(IcoCoord::Zero, IcoCoord::MinusA, IcoCoord::PlusB),
        corner(IcoCoord::Zero, IcoCoord::PlusA, IcoCoord::PlusB),
        corner(IcoCoord::Zero, IcoCoord::MinusA, IcoCoord::MinusB),
        corner(IcoCoord::Zero, IcoCoord::PlusA, IcoCoord::MinusB),
        corner(IcoCoord::PlusB, IcoCoord::Zero, IcoCoord::MinusA),
        corner(IcoCoord::PlusB, IcoCoord::Zero, IcoCoord::PlusA),
        corner(IcoCoord::MinusB, IcoCoord::Zero, IcoCoord::MinusA),
        corner(IcoCoord::MinusB, IcoCoord::Zero, IcoCoord::PlusA),
    ]
}

/// The twenty faces of the icosahedron.
pub open spec fn ico_triangles() -> Seq<Triangle> {
    seq![
        tri(0, 11, 5),
        tri(0, 5, 1),
        tri(0, 1, 7),
        tri(0, 7, 10),
        tri(0, 10, 11),
        tri(1, 5, 9),
        tri(5, 11, 4),
        tri(11, 10, 2),
        tri(10, 7, 6),
        tri(7, 1, 8),
        tri(3, 9, 4),
        tri(3, 4, 2),
        tri(3, 2, 6),
        tri(3, 6, 8),
        tri(3, 8, 9),
        tri(4, 9, 5),
        tri(2, 4, 11),
        tri(6, 2, 10),
        tri(8, 6, 7),
        tri(9, 8, 1),
    ]
}

/// Whatever the positive lengths `a` and `b`, every face of the icosahedron
/// winds counter-clockwise seen from outside.
pub proof fn lemma_icosahedron_winds_outward(a: int, b: int)
    requires
        0 < a,
        0 < b,
    ensures
        winds_outward(MeshView { vertices: ico_vertices(), triangles: ico_triangles() }, a, b),
{
    let m = MeshView { vertices: ico_vertices(), triangles: ico_triangles() };
    let vs = ico_vertices();
    let ts = ico_triangles();
    assert forall|t: int| 0 <= t < m.triangles.len() implies {
        let tri = #[trigger] m.triangles[t];
        det3(
            ico_position(m.vertices[tri.a as int], a, b),
            ico_position(m.vertices[tri.b as int], a, b),
            ico_position(m.vertices[tri.c as int], a, b),
        ) > 0
    } by {
        assert(vs[0] == corner(IcoCoord::MinusA, IcoCoord::PlusB, IcoCoord::Zero));
        assert(vs[1] == corner(IcoCoord::PlusA, IcoCoord::PlusB, IcoCoord::Zero));
        assert(vs[2] == corner(IcoCoord::MinusA, IcoCoord::MinusB, IcoCoord::Zero));
        assert(vs[3] == corner(IcoCoord::PlusA, IcoCoord::MinusB, IcoCoord::Zero));
        assert(vs[4] == corner(IcoCoord::Zero, IcoCoord::MinusA, IcoCoord::PlusB));
        assert(vs[5] == corner(IcoCoord::Zero, IcoCoord::PlusA, IcoCoord::PlusB));
        assert(vs[6] == corner(IcoCoord::Zero, IcoCoord::MinusA, IcoCoord::MinusB));
        assert(vs[7] == corner(IcoCoord::Zero, IcoCoord::PlusA, IcoCoord::MinusB));
        assert(vs[8] == corner(IcoCoord::PlusB, IcoCoord::Zero, IcoCoord::MinusA));
        assert(vs[9] == corner(IcoCoord::PlusB, IcoCoord::Zero, IcoCoord::PlusA));
        assert(vs[10] == corner(IcoCoord::MinusB, IcoCoord::Zero, IcoCoord::MinusA));
        assert(vs[11] == corner(IcoCoord::MinusB, IcoCoord::Zero, IcoCoord::PlusA));
        if t == 0 {
            assert(ts[0] == tri(0, 11, 5));
            assert(det3((-a, b, 0), (-b, 0, a), (0, a, b)) > 0) by (nonlinear_arith)
                requires
                    0 < a,
                    0 < b,
            ;
        } else if t == 1 {
            assert(ts[1] == tri(0, 5, 1));
            assert(det3((-a, b, 0), (0, a, b), (a, b, 0)) > 0) by (nonlinear_arith)
                requires
                    0 < a,
                    0 < b,
            ;
        } else if t == 2 {
            assert(ts[2] == tri(0, 1, 7));
            assert(det3((-a, b, 0), (a, b, 0), (0, a, -b)) > 0) by (nonlinear_arith)
                requires
                    0 < a,
                    0 < b,
            ;
        } else if t == 3 {
            assert(ts[3] == tri(0, 7, 10));
            assert(det3((-a, b, 0), (0, a, -b), (-b, 0, -a)) > 0) by (nonlinear_arith)
                requires
                    0 < a,
                    0 < b,
            ;
        } else if t == 4 {
            assert(ts[4] == tri(0, 10, 11));
            assert(det3((-a, b, 0), (-b, 0, -a), (-b, 0, a)) > 0) by (nonlinear_arith)
                requires
                    0 < a,
                    0 < b,
            ;
        } else if t == 5 {
            assert(ts[5] == tri(1, 5, 9));
            assert(det3((a, b, 0), (0, a, b), (b, 0, a)) > 0) by (nonlinear_arith)
                requires
                    0 < a,
                    0 < b,
            ;
        } else if t == 6 {
            assert(ts[6] == tri(5, 11, 4));
            assert(det3((0, a, b), (-b, 0, a), (0, -a, b)) > 0) by (nonlinear_arith)
                requires
                    0 < a,
                    0 < b,
            ;
        } else if t == 7 {
            assert(ts[7] == tri(11, 10, 2));
            assert(det3((-b, 0, a), (-b, 0, -a), (-a, -b, 0)) > 0) by (nonlinear_arith)
                requires
                    0 < a,
                    0 < b,
            ;
        } else if t == 8 {
            assert(ts[8] == tri(10, 7, 6));
            assert(det3((-b, 0, -a), (0, a, -b), (0, -a, -b)) > 0) by (nonlinear_arith)
                requires
                    0 < a,
                    0 < b,
            ;
        } else if t == 9 {
            assert(ts[9] == tri(7, 1, 8));
            assert(det3((0, a, -b), (a, b, 0), (b, 0, -a)) > 0) by (nonlinear_arith)
                requires
                    0 < a,
                    0 < b,
            ;
        } else if t == 10 {
            assert(ts[10] == tri(3, 9, 4));
            assert(det3((a, -b, 0), (b, 0, a), (0, -a, b)) > 0) by (nonlinear_arith)
                requires
                    0 < a,
                    0 < b,
            ;
        } else if t == 11 {
            assert(ts[11] == tri(3, 4, 2));
            assert(det3((a, -b, 0), (0, -a, b), (-a, -b, 0)) > 0) by (nonlinear_arith)
                requires
                    0 < a,
                    0 < b,
            ;
        } else if t == 12 {
            assert(ts[12] == tri(3, 2, 6));
            assert(det3((a, -b, 0), (-a, -b, 0), (0, -a, -b)) > 0) by (nonlinear_arith)
                requires
                    0 < a,
                    0 < b,
            ;
        } else if t == 13 {
            assert(ts[13] == tri(3, 6, 8));
            assert(det3((a, -b, 0), (0, -a, -b), (b, 0, -a)) > 0) by (nonlinear_arith)
                requires
                    0 < a,
                    0 < b,
            ;
        } else if t == 14 {
            assert(ts[14] == tri(3, 8, 9));
            assert(det3((a, -b, 0), (b, 0, -a), (b, 0, a)) > 0) by (nonlinear_arith)
                requires
                    0 < a,
                    0 < b,
            ;
        } else if t == 15 {
            assert(ts[15] == tri(4, 9, 5));
            assert(det3((0, -a, b), (b, 0, a), (0, a, b)) > 0) by (nonlinear_arith)
                requires
                    0 < a,
                    0 < b,
            ;
        } else if t == 16 {
            assert(ts[16] == tri(2, 4, 11));
            assert(det3((-a, -b, 0), (0, -a, b), (-b, 0, a)) > 0) by (nonlinear_arith)
                requires
                    0 < a,
                    0 < b,
            ;
        } else if t == 17 {
            assert(ts[17] == tri(6, 2, 10));
            assert(det3((0, -a, -b), (-a, -b, 0), (-b, 0, -a)) > 0) by (nonlinear_arith)
                requires
                    0 < a,
                    0 < b,
            ;
        } else if t == 18 {
            assert(ts[18] == tri(8, 6, 7));
            assert(det3((b, 0, -a), (0, -a, -b), (0, a, -b)) > 0) by (nonlinear_arith)
                requires
                    0 < a,
                    0 < b,
            ;
        } else {
            assert(ts[19] == tri(9, 8, 1));
            assert(det3((b, 0, a), (b, 0, -a), (a, b, 0)) > 0) by (nonlinear_arith)
                requires
                    0 < a,
                    0 < b,
            ;
        }
    }
}

/// The icosahedron is a well-formed mesh of twelve corners.
pub proof fn lemma_icosahedron_wf()
    ensures
        ico_vertices().len() == 12,
        forall|k: int| 0 <= k < 12 ==> #[trigger] ico_vertices()[k] is Icosa,
        (MeshView { vertices: ico_vertices(), triangles: ico_triangles() }).wf(),
{
    let vs = ico_vertices();
    let ts = ico_triangles();
    assert forall|k: int| 0 <= k < 12 implies #[trigger] vs[k] is Icosa by {
        if k == 0 { assert(vs[0] is Icosa); }
        else if k == 1 { assert(vs[1] is Icosa); }
        else if k == 2 { assert(vs[2] is Icosa); }
        else if k == 3 { assert(vs[3] is Icosa); }
        else if k == 4 { assert(vs[4] is Icosa); }
        else if k == 5 { assert(vs[5] is Icosa); }
        else if k == 6 { assert(vs[6] is Icosa); }
        else if k == 7 { assert(vs[7] is Icosa); }
        else if k == 8 { assert(vs[8] is Icosa); }
        else if k == 9 { assert(vs[9] is Icosa); }
        else if k == 10 { assert(vs[10] is Icosa); }
        else { assert(vs[11] is Icosa); }
    }
    assert forall|k: int| 0 <= k < vs.len() implies crate::mesh::vertex_refers_back(#[trigger] vs[k], k) by {
        assert(vs[k] is Icosa);
    }
    assert forall|t: int| 0 <= t < ts.len() implies crate::mesh::triangle_in_range(#[trigger] ts[t], 12) by {
        if t == 0 {
            assert(ts[0] == tri(0, 11, 5));
        } else if t == 1 {
            assert(ts[1] == tri(0, 5, 1));
        } else if t == 2 {
            assert(ts[2] == tri(0, 1, 7));
        } else if t == 3 {
            assert(ts[3] == tri(0, 7, 10));
        } else if t == 4 {
            assert(ts[4] == tri(0, 10, 11));
        } else if t == 5 {
            assert(ts[5] == tri(1, 5, 9));
        } else if t == 6 {
            assert(ts[6] == tri(5, 11, 4));
        } else if t == 7 {
            assert(ts[7] == tri(11, 10, 2));
        } else if t == 8 {
            assert(ts[8] == tri(10, 7, 6));
        } else if t == 9 {
            assert(ts[9] == tri(7, 1, 8));
        } else if t == 10 {
            assert(ts[10] == tri(3, 9, 4));
        } else if t == 11 {
            assert(ts[11] == tri(3, 4, 2));
        } else if t == 12 {
            assert(ts[12] == tri(3, 2, 6));
        } else if t == 13 {
            assert(ts[13] == tri(3, 6, 8));
        } else if t == 14 {
            assert(ts[14] == tri(3, 8, 9));
        } else if t == 15 {
            assert(ts[15] == tri(4, 9, 5));
        } else if t == 16 {
            assert(ts[16] == tri(2, 4, 11));
        } else if t == 17 {
            assert(ts[17] == tri(6, 2, 10));
        } else if t == 18 {
            assert(ts[18] == tri(8, 6, 7));
        } else {
            assert(ts[19] == tri(9, 8, 1));
        }
    }
}

/// The icosahedron's faces close up: every edge is walked once each way.
pub proof fn lemma_icosahedron_closed()
    ensures
        closed_surface(MeshView { vertices: ico_vertices(), triangles: ico_triangles() }),
{
    let m = MeshView { vertices: ico_vertices(), triangles: ico_triangles() };
    let ts = ico_triangles();
    assert forall|t: int, e: int|
        0 <= t < m.triangles.len() && 0 <= e < 3 implies #[trigger] edge_reversed_elsewhere(m, t, e) by {
        if t == 0 {
            assert(ts[0] == tri(0, 11, 5));
            if e == 0 {
                assert(edge_of(ts[4], 2) == (11usize, 0usize));
                assert(has_edge(m, 4, edge_of(m.triangles[t], e).1, edge_of(m.triangles[t], e).0));
            }
            if e == 1 {
                assert(edge_of(ts[6], 0) == (5usize, 11usize));
                assert(has_edge(m, 6, edge_of(m.triangles[t], e).1, edge_of(m.triangles[t], e).0));
            }
            if e == 2 {
                assert(edge_of(ts[1], 0) == (0usize, 5usize));
                assert(has_edge(m, 1, edge_of(m.triangles[t], e).1, edge_of(m.triangles[t], e).0));
            }
        } else if t == 1 {
            assert(ts[1] == tri(0, 5, 1));
            if e == 0 {
                assert(edge_of(ts[0], 2) == (5usize, 0usize));
                assert(has_edge(m, 0, edge_of(m.triangles[t], e).1, edge_of(m.triangles[t], e).0));
            }
            if e == 1 {
                assert(edge_of(ts[5], 0) == (1usize, 5usize));
                assert(has_edge(m, 5, edge_of(m.triangles[t], e).1, edge_of(m.triangles[t], e).0));
            }
            if e == 2 {
                assert(edge_of(ts[2], 0) == (0usize, 1usize));
                assert(has_edge(m, 2, edge_of(m.triangles[t], e).1, edge_of(m.triangles[t], e).0));
            }
        } else if t == 2 {
            assert(ts[2] == tri(0, 1, 7));
            if e == 0 {
                assert(edge_of(ts[1], 2) == (1usize, 0usize));
                assert(has_edge(m, 1, edge_of(m.triangles[t], e).1, edge_of(m.triangles[t], e).0));
            }
            if e == 1 {
                assert(edge_of(ts[9], 0) == (7usize, 1usize));
                assert(has_edge(m, 9, edge_of(m.triangles[t], e).1, edge_of(m.triangles[t], e).0));
            }
            if e == 2 {
                assert(edge_of(ts[3], 0) == (0usize, 7usize));
                assert(has_edge(m, 3, edge_of(m.triangles[t], e).1, edge_of(m.triangles[t], e).0));
            }
        } else if t == 3 {
            assert(ts[3] == tri(0, 7, 10));
            if e == 0 {
                assert(edge_of(ts[2], 2) == (7usize, 0usize));
                assert(has_edge(m, 2, edge_of(m.triangles[t], e).1, edge_of(m.triangles[t], e).0));
            }
            if e == 1 {
                assert(edge_of(ts[8], 0) == (10usize, 7usize));
                assert(has_edge(m, 8, edge_of(m.triangles[t], e).1, edge_of(m.triangles[t], e).0));
            }
            if e == 2 {
                assert(edge_of(ts[4], 0) == (0usize, 10usize));
                assert(has_edge(m, 4, edge_of(m.triangles[t], e).1, edge_of(m.triangles[t], e).0));
            }
        } else if t == 4 {
            assert(ts[4] == tri(0, 10, 11));
            if e == 0 {
                assert(edge_of(ts[3], 2) == (10usize, 0usize));
                assert(has_edge(m, 3, edge_of(m.triangles[t], e).1, edge_of(m.triangles[t], e).0));
            }
            if e == 1 {
                assert(edge_of(ts[7], 0) == (11usize, 10usize));
                assert(has_edge(m, 7, edge_of(m.triangles[t], e).1, edge_of(m.triangles[t], e).0));
            }
            if e == 2 {
                assert(edge_of(ts[0], 0) == (0usize, 11usize));
                assert(has_edge(m, 0, edge_of(m.triangles[t], e).1, edge_of(m.triangles[t], e).0));
            }
        } else if t == 5 {
            assert(ts[5] == tri(1, 5, 9));
            if e == 0 {
                assert(edge_of(ts[1], 1) == (5usize, 1usize));
                assert(has_edge(m, 1, edge_of(m.triangles[t], e).1, edge_of(m.triangles[t], e).0));
            }
            if e == 1 {
                assert(edge_of(ts[15], 1) == (9usize, 5usize));
                assert(has_edge(m, 15, edge_of(m.triangles[t], e).1, edge_of(m.triangles[t], e).0));
            }
            if e == 2 {
                assert(edge_of(ts[19], 2) == (1usize, 9usize));
                assert(has_edge(m, 19, edge_of(m.triangles[t], e).1, edge_of(m.triangles[t], e).0));
            }
        } else if t == 6 {
            assert(ts[6] == tri(5, 11, 4));
            if e == 0 {
                assert(edge_of(ts[0], 1) == (11usize, 5usize));
                assert(has_edge(m, 0, edge_of(m.triangles[t], e).1, edge_of(m.triangles[t], e).0));
            }
            if e == 1 {
                assert(edge_of(ts[16], 1) == (4usize, 11usize));
                assert(has_edge(m, 16, edge_of(m.triangles[t], e).1, edge_of(m.triangles[t], e).0));
            }
            if e == 2 {
                assert(edge_of(ts[15], 2) == (5usize, 4usize));
                assert(has_edge(m, 15, edge_of(m.triangles[t], e).1, edge_of(m.triangles[t], e).0));
            }
        } else if t == 7 {
            assert(ts[7] == tri(11, 10, 2));
            if e == 0 {
                assert(edge_of(ts[4], 1) == (10usize, 11usize));
                assert(has_edge(m, 4, edge_of(m.triangles[t], e).1, edge_of(m.triangles[t], e).0));
            }
            if e == 1 {
                assert(edge_of(ts[17], 1) == (2usize, 10usize));
                assert(has_edge(m, 17, edge_of(m.triangles[t], e).1, edge_of(m.triangles[t], e).0));
            }
            if e == 2 {
                assert(edge_of(ts[16], 2) == (11usize, 2usize));
                assert(has_edge(m, 16, edge_of(m.triangles[t], e).1, edge_of(m.triangles[t], e).0));
            }
        } else if t == 8 {
            assert(ts[8] == tri(10, 7, 6));
            if e == 0 {
                assert(edge_of(ts[3], 1) == (7usize, 10usize));
                assert(has_edge(m, 3, edge_of(m.triangles[t], e).1, edge_of(m.triangles[t], e).0));
            }
            if e == 1 {
                assert(edge_of(ts[18], 1) == (6usize, 7usize));
                assert(has_edge(m, 18, edge_of(m.triangles[t], e).1, edge_of(m.triangles[t], e).0));
            }
            if e == 2 {
                assert(edge_of(ts[17], 2) == (10usize, 6usize));
                assert(has_edge(m, 17, edge_of(m.triangles[t], e).1, edge_of(m.triangles[t], e).0));
            }
        } else if t == 9 {
            assert(ts[9] == tri(7, 1, 8));
            if e == 0 {
                assert(edge_of(ts[2], 1) == (1usize, 7usize));
                assert(has_edge(m, 2, edge_of(m.triangles[t], e).1, edge_of(m.triangles[t], e).0));
            }
            if e == 1 {
                assert(edge_of(ts[19], 1) == (8usize, 1usize));
                assert(has_edge(m, 19, edge_of(m.triangles[t], e).1, edge_of(m.triangles[t], e).0));
            }
            if e == 2 {
                assert(edge_of(ts[18], 2) == (7usize, 8usize));
                assert(has_edge(m, 18, edge_of(m.triangles[t], e).1, edge_of(m.triangles[t], e).0));
            }
        } else if t == 10 {
            assert(ts[10] == tri(3, 9, 4));
            if e == 0 {
                assert(edge_of(ts[14], 2) == (9usize, 3usize));
                assert(has_edge(m, 14, edge_of(m.triangles[t], e).1, edge_of(m.triangles[t], e).0));
            }
            if e == 1 {
                assert(edge_of(ts[15], 0) == (4usize, 9usize));
                assert(has_edge(m, 15, edge_of(m.triangles[t], e).1, edge_of(m.triangles[t], e).0));
            }
            if e == 2 {
                assert(edge_of(ts[11], 0) == (3usize, 4usize));
                assert(has_edge(m, 11, edge_of(m.triangles[t], e).1, edge_of(m.triangles[t], e).0));
            }
        } else if t == 11 {
            assert(ts[11] == tri(3, 4, 2));
            if e == 0 {
                assert(edge_of(ts[10], 2) == (4usize, 3usize));
                assert(has_edge(m, 10, edge_of(m.triangles[t], e).1, edge_of(m.triangles[t], e).0));
            }
            if e == 1 {
                assert(edge_of(ts[16], 0) == (2usize, 4usize));
                assert(has_edge(m, 16, edge_of(m.triangles[t], e).1, edge_of(m.triangles[t], e).0));
            }
            if e == 2 {
                assert(edge_of(ts[12], 0) == (3usize, 2usize));
                assert(has_edge(m, 12, edge_of(m.triangles[t], e).1, edge_of(m.triangles[t], e).0));
            }
        } else if t == 12 {
            assert(ts[12] == tri(3, 2, 6));
            if e == 0 {
                assert(edge_of(ts[11], 2) == (2usize, 3usize));
                assert(has_edge(m, 11, edge_of(m.triangles[t], e).1, edge_of(m.triangles[t], e).0));
            }
            if e == 1 {
                assert(edge_of(ts[17], 0) == (6usize, 2usize));
                assert(has_edge(m, 17, edge_of(m.triangles[t], e).1, edge_of(m.triangles[t], e).0));
            }
            if e == 2 {
                assert(edge_of(ts[13], 0) == (3usize, 6usize));
                assert(has_edge(m, 13, edge_of(m.triangles[t], e).1, edge_of(m.triangles[t], e).0));
            }
        } else if t == 13 {
            assert(ts[13] == tri(3, 6, 8));
            if e == 0 {
                assert(edge_of(ts[12], 2) == (6usize, 3usize));
                assert(has_edge(m, 12, edge_of(m.triangles[t], e).1, edge_of(m.triangles[t], e).0));
            }
            if e == 1 {
                assert(edge_of(ts[18], 0) == (8usize, 6usize));
                assert(has_edge(m, 18, edge_of(m.triangles[t], e).1, edge_of(m.triangles[t], e).0));
            }
            if e == 2 {
                assert(edge_of(ts[14], 0) == (3usize, 8usize));
                assert(has_edge(m, 14, edge_of(m.triangles[t], e).1, edge_of(m.triangles[t], e).0));
            }
        } else if t == 14 {
            assert(ts[14] == tri(3, 8, 9));
            if e == 0 {
                assert(edge_of(ts[13], 2) == (8usize, 3usize));
                assert(has_edge(m, 13, edge_of(m.triangles[t], e).1, edge_of(m.triangles[t], e).0));
            }
            if e == 1 {
                assert(edge_of(ts[19], 0) == (9usize, 8usize));
                assert(has_edge(m, 19, edge_of(m.triangles[t], e).1, edge_of(m.triangles[t], e).0));
            }
            if e == 2 {
                assert(edge_of(ts[10], 0) == (3usize, 9usize));
                assert(has_edge(m, 10, edge_of(m.triangles[t], e).1, edge_of(m.triangles[t], e).0));
            }
        } else if t == 15 {
            assert(ts[15] == tri(4, 9, 5));
            if e == 0 {
                assert(edge_of(ts[10], 1) == (9usize, 4usize));
                assert(has_edge(m, 10, edge_of(m.triangles[t], e).1, edge_of(m.triangles[t], e).0));
            }
            if e == 1 {
                assert(edge_of(ts[5], 1) == (5usize, 9usize));
                assert(has_edge(m, 5, edge_of(m.triangles[t], e).1, edge_of(m.triangles[t], e).0));
            }
            if e == 2 {
                assert(edge_of(ts[6], 2) == (4usize, 5usize));
                assert(has_edge(m, 6, edge_of(m.triangles[t], e).1, edge_of(m.triangles[t], e).0));
            }
        } else if t == 16 {
            assert(ts[16] == tri(2, 4, 11));
            if e == 0 {
                assert(edge_of(ts[11], 1) == (4usize, 2usize));
                assert(has_edge(m, 11, edge_of(m.triangles[t], e).1, edge_of(m.triangles[t], e).0));
            }
            if e == 1 {
                assert(edge_of(ts[6], 1) == (11usize, 4usize));
                assert(has_edge(m, 6, edge_of(m.triangles[t], e).1, edge_of(m.triangles[t], e).0));
            }
            if e == 2 {
                assert(edge_of(ts[7], 2) == (2usize, 11usize));
                assert(has_edge(m, 7, edge_of(m.triangles[t], e).1, edge_of(m.triangles[t], e).0));
            }
        } else if t == 17 {
            assert(ts[17] == tri(6, 2, 10));
            if e == 0 {
                assert(edge_of(ts[12], 1) == (2usize, 6usize));
                assert(has_edge(m, 12, edge_of(m.triangles[t], e).1, edge_of(m.triangles[t], e).0));
            }
            if e == 1 {
                assert(edge_of(ts[7], 1) == (10usize, 2usize));
                assert(has_edge(m, 7, edge_of(m.triangles[t], e).1, edge_of(m.triangles[t], e).0));
            }
            if e == 2 {
                assert(edge_of(ts[8], 2) == (6usize, 10usize));
                assert(has_edge(m, 8, edge_of(m.triangles[t], e).1, edge_of(m.triangles[t], e).0));
            }
        } else if t == 18 {
            assert(ts[18] == tri(8, 6, 7));
            if e == 0 {
                assert(edge_of(ts[13], 1) == (6usize, 8usize));
                assert(has_edge(m, 13, edge_of(m.triangles[t], e).1, edge_of(m.triangles[t], e).0));
            }
            if e == 1 {
                assert(edge_of(ts[8], 1) == (7usize, 6usize));
                assert(has_edge(m, 8, edge_of(m.triangles[t], e).1, edge_of(m.triangles[t], e).0));
            }
            if e == 2 {
                assert(edge_of(ts[9], 2) == (8usize, 7usize));
                assert(has_edge(m, 9, edge_of(m.triangles[t], e).1, edge_of(m.triangles[t], e).0));
            }
        } else {
            assert(ts[19] == tri(9, 8, 1));
            if e == 0 {
                assert(edge_of(ts[14], 1) == (8usize, 9usize));
                assert(has_edge(m, 14, edge_of(m.triangles[t], e).1, edge_of(m.triangles[t], e).0));
            }
            if e == 1 {
                assert(edge_of(ts[9], 1) == (1usize, 8usize));
                assert(has_edge(m, 9, edge_of(m.triangles[t], e).1, edge_of(m.triangles[t], e).0));
            }
            if e == 2 {
                assert(edge_of(ts[5], 2) == (9usize, 1usize));
                assert(has_edge(m, 5, edge_of(m.triangles[t], e).1, edge_of(m.triangles[t], e).0));
            }
        }
    }
}

/// How many of the first `n` triangles of `ts` have `v` as a corner.
pub open spec fn faces_around(ts: Seq<Triangle>, v: usize, n: int) -> int
    decreases n,
{
    if n <= 0 {
        0
    } else {
        faces_around(ts, v, n - 1) + if ts[n - 1].a == v || ts[n - 1].b == v || ts[n - 1].c == v {
            1int
        } else {
            0int
        }
    }
}

/// Every corner of the icosahedron is a corner of exactly five faces, as in
/// the regular icosahedron (the one closed surface of twenty triangles on
/// twelve corners with this property).
pub proof fn lemma_icosahedron_five_faces_each()
    ensures
        forall|v: int| 0 <= v < 12 ==> #[trigger] faces_around(ico_triangles(), v as usize, 20) == 5,
{
    let ts = ico_triangles();
    assert(ts[0] == tri(0, 11, 5));
    assert(ts[1] == tri(0, 5, 1));
    assert(ts[2] == tri(0, 1, 7));
    assert(ts[3] == tri(0, 7, 10));
    assert(ts[4] == tri(0, 10, 11));
    assert(ts[5] == tri(1, 5, 9));
    assert(ts[6] == tri(5, 11, 4));
    assert(ts[7] == tri(11, 10, 2));
    assert(ts[8] == tri(10, 7, 6));
    assert(ts[9] == tri(7, 1, 8));
    assert(ts[10] == tri(3, 9, 4));
    assert(ts[11] == tri(3, 4, 2));
    assert(ts[12] == tri(3, 2, 6));
    assert(ts[13] == tri(3, 6, 8));
    assert(ts[14] == tri(3, 8, 9));
    assert(ts[15] == tri(4, 9, 5));
    assert(ts[16] == tri(2, 4, 11));
    assert(ts[17] == tri(6, 2, 10));
    assert(ts[18] == tri(8, 6, 7));
    assert(ts[19] == tri(9, 8, 1));
    reveal_with_fuel(faces_around, 21);
    assert(faces_around(ts, 0usize, 20) == 5);
    assert(faces_around(ts, 1usize, 20) == 5);
    assert(faces_around(ts, 2usize, 20) == 5);
    assert(faces_around(ts, 3usize, 20) == 5);
    assert(faces_around(ts, 4usize, 20) == 5);
    assert(faces_around(ts, 5usize, 20) == 5);
    assert(faces_around(ts, 6usize, 20) == 5);
    assert(faces_around(ts, 7usize, 20) == 5);
    assert(faces_around(ts, 8usize, 20) == 5);
    assert(faces_around(ts, 9usize, 20) == 5);
    assert(faces_around(ts, 10usize, 20) == 5);
    assert(faces_around(ts, 11usize, 20) == 5);
    assert forall|v: int| 0 <= v < 12 implies #[trigger] faces_around(ico_triangles(), v as usize, 20) == 5 by {
        if v == 0 { assert(faces_around(ts, 0usize, 20) == 5); }
    }
}

/// The icosahedron with corners `(+-a, +-b, 0)` and their cyclic
/// permutations, where `b / a` is the golden ratio; the corners are taken
/// onto the unit sphere.
pub fn create_icosahedron() -> (m: MyMesh)
    ensures
        m@.vertices == ico_vertices(),
        m@.triangles == ico_triangles(),
        m@.wf(),
        forall|a: int, b: int| 0 < a && 0 < b ==> #[trigger] winds_outward(m@, a, b),
        closed_surface(m@),
        forall|v: int| 0 <= v < 12 ==> #[trigger] faces_around(m@.triangles, v as usize, 20) == 5,
{
    let mut sphere = MyMesh::new();
    sphere.vertices.push(Vertex::Icosa(IcoCoord::MinusA, IcoCoord::PlusB, IcoCoord::Zero));
    sphere.vertices.push(Vertex::Icosa(IcoCoord::PlusA, IcoCoord::PlusB, IcoCoord::Zero));
    sphere.vertices.push(Vertex::Icosa(IcoCoord::MinusA, IcoCoord::MinusB, IcoCoord::Zero));
    sphere.vertices.push(Vertex::Icosa(IcoCoord::PlusA, IcoCoord::MinusB, IcoCoord::Zero));
    sphere.vertices.push(Vertex::Icosa(IcoCoord::Zero, IcoCoord::MinusA, IcoCoord::PlusB));
    sphere.vertices.push(Vertex::Icosa(IcoCoord::Zero, IcoCoord::PlusA, IcoCoord::PlusB));
    sphere.vertices.push(Vertex::Icosa(IcoCoord::Zero, IcoCoord::MinusA, IcoCoord::MinusB));
    sphere.vertices.push(Vertex::Icosa(IcoCoord::Zero, IcoCoord::PlusA, IcoCoord::MinusB));
    sphere.vertices.push(Vertex::Icosa(IcoCoord::PlusB, IcoCoord::Zero, IcoCoord::MinusA));
    sphere.vertices.push(Vertex::Icosa(IcoCoord::PlusB, IcoCoord::Zero, IcoCoord::PlusA));
    sphere.vertices.push(Vertex::Icosa(IcoCoord::MinusB, IcoCoord::Zero, IcoCoord::MinusA));
    sphere.vertices.push(Vertex::Icosa(IcoCoord::MinusB, IcoCoord::Zero, IcoCoord::PlusA));
    let faces: [(usize, usize, usize); 20] = [
        (0, 11, 5),
        (0, 5, 1),
        (0, 1, 7),
        (0, 7, 10),
        (0, 10, 11),
        (1, 5, 9),
        (5, 11, 4),
        (11, 10, 2),
        (10, 7, 6),
        (7, 1, 8),
        (3, 9, 4),
        (3, 4, 2),
        (3, 2, 6),
        (3, 6, 8),
        (3, 8, 9),
        (4, 9, 5),
        (2, 4, 11),
        (6, 2, 10),
        (8, 6, 7),
        (9, 8, 1),
    ];
    for n in 0..20
        invariant
            sphere@.vertices == ico_vertices(),
            faces@ == seq![
                (0usize, 11usize, 5usize),
                (0usize, 5usize, 1usize),
                (0usize, 1usize, 7usize),
                (0usize, 7usize, 10usize),
                (0usize, 10usize, 11usize),
                (1usize, 5usize, 9usize),
                (5usize, 11usize, 4usize),
                (11usize, 10usize, 2usize),
                (10usize, 7usize, 6usize),
                (7usize, 1usize, 8usize),
                (3usize, 9usize, 4usize),
                (3usize, 4usize, 2usize),
                (3usize, 2usize, 6usize),
                (3usize, 6usize, 8usize),
                (3usize, 8usize, 9usize),
                (4usize, 9usize, 5usize),
                (2usize, 4usize, 11usize),
                (6usize, 2usize, 10usize),
                (8usize, 6usize, 7usize),
                (9usize, 8usize, 1usize),
            ],
            sphere@.triangles =~= ico_triangles().take(n as int),
    {
        let (i, j, k) = faces[n];
        sphere.triangles.push(Triangle { a: i, b: j, c: k });
    }
    assert(sphere@.triangles =~= ico_triangles());
    assert forall|a: int, b: int| 0 < a && 0 < b implies #[trigger] winds_outward(sphere@, a, b) by {
        lemma_icosahedron_winds_outward(a, b);
    }
    proof {
        lemma_icosahedron_closed();
        lemma_icosahedron_five_faces_each();
    }
    sphere
}

} // verus!
