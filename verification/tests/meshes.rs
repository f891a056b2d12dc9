use mountain_render::mesh::{IcoCoord, MyMesh, Triangle, Vertex};
use mountain_render::shapes::{create_icosahedron, new_cube, test_triangle};
use mountain_render::sphere::{generate_sphere_triangles, subdivide};
use mountain_render::terrain::generate_function_triangles;

fn exact(v: Vertex) -> (i64, i64, i64, u64) {
    match v {
        Vertex::Exact { x, y, z, den } => (x, y, z, den),
        other => panic!("not a rational point: {:?}", other),
    }
}

fn sub(u: (i64, i64, i64), w: (i64, i64, i64)) -> (i64, i64, i64) {
    (u.0 - w.0, u.1 - w.1, u.2 - w.2)
}

fn cross(u: (i64, i64, i64), w: (i64, i64, i64)) -> (i64, i64, i64) {
    (u.1 * w.2 - u.2 * w.1, u.2 * w.0 - u.0 * w.2, u.0 * w.1 - u.1 * w.0)
}

fn dot(u: (i64, i64, i64), w: (i64, i64, i64)) -> i64 {
    u.0 * w.0 + u.1 * w.1 + u.2 * w.2
}

fn t(a: usize, b: usize, c: usize) -> Triangle {
    Triangle { a, b, c }
}

#[test]
fn empty_mesh_has_nothing() {
    let m = MyMesh::new();
    assert!(m.vertices.is_empty());
    assert!(m.triangles.is_empty());
}

#[test]
fn cube_has_two_triangles_per_side() {
    let m = new_cube();
    assert_eq!(m.vertices.len(), 8);
    assert_eq!(m.triangles.len(), 12);
    assert_eq!(m.vertices[0], Vertex::Exact { x: 0, y: 0, z: 0, den: 1 });
    assert_eq!(m.vertices[7], Vertex::Exact { x: 1, y: 1, z: 1, den: 1 });
    // south side: wbs, wus, eus and wbs, eus, ebs
    assert_eq!(m.triangles[0], t(0, 4, 5));
    assert_eq!(m.triangles[1], t(0, 5, 1));
    // bottom side
    assert_eq!(m.triangles[10], t(3, 2, 0));
    assert_eq!(m.triangles[11], t(3, 0, 1));
}

#[test]
fn cube_normals_point_outward() {
    let m = new_cube();
    let expected = [
        (0, 0, -1), (0, 0, -1), (1, 0, 0), (1, 0, 0), (0, 0, 1), (0, 0, 1),
        (-1, 0, 0), (-1, 0, 0), (0, 1, 0), (0, 1, 0), (0, -1, 0), (0, -1, 0),
    ];
    for (k, tri) in m.triangles.iter().enumerate() {
        let a = exact(m.vertices[tri.a]);
        let b = exact(m.vertices[tri.b]);
        let c = exact(m.vertices[tri.c]);
        let (pa, pb, pc) = ((a.0, a.1, a.2), (b.0, b.1, b.2), (c.0, c.1, c.2));
        let n = cross(sub(pb, pa), sub(pc, pa));
        assert_eq!(n, expected[k]);
        let centroid6 = (
            2 * (pa.0 + pb.0 + pc.0) - 3,
            2 * (pa.1 + pb.1 + pc.1) - 3,
            2 * (pa.2 + pb.2 + pc.2) - 3,
        );
        assert!(dot(n, centroid6) > 0);
    }
}

#[test]
fn test_triangles_share_an_edge() {
    let m = test_triangle();
    assert_eq!(m.vertices.len(), 4);
    assert_eq!(m.vertices[0], Vertex::Exact { x: 0, y: 0, z: 2, den: 2 });
    assert_eq!(m.vertices[1], Vertex::Exact { x: 0, y: 1, z: 0, den: 2 });
    assert_eq!(m.vertices[2], Vertex::Exact { x: 2, y: 1, z: 2, den: 2 });
    assert_eq!(m.vertices[3], Vertex::Exact { x: 2, y: 0, z: 0, den: 2 });
    assert_eq!(m.triangles, vec![t(0, 1, 2), t(2, 1, 3)]);
}

fn ico_len(c: IcoCoord, a: i64, b: i64) -> i64 {
    match c {
        IcoCoord::Zero => 0,
        IcoCoord::PlusA => a,
        IcoCoord::MinusA => -a,
        IcoCoord::PlusB => b,
        IcoCoord::MinusB => -b,
    }
}

fn ico_pos(v: Vertex, a: i64, b: i64) -> (i64, i64, i64) {
    match v {
        Vertex::Icosa(x, y, z) => (ico_len(x, a, b), ico_len(y, a, b), ico_len(z, a, b)),
        other => panic!("not a corner: {:?}", other),
    }
}

#[test]
fn icosahedron_has_twenty_outward_faces() {
    let m = create_icosahedron();
    assert_eq!(m.vertices.len(), 12);
    assert_eq!(m.triangles.len(), 20);
    assert_eq!(m.vertices[0], Vertex::Icosa(IcoCoord::MinusA, IcoCoord::PlusB, IcoCoord::Zero));
    assert_eq!(m.vertices[11], Vertex::Icosa(IcoCoord::MinusB, IcoCoord::Zero, IcoCoord::PlusA));
    assert_eq!(m.triangles[0], t(0, 11, 5));
    assert_eq!(m.triangles[19], t(9, 8, 1));
    // with a = 1000 and b close to the golden ratio times a
    for tri in &m.triangles {
        let pa = ico_pos(m.vertices[tri.a], 1000, 1618);
        let pb = ico_pos(m.vertices[tri.b], 1000, 1618);
        let pc = ico_pos(m.vertices[tri.c], 1000, 1618);
        assert!(dot(pa, cross(pb, pc)) > 0);
    }
    // every edge is met once in each direction
    for tri in &m.triangles {
        for (p, q) in [(tri.a, tri.b), (tri.b, tri.c), (tri.c, tri.a)] {
            let reverse = m
                .triangles
                .iter()
                .filter(|o| [(o.a, o.b), (o.b, o.c), (o.c, o.a)].contains(&(q, p)))
                .count();
            assert_eq!(reverse, 1);
        }
    }
}

#[test]
fn subdividing_one_triangle_gives_four() {
    let mut m = MyMesh::new();
    m.vertices.push(Vertex::Exact { x: 0, y: 0, z: 0, den: 1 });
    m.vertices.push(Vertex::Exact { x: 2, y: 0, z: 0, den: 1 });
    m.vertices.push(Vertex::Exact { x: 0, y: 2, z: 0, den: 1 });
    m.triangles.push(t(0, 1, 2));
    let s = subdivide(m);
    assert_eq!(s.vertices.len(), 6);
    assert_eq!(s.vertices[3], Vertex::Midpoint { p: 0, q: 1 });
    assert_eq!(s.vertices[4], Vertex::Midpoint { p: 1, q: 2 });
    assert_eq!(s.vertices[5], Vertex::Midpoint { p: 2, q: 0 });
    assert_eq!(s.triangles, vec![t(0, 3, 5), t(3, 1, 4), t(5, 4, 2), t(3, 4, 5)]);
}

#[test]
fn sphere_counts_grow_fourfold() {
    let s0 = generate_sphere_triangles(0);
    assert_eq!((s0.vertices.len(), s0.triangles.len()), (12, 20));
    let s1 = generate_sphere_triangles(1);
    assert_eq!((s1.vertices.len(), s1.triangles.len()), (72, 80));
    let s2 = generate_sphere_triangles(2);
    assert_eq!((s2.vertices.len(), s2.triangles.len()), (312, 320));
    let s3 = generate_sphere_triangles(3);
    assert_eq!(s3.triangles.len(), 20 * 64);
    // the children of the first face (0, 11, 5)
    assert_eq!(s1.vertices[12], Vertex::Midpoint { p: 0, q: 11 });
    assert_eq!(s1.vertices[13], Vertex::Midpoint { p: 11, q: 5 });
    assert_eq!(s1.vertices[14], Vertex::Midpoint { p: 5, q: 0 });
    assert_eq!(s1.triangles[0], t(0, 12, 14));
    assert_eq!(s1.triangles[3], t(12, 13, 14));
    // every midpoint refers to earlier vertices
    for (k, v) in s2.vertices.iter().enumerate() {
        if let Vertex::Midpoint { p, q } = v {
            assert!(*p < k && *q < k);
        }
    }
}

#[test]
fn terrain_grid_of_two_by_two() {
    let m = generate_function_triangles(2);
    assert_eq!(m.vertices.len(), 9);
    assert_eq!(m.vertices[0], Vertex::Grid { i: 0, j: 0 });
    assert_eq!(m.vertices[5], Vertex::Grid { i: 1, j: 2 });
    assert_eq!(m.vertices[8], Vertex::Grid { i: 2, j: 2 });
    assert_eq!(m.triangles.len(), 8);
    // cell (0, 0)
    assert_eq!(m.triangles[0], t(1, 0, 4));
    assert_eq!(m.triangles[1], t(4, 0, 3));
    // cell (1, 1)
    assert_eq!(m.triangles[6], t(5, 4, 8));
    assert_eq!(m.triangles[7], t(8, 4, 7));
    for tri in &m.triangles {
        let g = |id: usize| match m.vertices[id] {
            Vertex::Grid { i, j } => (i as i64, j as i64),
            other => panic!("not a grid sample: {:?}", other),
        };
        let (a, b, c) = (g(tri.a), g(tri.b), g(tri.c));
        assert_eq!((b.1 - a.1) * (c.0 - a.0) - (b.0 - a.0) * (c.1 - a.1), -1);
    }
}

#[test]
fn terrain_grid_of_zero_cells() {
    let m = generate_function_triangles(0);
    assert_eq!(m.vertices, vec![Vertex::Grid { i: 0, j: 0 }]);
    assert!(m.triangles.is_empty());
}

#[test]
fn flat_children_keep_their_parents_normal() {
    let mut m = MyMesh::new();
    m.vertices.push(Vertex::Exact { x: 0, y: 0, z: 0, den: 1 });
    m.vertices.push(Vertex::Exact { x: 0, y: 1, z: 0, den: 1 });
    m.vertices.push(Vertex::Exact { x: 1, y: 1, z: 0, den: 1 });
    m.triangles.push(t(0, 1, 2));
    let pos = [(3, -1, 2), (5, 4, -2), (-7, 6, 1)];
    let parent = cross(sub(pos[1], pos[0]), sub(pos[2], pos[0]));
    let s = subdivide(m);
    let flat = |id: usize| -> (i64, i64, i64) {
        if id < 3 {
            (2 * pos[id].0, 2 * pos[id].1, 2 * pos[id].2)
        } else {
            match s.vertices[id] {
                Vertex::Midpoint { p, q } => (pos[p].0 + pos[q].0, pos[p].1 + pos[q].1, pos[p].2 + pos[q].2),
                other => panic!("not a midpoint: {:?}", other),
            }
        }
    };
    for tri in &s.triangles {
        let (a, b, c) = (flat(tri.a), flat(tri.b), flat(tri.c));
        assert_eq!(cross(sub(b, a), sub(c, a)), parent);
    }
}

#[test]
fn subdivided_sphere_winds_outward() {
    // corners at a = 1000, b = 1618; each midpoint at the plain sum of its ends
    let m = generate_sphere_triangles(2);
    let mut pos: Vec<(i64, i64, i64)> = Vec::new();
    for v in &m.vertices {
        let p = match *v {
            Vertex::Icosa(..) => ico_pos(*v, 1000, 1618),
            Vertex::Midpoint { p, q } => (pos[p].0 + pos[q].0, pos[p].1 + pos[q].1, pos[p].2 + pos[q].2),
            other => panic!("unexpected vertex: {:?}", other),
        };
        pos.push(p);
    }
    for tri in &m.triangles {
        assert!(dot(pos[tri.a], cross(pos[tri.b], pos[tri.c])) > 0);
    }
}
