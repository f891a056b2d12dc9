use vstd::prelude::*;

use crate::mesh::{edge_of, MeshView, MyMesh, Triangle, Vertex};

verus! {

/// The number of grid sample `(i, j)` in a grid with `w` samples a row.
pub open spec fn grid_index(i: int, j: int, w: int) -> int {
    i * w + j
}

/// The first triangle of cell `(i, j)`: `(i, j+1), (i, j), (i+1, j+1)`.
pub open spec fn first_cell_triangle(i: int, j: int, w: int) -> Triangle {
    Triangle {
        a: grid_index(i, j + 1, w) as usize,
        b: grid_index(i, j, w) as usize,
        c: grid_index(i + 1, j + 1, w) as usize,
    }
}

/// The second triangle of cell `(i, j)`: `(i+1, j+1), (i, j), (i+1, j)`.
pub open spec fn second_cell_triangle(i: int, j: int, w: int) -> Triangle {
    Triangle {
        a: grid_index(i + 1, j + 1, w) as usize,
        b: grid_index(i, j, w) as usize,
        c: grid_index(i + 1, j, w) as usize,
    }
}

/// The grid position `(i, j)` of a terrain sample (the origin for other
/// kinds of vertex).
pub open spec fn grid_position(v: Vertex) -> (int, int) {
    match v {
        Vertex::Grid { i, j } => (i as int, j as int),
        _ => (0, 0),
    }
}

/// The vertical component of the normal `(b - a) x (c - a)` of a triangle
/// whose corners stand over the grid positions `a, b, c`, measured in grid
/// steps, with `i` along x and `j` along z. It does not depend on the
/// heights.
pub open spec fn vertical_turn(a: (int, int), b: (int, int), c: (int, int)) -> int {
    (b.1 - a.1) * (c.0 - a.0) - (b.0 - a.0) * (c.1 - a.1)
}

/// `m` is the terrain grid of `res` by `res` cells: its vertices are the
/// samples `(i, j)` for `0 <= i, j <= res`, row by row, and for each cell
/// `(i, j)`, row by row, it holds the two triangles of the cell.
pub open spec fn is_grid_mesh(m: MeshView, res: int) -> bool {
    let w = res + 1;
    &&& m.vertices.len() == w * w
    &&& forall|i: int, j: int|
        0 <= i <= res && 0 <= j <= res ==> #[trigger] m.vertices[grid_index(i, j, w)] == (Vertex::Grid { i: i as usize, j: j as usize })
    &&& m.triangles.len() == 2 * res * res
    &&& forall|i: int, j: int|
        0 <= i < res && 0 <= j < res ==> #[trigger] m.triangles[2 * grid_index(i, j, res)] == first_cell_triangle(i, j, w)
    &&& forall|i: int, j: int|
        0 <= i < res && 0 <= j < res ==> #[trigger] m.triangles[2 * grid_index(i, j, res) + 1] == second_cell_triangle(i, j, w)
}

/// The corners of `t` are listed vertices, and over the grid the triangle
/// turns the same way as every terrain triangle.
pub open spec fn triangle_fits_grid(t: Triangle, vertices: Seq<Vertex>) -> bool {
    &&& crate::mesh::triangle_in_range(t, vertices.len())
    &&& vertical_turn(
        grid_position(vertices[t.a as int]),
        grid_position(vertices[t.b as int]),
        grid_position(vertices[t.c as int]),
    ) == -1
}

proof fn lemma_cell_turns(i: int, j: int)
    ensures
        vertical_turn((i, j + 1), (i, j), (i + 1, j + 1)) == -1,
        vertical_turn((i + 1, j + 1), (i, j), (i + 1, j)) == -1,
{
    assert(vertical_turn((i, j + 1), (i, j), (i + 1, j + 1)) == -1) by (nonlinear_arith);
    assert(vertical_turn((i + 1, j + 1), (i, j), (i + 1, j)) == -1) by (nonlinear_arith);
}

proof fn lemma_row_bound(i: int, j: int, i2: int, j2: int, w: int)
    requires
        0 <= i2,
        0 <= j2 < w,
        i2 < i,
        0 <= j,
    ensures
        grid_index(i2, j2, w) < grid_index(i, 0, w),
        grid_index(i, 0, w) <= grid_index(i, j, w),
{
    assert(i2 * w + w <= i * w) by (nonlinear_arith)
        requires
            i2 < i,
            0 <= w,
    ;
}

proof fn lemma_next_row(i: int, w: int)
    ensures
        grid_index(i + 1, 0, w) == grid_index(i, w, w),
{
    assert((i + 1) * w == i * w + w) by (nonlinear_arith);
}

/// The grid position of vertex `id` of `m`.
pub open spec fn sample_at(m: MeshView, id: usize) -> (int, int) {
    grid_position(m.vertices[id as int])
}

/// Edge `e` of triangle `t`, as the grid positions of its two ends.
pub open spec fn edge_over_grid(m: MeshView, t: Triangle, e: int) -> ((int, int), (int, int)) {
    (sample_at(m, edge_of(t, e).0), sample_at(m, edge_of(t, e).1))
}

/// `p` is a corner of cell `(i, j)`.
pub open spec fn corner_of_cell(p: (int, int), i: int, j: int) -> bool {
    (p.0 == i || p.0 == i + 1) && (p.1 == j || p.1 == j + 1)
}

/// Triangle `t` has the edge `d` (as grid positions), in that direction.
pub open spec fn walks(m: MeshView, t: Triangle, d: ((int, int), (int, int))) -> bool {
    edge_over_grid(m, t, 0) == d || edge_over_grid(m, t, 1) == d || edge_over_grid(m, t, 2) == d
}

/// The two triangles of cell `(i, j)` cover the cell exactly once: all their
/// corners are corners of the cell, both turn the same way (the vertical
/// part of each normal is `-1`, so each covers half the cell), and they
/// share the diagonal from `(i, j)` to `(i+1, j+1)`, walking it in opposite
/// directions, so they lie on the two sides of it and do not overlap.
pub open spec fn cell_tiled(m: MeshView, res: int, i: int, j: int) -> bool {
    let t1 = m.triangles[2 * grid_index(i, j, res)];
    let t2 = m.triangles[2 * grid_index(i, j, res) + 1];
    &&& corner_of_cell(sample_at(m, t1.a), i, j)
    &&& corner_of_cell(sample_at(m, t1.b), i, j)
    &&& corner_of_cell(sample_at(m, t1.c), i, j)
    &&& corner_of_cell(sample_at(m, t2.a), i, j)
    &&& corner_of_cell(sample_at(m, t2.b), i, j)
    &&& corner_of_cell(sample_at(m, t2.c), i, j)
    &&& vertical_turn(sample_at(m, t1.a), sample_at(m, t1.b), sample_at(m, t1.c)) == -1
    &&& vertical_turn(sample_at(m, t2.a), sample_at(m, t2.b), sample_at(m, t2.c)) == -1
    &&& walks(m, t1, ((i, j), (i + 1, j + 1)))
    &&& walks(m, t2, ((i + 1, j + 1), (i, j)))
}

/// Every cell of the terrain grid is covered exactly once by its two
/// triangles, which meet along the diagonal from `(i, j)` to
/// `(i+1, j+1)`.
pub proof fn lemma_cells_tiled(m: MeshView, res: int, i: int, j: int)
    requires
        is_grid_mesh(m, res),
        (res + 1) * (res + 1) <= usize::MAX,
        0 <= i < res,
        0 <= j < res,
    ensures
        cell_tiled(m, res, i, j),
{
    let w = res + 1;
    assert(i * w + 2 * w <= w * w) by (nonlinear_arith)
        requires
            0 <= i < res,
            w == res + 1,
    ;
    assert((i + 1) * w == i * w + w) by (nonlinear_arith);
    lemma_cell_turns(i, j);
    let t1 = m.triangles[2 * grid_index(i, j, res)];
    let t2 = m.triangles[2 * grid_index(i, j, res) + 1];
    assert(t1 == first_cell_triangle(i, j, w));
    assert(t2 == second_cell_triangle(i, j, w));
    assert(m.vertices[grid_index(i, j, w)] == (Vertex::Grid { i: i as usize, j: j as usize }));
    assert(m.vertices[grid_index(i + 1, j, w)] == (Vertex::Grid { i: (i + 1) as usize, j: j as usize }));
    assert(m.vertices[grid_index(i, j + 1, w)] == (Vertex::Grid { i: i as usize, j: (j + 1) as usize }));
    assert(m.vertices[grid_index(i + 1, j + 1, w)] == (Vertex::Grid { i: (i + 1) as usize, j: (j + 1) as usize }));
    assert(edge_over_grid(m, t1, 1) == ((i, j), (i + 1, j + 1)));
    assert(edge_over_grid(m, t2, 0) == ((i + 1, j + 1), (i, j)));
}

/// The terrain grid of `resolution` by `resolution` cells. Each cell
/// `(i, j)` becomes the triangles `(i, j+1), (i, j), (i+1, j+1)` and
/// `(i+1, j+1), (i, j), (i+1, j)`; the height of each sample is left to the
/// renderer. Every triangle turns the same way: seen over the grid, its
/// normal has the vertical component `-1`.
pub fn generate_function_triangles(resolution: usize) -> (m: MyMesh)
    requires
        (resolution + 1) * (resolution + 1) <= usize::MAX,
        2 * resolution * resolution <= usize::MAX,
    ensures
        is_grid_mesh(m@, resolution as int),
        m@.wf(),
        forall|t: int| 0 <= t < m@.triangles.len() ==> {
            let tri = #[trigger] m@.triangles[t];
            vertical_turn(
                grid_position(m@.vertices[tri.a as int]),
                grid_position(m@.vertices[tri.b as int]),
                grid_position(m@.vertices[tri.c as int]),
            ) == -1
        },
        forall|i: int, j: int|
            0 <= i < resolution && 0 <= j < resolution ==> #[trigger] cell_tiled(m@, resolution as int, i, j),
{
    let res = resolution;
    proof {
        assert(res + 1 <= (res + 1) * (res + 1)) by (nonlinear_arith);
    }
    let w = res + 1;
    let mut vertices: Vec<Vertex> = Vec::new();
    let mut i: usize = 0;
    while i <= res
        invariant
            w == res + 1,
            w * w <= usize::MAX,
            i <= w,
            vertices@.len() == grid_index(i as int, 0, w as int),
            forall|k: int| 0 <= k < vertices@.len() ==> #[trigger] vertices@[k] is Grid,
            forall|i2: int, j2: int|
                0 <= i2 < i && 0 <= j2 <= res ==> #[trigger] vertices@[grid_index(i2, j2, w as int)] == (Vertex::Grid { i: i2 as usize, j: j2 as usize }),
        decreases w - i,
    {
        proof {
            assert(i * w + w <= w * w) by (nonlinear_arith)
                requires
                    i < w,
            ;
        }
        let mut j: usize = 0;
        while j <= res
            invariant
                w == res + 1,
                i < w,
                i * w + w <= w * w,
                w * w <= usize::MAX,
                j <= w,
                vertices@.len() == grid_index(i as int, j as int, w as int),
                forall|k: int| 0 <= k < vertices@.len() ==> #[trigger] vertices@[k] is Grid,
                forall|i2: int, j2: int|
                    0 <= i2 < i && 0 <= j2 <= res ==> #[trigger] vertices@[grid_index(i2, j2, w as int)] == (Vertex::Grid { i: i2 as usize, j: j2 as usize }),
                forall|j2: int|
                    0 <= j2 < j ==> #[trigger] vertices@[grid_index(i as int, j2, w as int)] == (Vertex::Grid { i: i, j: j2 as usize }),
            decreases w - j,
        {
            let ghost before = vertices@;
            vertices.push(Vertex::Grid { i, j });
            proof {
                assert forall|i2: int, j2: int|
                    0 <= i2 < i && 0 <= j2 <= res implies #[trigger] vertices@[grid_index(i2, j2, w as int)] == (Vertex::Grid { i: i2 as usize, j: j2 as usize }) by {
                    lemma_row_bound(i as int, j as int, i2, j2, w as int);
                    assert(before[grid_index(i2, j2, w as int)] == vertices@[grid_index(i2, j2, w as int)]);
                }
            }
            j = j + 1;
        }
        proof {
            lemma_next_row(i as int, w as int);
        }
        i = i + 1;
    }
    let mut triangles: Vec<Triangle> = Vec::new();
    let mut i: usize = 0;
    while i < res
        invariant
            w == res + 1,
            w * w <= usize::MAX,
            2 * res * res <= usize::MAX,
            i <= res,
            triangles@.len() == 2 * grid_index(i as int, 0, res as int),
            vertices@.len() == w * w,
            forall|i2: int, j2: int|
                0 <= i2 <= res && 0 <= j2 <= res ==> #[trigger] vertices@[grid_index(i2, j2, w as int)] == (Vertex::Grid { i: i2 as usize, j: j2 as usize }),
            forall|t: int| 0 <= t < triangles@.len() ==> triangle_fits_grid(#[trigger] triangles@[t], vertices@),
            forall|i2: int, j2: int|
                0 <= i2 < i && 0 <= j2 < res ==> #[trigger] triangles@[2 * grid_index(i2, j2, res as int)] == first_cell_triangle(i2, j2, w as int),
            forall|i2: int, j2: int|
                0 <= i2 < i && 0 <= j2 < res ==> #[trigger] triangles@[2 * grid_index(i2, j2, res as int) + 1] == second_cell_triangle(i2, j2, w as int),
        decreases res - i,
    {
        proof {
            assert(i * res + res <= res * res) by (nonlinear_arith)
                requires
                    i < res,
            ;
            assert(i * w + 2 * w <= w * w) by (nonlinear_arith)
                requires
                    i < res,
                    w == res + 1,
            ;
        }
        let mut j: usize = 0;
        while j < res
            invariant
                w == res + 1,
                i < res,
                i * res + res <= res * res,
                i * w + 2 * w <= w * w,
                vertices@.len() == w * w,
                forall|i2: int, j2: int|
                    0 <= i2 <= res && 0 <= j2 <= res ==> #[trigger] vertices@[grid_index(i2, j2, w as int)] == (Vertex::Grid { i: i2 as usize, j: j2 as usize }),
                forall|t: int| 0 <= t < triangles@.len() ==> triangle_fits_grid(#[trigger] triangles@[t], vertices@),
                w * w <= usize::MAX,
                2 * res * res <= usize::MAX,
                j <= res,
                triangles@.len() == 2 * grid_index(i as int, j as int, res as int),
                forall|i2: int, j2: int|
                    0 <= i2 < i && 0 <= j2 < res ==> #[trigger] triangles@[2 * grid_index(i2, j2, res as int)] == first_cell_triangle(i2, j2, w as int),
                forall|i2: int, j2: int|
                    0 <= i2 < i && 0 <= j2 < res ==> #[trigger] triangles@[2 * grid_index(i2, j2, res as int) + 1] == second_cell_triangle(i2, j2, w as int),
                forall|j2: int|
                    0 <= j2 < j ==> #[trigger] triangles@[2 * grid_index(i as int, j2, res as int)] == first_cell_triangle(i as int, j2, w as int),
                forall|j2: int|
                    0 <= j2 < j ==> #[trigger] triangles@[2 * grid_index(i as int, j2, res as int) + 1] == second_cell_triangle(i as int, j2, w as int),
            decreases res - j,
        {
            let row = i * w;
            let next_row = row + w;
            let ghost before = triangles@;
            // the corners (i, j), (i + 1, j), (i, j + 1), (i + 1, j + 1)
            let p00 = row + j;
            let p10 = next_row + j;
            let p01 = row + j + 1;
            let p11 = next_row + j + 1;
            triangles.push(Triangle { a: p01, b: p00, c: p11 });
            triangles.push(Triangle { a: p11, b: p00, c: p10 });
            proof {
                assert((i + 1) * w == i * w + w) by (nonlinear_arith);
                lemma_cell_turns(i as int, j as int);
                assert(vertices@[grid_index(i as int, j as int, w as int)] == (Vertex::Grid { i: i, j: j }));
                assert(vertices@[grid_index(i as int + 1, j as int, w as int)] == (Vertex::Grid { i: (i + 1) as usize, j: j }));
                assert(vertices@[grid_index(i as int, j as int + 1, w as int)] == (Vertex::Grid { i: i, j: (j + 1) as usize }));
                assert(vertices@[grid_index(i as int + 1, j as int + 1, w as int)] == (Vertex::Grid { i: (i + 1) as usize, j: (j + 1) as usize }));
                assert forall|t: int| 0 <= t < triangles@.len() implies triangle_fits_grid(#[trigger] triangles@[t], vertices@) by {
                    if t < before.len() {
                        assert(before[t] == triangles@[t]);
                    }
                }
                assert forall|i2: int, j2: int|
                    0 <= i2 < i && 0 <= j2 < res implies #[trigger] triangles@[2 * grid_index(i2, j2, res as int)] == first_cell_triangle(i2, j2, w as int) by {
                    lemma_row_bound(i as int, j as int, i2, j2, res as int);
                    assert(before[2 * grid_index(i2, j2, res as int)] == triangles@[2 * grid_index(i2, j2, res as int)]);
                }
                assert forall|i2: int, j2: int|
                    0 <= i2 < i && 0 <= j2 < res implies #[trigger] triangles@[2 * grid_index(i2, j2, res as int) + 1] == second_cell_triangle(i2, j2, w as int) by {
                    lemma_row_bound(i as int, j as int, i2, j2, res as int);
                    assert(before[2 * grid_index(i2, j2, res as int) + 1] == triangles@[2 * grid_index(i2, j2, res as int) + 1]);
                }
            }
            j = j + 1;
        }
        proof {
            lemma_next_row(i as int, res as int);
        }
        i = i + 1;
    }
    let m = MyMesh { vertices, triangles };
    proof {
        assert(2 * res * res == 2 * (res * res)) by (nonlinear_arith);
        assert forall|k: int| 0 <= k < m@.vertices.len() implies crate::mesh::vertex_refers_back(#[trigger] m@.vertices[k], k) by {
            assert(m@.vertices[k] is Grid);
        }
        assert forall|t: int| 0 <= t < m@.triangles.len() implies crate::mesh::triangle_in_range(#[trigger] m@.triangles[t], m@.vertices.len()) by {
            assert(triangle_fits_grid(m@.triangles[t], m@.vertices));
        }
        assert forall|i: int, j: int| 0 <= i < res && 0 <= j < res implies #[trigger] cell_tiled(m@, res as int, i, j) by {
            lemma_cells_tiled(m@, res as int, i, j);
        }
    }
    m
}

} // verus!
