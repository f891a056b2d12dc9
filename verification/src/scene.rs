use vstd::prelude::*;

use crate::controls::{moved, start_pose, Keys, Pose};
use crate::mesh::MyMesh;
use crate::shapes::{cube_triangles, cube_vertices, new_cube};
use crate::sphere::{generate_sphere_triangles, lemma_pow4_monotonic, pow4, sphere_mesh};
use crate::terrain::{generate_function_triangles, is_grid_mesh};

verus! {

/// What the first command-line word asks for.
#[derive(Clone, Copy, Debug, PartialEq, Eq, Structural)]
pub enum ObjectKind {
    Cube,
    Sphere,
    Mountain,
    Help,
    /// Any other word; it is shown as the cube.
    Other,
}

/// The kind of object that a name asks for.
pub open spec fn kind_of(name: Seq<char>) -> ObjectKind {
    if name == "cube"@ {
        ObjectKind::Cube
    } else if name == "sphere"@ {
        ObjectKind::Sphere
    } else if name == "mountain"@ {
        ObjectKind::Mountain
    } else if name == "help"@ {
        ObjectKind::Help
    } else {
        ObjectKind::Other
    }
}

/// Whether two texts hold the same characters.
pub fn same_text(x: &str, y: &str) -> (r: bool)
    ensures
        r == (x@ == y@),
{
    let n = x.unicode_len();
    if n != y.unicode_len() {
        return false;
    }
    let mut i: usize = 0;
    while i < n
        invariant
            n == x@.len(),
            n == y@.len(),
            i <= n,
            forall|k: int| 0 <= k < i ==> x@[k] == y@[k],
        decreases n - i,
    {
        if x.get_char(i) != y.get_char(i) {
            return false;
        }
        i = i + 1;
    }
    assert(x@ =~= y@);
    true
}

/// The kind of object that `name` asks for: `cube`, `sphere`, `mountain`,
/// `help`, or any other word.
pub fn object_kind(name: &str) -> (k: ObjectKind)
    ensures
        k == kind_of(name@),
{
    if same_text(name, "cube") {
        ObjectKind::Cube
    } else if same_text(name, "sphere") {
        ObjectKind::Sphere
    } else if same_text(name, "mountain") {
        ObjectKind::Mountain
    } else if same_text(name, "help") {
        ObjectKind::Help
    } else {
        ObjectKind::Other
    }
}

/// The mesh for `kind` at resolution `res` can be held in memory: the
/// number of its vertices and of its triangles fits in `usize`.
pub open spec fn resolution_fits(kind: ObjectKind, res: nat) -> bool {
    match kind {
        ObjectKind::Sphere => 20 * pow4(res) <= usize::MAX,
        ObjectKind::Mountain => (res + 1) * (res + 1) <= usize::MAX && 2 * res * res <= usize::MAX,
        _ => true,
    }
}

/// A resolution that fits stays fitting when lowered: the check accepts
/// every resolution below one that it accepts.
pub proof fn lemma_resolution_fits_downward(kind: ObjectKind, r1: nat, r2: nat)
    requires
        r1 <= r2,
        resolution_fits(kind, r2),
    ensures
        resolution_fits(kind, r1),
{
    match kind {
        ObjectKind::Sphere => {
            lemma_pow4_monotonic(r1, r2);
        },
        ObjectKind::Mountain => {
            assert((r1 + 1) * (r1 + 1) <= (r2 + 1) * (r2 + 1)) by (nonlinear_arith)
                requires
                    r1 <= r2,
            ;
            assert(2 * r1 * r1 <= 2 * r2 * r2) by (nonlinear_arith)
                requires
                    r1 <= r2,
            ;
        },
        _ => {},
    }
}

/// Every sphere of up to 13 subdivisions and every mountain of up to 46340
/// cells a side fits, whatever the width of `usize` (32 or 64 bits); so do
/// the cube and the other words at any resolution.
pub proof fn lemma_small_resolutions_fit(kind: ObjectKind, res: nat)
    requires
        kind == ObjectKind::Sphere ==> res <= 13,
        kind == ObjectKind::Mountain ==> res <= 46340,
    ensures
        resolution_fits(kind, res),
{
    match kind {
        ObjectKind::Sphere => {
            lemma_pow4_monotonic(res, 13);
            assert(pow4(13) == 67108864) by {
                reveal_with_fuel(pow4, 14);
            }
        },
        ObjectKind::Mountain => {
            assert((res + 1) * (res + 1) <= 46341 * 46341) by (nonlinear_arith)
                requires
                    res <= 46340,
            ;
            assert(2 * res * res <= 2 * 46340 * 46340) by (nonlinear_arith)
                requires
                    res <= 46340,
            ;
        },
        _ => {},
    }
}

/// Tells whether the mesh for `kind` at resolution `res` can be held in
/// memory; see `resolution_fits`.
pub fn check_resolution(kind: ObjectKind, res: u32) -> (r: bool)
    ensures
        r == resolution_fits(kind, res as nat),
        kind == ObjectKind::Sphere && res <= 13 ==> r,
        kind == ObjectKind::Mountain && res <= 46340 ==> r,
        kind != ObjectKind::Sphere && kind != ObjectKind::Mountain ==> r,
{
    proof {
        if (kind == ObjectKind::Sphere ==> res <= 13) && (kind == ObjectKind::Mountain ==> res <= 46340) {
            lemma_small_resolutions_fit(kind, res as nat);
        }
    }
    match kind {
        ObjectKind::Sphere => {
            let mut total: usize = 20;
            let mut s: u32 = 0;
            while s < res
                invariant
                    kind == ObjectKind::Sphere,
                    res <= 13 ==> resolution_fits(kind, res as nat),
                    s <= res,
                    total == 20 * pow4(s as nat),
                decreases res - s,
            {
                match total.checked_mul(4) {
                    Some(t) => {
                        total = t;
                    },
                    None => {
                        proof {
                            assert(pow4((s + 1) as nat) == 4 * pow4(s as nat));
                            lemma_pow4_monotonic((s + 1) as nat, res as nat);
                        }
                        return false;
                    },
                }
                s = s + 1;
            }
            true
        },
        ObjectKind::Mountain => {
            let r = res as usize;
            let w = match r.checked_add(1) {
                Some(w) => w,
                None => {
                    proof {
                        assert((r + 1) * (r + 1) >= r + 1) by (nonlinear_arith);
                    }
                    return false;
                },
            };
            let fits_vertices = match w.checked_mul(w) {
                Some(_) => true,
                None => false,
            };
            let fits_triangles = match r.checked_mul(2) {
                Some(d) => match d.checked_mul(r) {
                    Some(_) => true,
                    None => false,
                },
                None => {
                    proof {
                        assert(2 * r * r >= 2 * r) by (nonlinear_arith)
                            requires
                                2 * r > usize::MAX,
                        ;
                    }
                    false
                },
            };
            fits_vertices && fits_triangles
        },
        _ => true,
    }
}

/// The state of the viewer: the object shown, whether it is lit from
/// behind, and where it stands.
pub struct MainState {
    pub object: MyMesh,
    pub reverse_lighting: bool,
    pub pose: Pose,
}

impl MainState {
    /// The start state for the object that `object_str` names: the cube
    /// (for `cube` and any unknown word), the icosphere subdivided `res`
    /// times (`sphere`), or the terrain grid of `res` by `res` cells
    /// (`mountain`, which alone is lit from behind). The object stands 13
    /// units in front of the viewer, unturned.
    pub fn new(object_str: &str, res: u32) -> (s: MainState)
        requires
            resolution_fits(kind_of(object_str@), res as nat),
        ensures
            s.object@.wf(),
            kind_of(object_str@) == ObjectKind::Sphere ==> s.object@ == sphere_mesh(res as nat),
            kind_of(object_str@) == ObjectKind::Mountain ==> is_grid_mesh(s.object@, res as int),
            kind_of(object_str@) != ObjectKind::Sphere && kind_of(object_str@) != ObjectKind::Mountain
                ==> s.object@.vertices == cube_vertices() && s.object@.triangles == cube_triangles(),
            s.reverse_lighting == (kind_of(object_str@) == ObjectKind::Mountain),
            s.pose == start_pose(),
    {
        let kind = object_kind(object_str);
        let object = match kind {
            ObjectKind::Sphere => generate_sphere_triangles(res),
            ObjectKind::Mountain => generate_function_triangles(res as usize),
            _ => new_cube(),
        };
        let reverse_lighting = match kind {
            ObjectKind::Mountain => true,
            _ => false,
        };
        MainState { object, reverse_lighting, pose: Pose::start() }
    }

    /// One frame of steering with the keys `keys`; the object and its
    /// lighting stay as they are.
    pub fn update(&mut self, keys: &Keys)
        ensures
            final(self).pose == moved(old(self).pose, *keys),
            final(self).object@.vertices == old(self).object@.vertices,
            final(self).object@.triangles == old(self).object@.triangles,
            final(self).reverse_lighting == old(self).reverse_lighting,
    {
        self.pose = self.pose.steer(keys);
    }
}

} // verus!
