use vstd::prelude::*;

verus! {

/// The keys and modifiers that steer the view during one frame.
#[derive(Clone, Copy, Debug, PartialEq, Eq, Structural)]
pub struct Keys {
    /// `Q` and `E`: turn about the x axis.
    pub q: bool,
    pub e: bool,
    /// Left and Right: turn about the y axis.
    pub left: bool,
    pub right: bool,
    /// Up and Down: turn about the z axis.
    pub up: bool,
    pub down: bool,
    /// `S` and `W`: move along z.
    pub s: bool,
    pub w: bool,
    /// `D` and `A`: move along x.
    pub d: bool,
    pub a: bool,
    /// Shift and Ctrl: move along y.
    pub shift: bool,
    pub ctrl: bool,
}

/// Where the object stands: its turn about each axis, counted in steps of
/// 0.01 radian, and its offset along each axis, counted in steps of 0.1.
#[derive(Clone, Copy, Debug, PartialEq, Eq, Structural)]
pub struct Pose {
    pub theta_x: i64,
    pub theta_y: i64,
    pub theta_z: i64,
    pub move_x: i64,
    pub move_y: i64,
    pub move_z: i64,
}

/// The step that a pair of opposed keys asks for: `+1` when the first is
/// held (it wins over the second), `-1` when only the second is, else `0`.
pub open spec fn key_step(forward: bool, backward: bool) -> int {
    if forward {
        1
    } else if backward {
        -1
    } else {
        0
    }
}

/// `x` held within the range of `i64`.
pub open spec fn clamp_i64(x: int) -> i64 {
    if x > i64::MAX {
        i64::MAX
    } else if x < i64::MIN {
        i64::MIN
    } else {
        x as i64
    }
}

/// A counter after one frame with the given pair of keys.
pub open spec fn stepped(v: i64, forward: bool, backward: bool) -> i64 {
    clamp_i64(v + key_step(forward, backward))
}

/// The pose after one frame with the keys `k`.
pub open spec fn moved(p: Pose, k: Keys) -> Pose {
    Pose {
        theta_x: stepped(p.theta_x, k.q, k.e),
        theta_y: stepped(p.theta_y, k.left, k.right),
        theta_z: stepped(p.theta_z, k.up, k.down),
        move_x: stepped(p.move_x, k.d, k.a),
        move_y: stepped(p.move_y, k.shift, k.ctrl),
        move_z: stepped(p.move_z, k.s, k.w),
    }
}

/// The pose at start: no turn, and the object 13 units in front of the
/// viewer.
pub open spec fn start_pose() -> Pose {
    Pose { theta_x: 0, theta_y: 0, theta_z: 0, move_x: 0, move_y: 0, move_z: 130 }
}

/// A counter after one frame: one step up when `forward` is held, else one
/// step down when `backward` is held, held within the range of `i64`.
pub fn step_counter(v: i64, forward: bool, backward: bool) -> (r: i64)
    ensures
        r == stepped(v, forward, backward),
{
    if forward {
        if v < i64::MAX {
            v + 1
        } else {
            v
        }
    } else if backward {
        if v > i64::MIN {
            v - 1
        } else {
            v
        }
    } else {
        v
    }
}

impl Pose {
    /// The pose at start.
    pub fn start() -> (p: Pose)
        ensures
            p == start_pose(),
    {
        Pose { theta_x: 0, theta_y: 0, theta_z: 0, move_x: 0, move_y: 0, move_z: 130 }
    }

    /// One frame of steering: `Q`/`E` turn about x, Left/Right about y,
    /// Up/Down about z, `D`/`A` move along x, Shift/Ctrl along y and `S`/`W`
    /// along z; of two opposed keys held together the first wins.
    pub fn steer(&self, keys: &Keys) -> (p: Pose)
        ensures
            p == moved(*self, *keys),
    {
        Pose {
            theta_x: step_counter(self.theta_x, keys.q, keys.e),
            theta_y: step_counter(self.theta_y, keys.left, keys.right),
            theta_z: step_counter(self.theta_z, keys.up, keys.down),
            move_x: step_counter(self.move_x, keys.d, keys.a),
            move_y: step_counter(self.move_y, keys.shift, keys.ctrl),
            move_z: step_counter(self.move_z, keys.s, keys.w),
        }
    }
}

/// No key held.
pub open spec fn no_keys() -> Keys {
    Keys {
        q: false,
        e: false,
        left: false,
        right: false,
        up: false,
        down: false,
        s: false,
        w: false,
        d: false,
        a: false,
        shift: false,
        ctrl: false,
    }
}

/// The keys `k` with each key swapped for its opposite.
pub open spec fn opposite_keys(k: Keys) -> Keys {
    Keys {
        q: k.e,
        e: k.q,
        left: k.right,
        right: k.left,
        up: k.down,
        down: k.up,
        s: k.w,
        w: k.s,
        d: k.a,
        a: k.d,
        shift: k.ctrl,
        ctrl: k.shift,
    }
}

/// No two opposed keys are held together.
pub open spec fn no_conflict(k: Keys) -> bool {
    !(k.q && k.e) && !(k.left && k.right) && !(k.up && k.down) && !(k.s && k.w) && !(k.d && k.a)
        && !(k.shift && k.ctrl)
}

/// No counter of the pose stands at either end of the range of `i64`.
pub open spec fn away_from_limits(p: Pose) -> bool {
    &&& i64::MIN < p.theta_x < i64::MAX
    &&& i64::MIN < p.theta_y < i64::MAX
    &&& i64::MIN < p.theta_z < i64::MAX
    &&& i64::MIN < p.move_x < i64::MAX
    &&& i64::MIN < p.move_y < i64::MAX
    &&& i64::MIN < p.move_z < i64::MAX
}

/// A frame with no key held leaves the pose as it was.
pub proof fn lemma_idle_frame_keeps_pose(p: Pose)
    ensures
        moved(p, no_keys()) == p,
{
}

/// A frame with the opposite keys undoes a frame of steering, when no two
/// opposed keys were held together and no counter stood at a limit of its
/// range.
pub proof fn lemma_opposite_keys_undo(p: Pose, k: Keys)
    requires
        no_conflict(k),
        away_from_limits(p),
    ensures
        moved(moved(p, k), opposite_keys(k)) == p,
{
}

/// How a triangle is drawn.
#[derive(Clone, Copy, Debug, PartialEq, Eq, Structural)]
pub enum Shading {
    /// Not drawn: it faces away from the viewer.
    Hidden,
    /// Drawn and lit with its normal as it is.
    Lit,
    /// Drawn and lit with its normal turned round.
    LitFlipped,
}

/// The shading that the renderer picks for a triangle, from the sign of the
/// dot product of its normal with the direction from the viewer:
/// `nonpositive` tells that the product is `<= 0`, `positive` that it is
/// `> 0` (both are false when it is not a number). With reverse lighting
/// every triangle is drawn, and one that faces away is lit from behind.
pub open spec fn shading_for(nonpositive: bool, positive: bool, reverse_lighting: bool) -> Shading {
    if nonpositive || reverse_lighting {
        if reverse_lighting && positive {
            Shading::LitFlipped
        } else {
            Shading::Lit
        }
    } else {
        Shading::Hidden
    }
}

/// Picks how to draw a triangle; see `shading_for`.
pub fn shade(nonpositive: bool, positive: bool, reverse_lighting: bool) -> (s: Shading)
    ensures
        s == shading_for(nonpositive, positive, reverse_lighting),
        !reverse_lighting ==> s != Shading::LitFlipped,
        reverse_lighting ==> s != Shading::Hidden,
{
    if nonpositive || reverse_lighting {
        if reverse_lighting && positive {
            Shading::LitFlipped
        } else {
            Shading::Lit
        }
    } else {
        Shading::Hidden
    }
}

} // verus!
