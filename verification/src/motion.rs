//! Locomotion: convert held directional keys into translation and facing.
//!
//! The four keys contribute `-1`/`+1` to the two ground axes and are summed,
//! so opposite keys cancel and orthogonal keys combine. A nonzero sum is
//! normalized before scaling, which makes diagonal movement exactly as fast
//! as axis-aligned movement; the normalized diagonal components
//! `sqrt(2)/2` are exact in this crate's coordinates. Movement is pure
//! kinematic integration: no collision, no acceleration curve, no ground
//! clamping.

use vstd::prelude::*;
use crate::geom::{
    Coord, Vec3, coord_zero, vec_in_range, vec3_sub_spec, norm_sq2_rat, norm_sq2_irr, is_unit,
    POS_LIMIT,
};

verus! {

/// Largest speed accepted by the locomotion step, in world units per second.
pub const SPEED_LIMIT: i64 = 1_000_000;

/// Largest frame time accepted, in milliseconds (one day).
pub const DT_LIMIT_MS: u32 = 86_400_000;

/// Largest displacement one step can produce along an axis, in thousandths
/// of a unit: `SPEED_LIMIT * DT_LIMIT_MS`.
pub const MOVE_MAX: i64 = 86_400_000_000_000;

/// Which directional keys are held this frame (level-triggered).
#[derive(Clone, Copy, PartialEq, Eq, Debug)]
pub struct MoveInput {
    /// W: toward negative `z`.
    pub forward: bool,
    /// S: toward positive `z`.
    pub back: bool,
    /// A: toward negative `x`.
    pub left: bool,
    /// D: toward positive `x`.
    pub right: bool,
}

/// Position and orientation of an entity. Orientation is modeled by the
/// forward axis the entity looks along; roll is fixed by the world-up
/// convention and belongs to the renderer.
#[derive(Clone, Copy, PartialEq, Eq, Debug)]
pub struct Transform {
    pub pos: Vec3,
    pub fwd: Vec3,
}

/// Net `x`-axis contribution of the held keys: `-1`, `0` or `1`.
pub open spec fn net_x(inp: MoveInput) -> int {
    (if inp.right { 1int } else { 0int }) - (if inp.left { 1int } else { 0int })
}

/// Net `z`-axis contribution of the held keys: `-1`, `0` or `1`.
pub open spec fn net_z(inp: MoveInput) -> int {
    (if inp.back { 1int } else { 0int }) - (if inp.forward { 1int } else { 0int })
}

/// The held keys cancel out: no translation, facing kept.
pub open spec fn is_idle(inp: MoveInput) -> bool {
    net_x(inp) == 0 && net_z(inp) == 0
}

/// The unit vector obtained by normalizing the nonzero key sum `(dx, dz)`:
/// axis-aligned sums keep their `-1`/`1` component, diagonal sums scale
/// both components to `sqrt(2)/2` magnitude.
pub open spec fn dir_vec(dx: int, dz: int) -> Vec3 {
    if dx != 0 && dz != 0 {
        Vec3 {
            x: Coord { whole: 0, diag: dx as i64 },
            y: coord_zero(),
            z: Coord { whole: 0, diag: dz as i64 },
        }
    } else {
        Vec3 {
            x: Coord { whole: dx as i64, diag: 0 },
            y: coord_zero(),
            z: Coord { whole: dz as i64, diag: 0 },
        }
    }
}

/// `f` is one of the eight horizontal unit directions a moving character
/// can face.
pub open spec fn is_facing(f: Vec3) -> bool {
    exists|dx: int, dz: int|
        -1 <= dx <= 1 && -1 <= dz <= 1 && !(dx == 0 && dz == 0) && f == dir_vec(dx, dz)
}

/// `pos` translated by `m` thousandths of a unit along the normalized
/// direction of the key sum `(dx, dz)`.
pub open spec fn moved_pos(pos: Vec3, dx: int, dz: int, m: int) -> Vec3 {
    if dx == 0 && dz == 0 {
        pos
    } else if dx != 0 && dz != 0 {
        Vec3 {
            x: Coord { whole: pos.x.whole, diag: (pos.x.diag + dx * m) as i64 },
            y: pos.y,
            z: Coord { whole: pos.z.whole, diag: (pos.z.diag + dz * m) as i64 },
        }
    } else {
        Vec3 {
            x: Coord { whole: (pos.x.whole + dx * m) as i64, diag: pos.x.diag },
            y: pos.y,
            z: Coord { whole: (pos.z.whole + dz * m) as i64, diag: pos.z.diag },
        }
    }
}

/// The transform after one locomotion step with displacement magnitude `m`:
/// translate along the normalized key sum and face the movement direction;
/// when the keys cancel, both position and facing are left unchanged.
pub open spec fn step_post(t: Transform, inp: MoveInput, m: int) -> Transform {
    let dx = net_x(inp);
    let dz = net_z(inp);
    Transform {
        pos: moved_pos(t.pos, dx, dz, m),
        fwd: if dx == 0 && dz == 0 {
            t.fwd
        } else {
            dir_vec(dx, dz)
        },
    }
}

/// One locomotion step: integrate the held keys over `dt_ms` milliseconds
/// at `speed` world units per second.
pub fn step(t: &mut Transform, inp: &MoveInput, speed: i64, dt_ms: u32)
    requires
        vec_in_range(old(t).pos),
        -SPEED_LIMIT <= speed <= SPEED_LIMIT,
        dt_ms <= DT_LIMIT_MS,
    ensures
        *final(t) == step_post(*old(t), *inp, speed * dt_ms),
{
    proof {
        lemma_displacement_bounded(speed as int, dt_ms as int);
    }
    let m: i64 = speed * (dt_ms as i64);
    let dx: i64 = (if inp.right { 1i64 } else { 0i64 }) - (if inp.left { 1i64 } else { 0i64 });
    let dz: i64 = (if inp.back { 1i64 } else { 0i64 }) - (if inp.forward { 1i64 } else { 0i64 });
    let sx: i64 = if dx == 1 { m } else if dx == -1 { -m } else { 0 };
    let sz: i64 = if dz == 1 { m } else if dz == -1 { -m } else { 0 };
    proof {
        lemma_sign_scale(dx as int, m as int);
        lemma_sign_scale(dz as int, m as int);
        assert(dx as int == net_x(*inp));
        assert(dz as int == net_z(*inp));
        assert(sx as int == net_x(*inp) * m);
        assert(sz as int == net_z(*inp) * m);
    }
    if dx == 0 && dz == 0 {
        // Opposite keys cancel: idle, keep the last facing.
    } else if dx != 0 && dz != 0 {
        t.pos.x.diag = t.pos.x.diag + sx;
        t.pos.z.diag = t.pos.z.diag + sz;
        t.fwd = Vec3 {
            x: Coord { whole: 0, diag: dx },
            y: Coord { whole: 0, diag: 0 },
            z: Coord { whole: 0, diag: dz },
        };
    } else {
        t.pos.x.whole = t.pos.x.whole + sx;
        t.pos.z.whole = t.pos.z.whole + sz;
        t.fwd = Vec3 {
            x: Coord { whole: dx, diag: 0 },
            y: Coord { whole: 0, diag: 0 },
            z: Coord { whole: dz, diag: 0 },
        };
    }
}

/// Twice the squared length of a purely diagonal ground vector
/// `(a, 0, b) * sqrt(2)/2` is `a*a + b*b`, with no irrational part.
proof fn lemma_pure_diag_norm(d: Vec3, a: int, b: int)
    by (nonlinear_arith)
    requires
        d.x.whole == 0,
        d.x.diag == a,
        d.y.whole == 0,
        d.y.diag == 0,
        d.z.whole == 0,
        d.z.diag == b,
    ensures
        norm_sq2_rat(d) == a * a + b * b,
        norm_sq2_irr(d) == 0,
{
}

/// A key-sum component only selects or negates the displacement magnitude.
proof fn lemma_sign_scale(d: int, m: int)
    by (nonlinear_arith)
    requires
        -1 <= d <= 1,
    ensures
        d * m == (if d == 1 { m } else if d == -1 { -m } else { 0 }),
{
}

/// The displacement magnitude of one step fits the declared headroom.
pub proof fn lemma_displacement_bounded(speed: int, dt_ms: int)
    by (nonlinear_arith)
    requires
        -SPEED_LIMIT <= speed <= SPEED_LIMIT,
        0 <= dt_ms <= DT_LIMIT_MS,
    ensures
        -MOVE_MAX <= speed * dt_ms <= MOVE_MAX,
{
}

/// Every direction a moving character can face is a unit vector: the
/// normalization of a nonzero key sum has length exactly one before it is
/// scaled by speed, for axis-aligned and diagonal combinations alike.
pub proof fn lemma_move_direction_unit(f: Vec3)
    requires
        is_facing(f),
    ensures
        is_unit(f),
{
    let (dx, dz) = choose|dx: int, dz: int|
        -1 <= dx <= 1 && -1 <= dz <= 1 && !(dx == 0 && dz == 0) && f == dir_vec(dx, dz);
    assert(norm_sq2_rat(f) == 2 && norm_sq2_irr(f) == 0) by (nonlinear_arith)
        requires
            -1 <= dx <= 1 && -1 <= dz <= 1 && !(dx == 0 && dz == 0) && f == dir_vec(dx, dz);
}

/// For every held-key combination whose axes do not cancel, the movement
/// direction the step scales by speed is exactly a unit vector.
pub proof fn lemma_active_input_direction_unit(inp: MoveInput)
    requires
        !is_idle(inp),
    ensures
        is_unit(dir_vec(net_x(inp), net_z(inp))),
{
    assert(is_facing(dir_vec(net_x(inp), net_z(inp))));
    lemma_move_direction_unit(dir_vec(net_x(inp), net_z(inp)));
}

/// Held keys that cancel out pairwise (forward with back, left with right)
/// leave the step without effect: the position and the orientation are both
/// unchanged.
pub proof fn lemma_opposite_keys_idle(t: Transform, inp: MoveInput, m: int)
    requires
        inp.forward == inp.back,
        inp.left == inp.right,
    ensures
        step_post(t, inp, m) == t,
{
}

/// A step from within the play area stays inside the geometric range, and
/// a character that was facing a legal direction still is.
pub proof fn lemma_step_stays_in_range(t: Transform, inp: MoveInput, m: int)
    requires
        -MOVE_MAX <= m <= MOVE_MAX,
        -(POS_LIMIT - MOVE_MAX) <= t.pos.x.whole <= POS_LIMIT - MOVE_MAX,
        -(POS_LIMIT - MOVE_MAX) <= t.pos.x.diag <= POS_LIMIT - MOVE_MAX,
        -(POS_LIMIT - MOVE_MAX) <= t.pos.y.whole <= POS_LIMIT - MOVE_MAX,
        -(POS_LIMIT - MOVE_MAX) <= t.pos.y.diag <= POS_LIMIT - MOVE_MAX,
        -(POS_LIMIT - MOVE_MAX) <= t.pos.z.whole <= POS_LIMIT - MOVE_MAX,
        -(POS_LIMIT - MOVE_MAX) <= t.pos.z.diag <= POS_LIMIT - MOVE_MAX,
        is_facing(t.fwd),
    ensures
        vec_in_range(step_post(t, inp, m).pos),
        is_facing(step_post(t, inp, m).fwd),
{
    let dx = net_x(inp);
    let dz = net_z(inp);
    assert(-MOVE_MAX <= dx * m <= MOVE_MAX) by (nonlinear_arith)
        requires
            -1 <= dx <= 1 && -MOVE_MAX <= m <= MOVE_MAX;
    assert(-MOVE_MAX <= dz * m <= MOVE_MAX) by (nonlinear_arith)
        requires
            -1 <= dz <= 1 && -MOVE_MAX <= m <= MOVE_MAX;
    if !(dx == 0 && dz == 0) {
        assert(step_post(t, inp, m).fwd == dir_vec(dx, dz));
    }
}

/// Scenario: holding only the forward key for one second at five units per
/// second moves the character five units along negative `z` and turns it to
/// face that way; a character already facing negative `z` keeps its
/// orientation, and no other component of the transform moves.
pub proof fn lemma_forward_run_scenario(t: Transform)
    requires
        vec_in_range(t.pos),
    ensures
        ({
            let inp = (MoveInput { forward: true, back: false, left: false, right: false });
            let post = step_post(t, inp, 5000);
            &&& post.pos.z.whole == t.pos.z.whole - 5000
            &&& post.pos.z.diag == t.pos.z.diag
            &&& post.pos.x == t.pos.x
            &&& post.pos.y == t.pos.y
            &&& post.fwd == dir_vec(0, -1)
            &&& (t.fwd == dir_vec(0, -1) ==> post.fwd == t.fwd)
        }),
{
}

/// Scenario: holding forward and left together for one second at five units
/// per second displaces the character by exactly five units, not five times
/// `sqrt(2)`, and the displacement bisects the negative `z` and negative `x`
/// axes: both ground components are equal and the height does not change.
pub proof fn lemma_diagonal_run_scenario(t: Transform)
    requires
        vec_in_range(t.pos),
    ensures
        ({
            let inp = (MoveInput { forward: true, back: false, left: true, right: false });
            let post = step_post(t, inp, 5000);
            let d = vec3_sub_spec(post.pos, t.pos);
            &&& norm_sq2_rat(d) == 2 * 5000 * 5000
            &&& norm_sq2_irr(d) == 0
            &&& d.x == d.z
            &&& d.x == (Coord { whole: 0, diag: -5000i64 })
            &&& d.y == coord_zero()
        }),
{
    let inp = MoveInput { forward: true, back: false, left: true, right: false };
    let post = step_post(t, inp, 5000);
    let d = vec3_sub_spec(post.pos, t.pos);
    assert(net_x(inp) == -1 && net_z(inp) == -1);
    assert(post.pos.x.diag == t.pos.x.diag - 5000);
    assert(post.pos.z.diag == t.pos.z.diag - 5000);
    let dd = Vec3 {
        x: Coord { whole: 0i64, diag: -5000i64 },
        y: coord_zero(),
        z: Coord { whole: 0i64, diag: -5000i64 },
    };
    assert(d == dd);
    lemma_pure_diag_norm(dd, -5000, -5000);
    assert(norm_sq2_rat(dd) == 2 * 5000 * 5000);
    assert(norm_sq2_irr(dd) == 0);
}

} // verus!
