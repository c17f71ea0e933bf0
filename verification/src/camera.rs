//! Follow camera: each frame, place the camera at a fixed offset behind and
//! above the tracked entity and aim it at that entity.
//!
//! The backward offset runs along the target's own forward axis, so the
//! camera swings with the character as it turns; the transform is recomputed
//! fresh each frame with no smoothing or damping. When no target is
//! available the update is skipped and the camera holds its last transform.
//! The caller must run locomotion first, so the camera reads the frame's
//! committed target transform.

use vstd::prelude::*;
use crate::geom::{Coord, Vec3, vec_in_range, vec3_sub_spec, vec3_zero, POS_LIMIT};
use crate::motion::{Transform, is_facing, dir_vec};

verus! {

/// Height of the camera above the target, in thousandths of a unit.
pub const CAM_UP_MILLI: i64 = 200_000;

/// Distance of the camera behind the target along the target's forward
/// axis, in thousandths of a unit.
pub const CAM_BACK_MILLI: i64 = 300_000;

/// The camera position for a given target: the target position pushed back
/// `CAM_BACK_MILLI` along the target's forward axis on the ground plane,
/// with the height replaced by the target's height plus `CAM_UP_MILLI`.
pub open spec fn follow_pos(target: Transform) -> Vec3 {
    Vec3 {
        x: Coord {
            whole: (target.pos.x.whole - CAM_BACK_MILLI * target.fwd.x.whole) as i64,
            diag: (target.pos.x.diag - CAM_BACK_MILLI * target.fwd.x.diag) as i64,
        },
        y: Coord { whole: (target.pos.y.whole + CAM_UP_MILLI) as i64, diag: target.pos.y.diag },
        z: Coord {
            whole: (target.pos.z.whole - CAM_BACK_MILLI * target.fwd.z.whole) as i64,
            diag: (target.pos.z.diag - CAM_BACK_MILLI * target.fwd.z.diag) as i64,
        },
    }
}

/// The whole camera transform for a given target: positioned by
/// `follow_pos` and aimed at the target, its forward axis being exactly the
/// vector from the camera to the target position.
pub open spec fn follow_post(target: Transform) -> Transform {
    let p = follow_pos(target);
    Transform { pos: p, fwd: vec3_sub_spec(target.pos, p) }
}

/// One follow-camera update. With a target present the camera transform is
/// recomputed from scratch; with none the update is skipped entirely and
/// the camera keeps its last transform.
pub fn follow_update(cam: &mut Transform, target: Option<&Transform>)
    requires
        (match target {
            Some(t) => vec_in_range(t.pos) && is_facing(t.fwd),
            None => true,
        }),
    ensures
        (match target {
            Some(t) => *final(cam) == follow_post(*t),
            None => *final(cam) == *old(cam),
        }),
{
    match target {
        None => {},
        Some(t) => {
            proof {
                lemma_facing_components_small(t.fwd);
            }
            let pos = Vec3 {
                x: Coord {
                    whole: t.pos.x.whole - CAM_BACK_MILLI * t.fwd.x.whole,
                    diag: t.pos.x.diag - CAM_BACK_MILLI * t.fwd.x.diag,
                },
                y: Coord { whole: t.pos.y.whole + CAM_UP_MILLI, diag: t.pos.y.diag },
                z: Coord {
                    whole: t.pos.z.whole - CAM_BACK_MILLI * t.fwd.z.whole,
                    diag: t.pos.z.diag - CAM_BACK_MILLI * t.fwd.z.diag,
                },
            };
            let fwd = Vec3 {
                x: Coord { whole: t.pos.x.whole - pos.x.whole, diag: t.pos.x.diag - pos.x.diag },
                y: Coord { whole: t.pos.y.whole - pos.y.whole, diag: t.pos.y.diag - pos.y.diag },
                z: Coord { whole: t.pos.z.whole - pos.z.whole, diag: t.pos.z.diag - pos.z.diag },
            };
            cam.pos = pos;
            cam.fwd = fwd;
        },
    }
}

/// A legal facing has all coefficients in `-1 ..= 1`.
proof fn lemma_facing_components_small(f: Vec3)
    requires
        is_facing(f),
    ensures
        -1 <= f.x.whole <= 1,
        -1 <= f.x.diag <= 1,
        f.y.whole == 0,
        f.y.diag == 0,
        -1 <= f.z.whole <= 1,
        -1 <= f.z.diag <= 1,
{
    let (dx, dz) = choose|dx: int, dz: int|
        -1 <= dx <= 1 && -1 <= dz <= 1 && !(dx == 0 && dz == 0) && f == dir_vec(dx, dz);
}

/// Look-at invariant: after an update with a target in range, the camera's
/// forward axis points exactly at the target's position - it equals the
/// difference `target - camera` - and the configuration is never
/// degenerate: the camera sits strictly above the target's height, so the
/// two positions cannot coincide and the forward axis cannot be zero.
pub proof fn lemma_follow_looks_at_target(target: Transform)
    requires
        vec_in_range(target.pos),
        is_facing(target.fwd),
    ensures
        follow_post(target).fwd == vec3_sub_spec(target.pos, follow_post(target).pos),
        follow_post(target).fwd.y.whole == -CAM_UP_MILLI,
        follow_post(target).fwd != vec3_zero(),
        follow_post(target).pos != target.pos,
{
    lemma_facing_components_small(target.fwd);
}

} // verus!
