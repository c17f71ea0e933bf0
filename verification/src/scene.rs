//! The demo scene: one character, one trailing camera, one animation
//! controller over a fixed clip set, advanced explicitly once per frame by
//! the host loop.
//!
//! Within a frame the ordering is a hard dependency, not a scheduling
//! accident: locomotion commits the character's new transform strictly
//! before the camera reads it. Animation control is independent of both
//! and runs last here. Input is taken as plain per-frame snapshots: held
//! directional keys for movement (level-triggered) and just-pressed keys
//! for animation commands (edge-triggered).

use vstd::prelude::*;
use crate::anim::{
    AnimationController, AnimationSet, KeyEvents, TransitionRequest, keys_rel, players_headroom,
};
use crate::camera::{follow_update, follow_post};
use crate::geom::{Coord, Vec3, vec3_zero, POS_LIMIT};
use crate::motion::{
    MoveInput, Transform, step, step_post, is_facing, dir_vec, lemma_displacement_bounded,
    lemma_step_stays_in_range, SPEED_LIMIT, DT_LIMIT_MS, MOVE_MAX,
};

verus! {

/// Movement speed of the character, in world units per second; constant
/// after creation.
pub const DEFAULT_MOVE_SPEED: i64 = 5;

/// The whole demo state.
pub struct Scene {
    pub anim: AnimationController,
    pub character: Transform,
    pub camera: Transform,
    /// Constant movement speed attached to the character.
    pub move_speed: i64,
}

impl Scene {
    /// Validity: a well-formed controller, a character facing one of the
    /// eight legal directions, and a speed inside the locomotion bound.
    pub open spec fn wf(&self) -> bool {
        &&& self.anim.wf()
        &&& is_facing(self.character.fwd)
        &&& -SPEED_LIMIT <= self.move_speed <= SPEED_LIMIT
    }

    /// The character is far enough inside the coordinate range that one
    /// frame of movement cannot leave it.
    pub open spec fn in_play(&self) -> bool {
        &&& -(POS_LIMIT - MOVE_MAX) <= self.character.pos.x.whole <= POS_LIMIT - MOVE_MAX
        &&& -(POS_LIMIT - MOVE_MAX) <= self.character.pos.x.diag <= POS_LIMIT - MOVE_MAX
        &&& -(POS_LIMIT - MOVE_MAX) <= self.character.pos.y.whole <= POS_LIMIT - MOVE_MAX
        &&& -(POS_LIMIT - MOVE_MAX) <= self.character.pos.y.diag <= POS_LIMIT - MOVE_MAX
        &&& -(POS_LIMIT - MOVE_MAX) <= self.character.pos.z.whole <= POS_LIMIT - MOVE_MAX
        &&& -(POS_LIMIT - MOVE_MAX) <= self.character.pos.z.diag <= POS_LIMIT - MOVE_MAX
    }

    /// The startup scene over a non-empty clip registry: the character at
    /// the origin facing positive `z`, the camera already in its follow
    /// position behind and above, aimed at the character, and no players
    /// registered yet.
    pub fn new(clip_handles: Vec<u64>) -> (r: Scene)
        requires
            clip_handles@.len() > 0,
        ensures
            r.wf(),
            r.in_play(),
            r.anim.set.handles == clip_handles,
            r.anim.current == 0usize,
            r.anim.players@.len() == 0,
            r.move_speed == DEFAULT_MOVE_SPEED,
            r.character.pos == vec3_zero(),
            r.character.fwd == dir_vec(0, 1),
            r.camera == follow_post(r.character),
    {
        let anim = AnimationController::new(AnimationSet { handles: clip_handles });
        let character = Transform {
            pos: Vec3 {
                x: Coord { whole: 0, diag: 0 },
                y: Coord { whole: 0, diag: 0 },
                z: Coord { whole: 0, diag: 0 },
            },
            fwd: Vec3 {
                x: Coord { whole: 0, diag: 0 },
                y: Coord { whole: 0, diag: 0 },
                z: Coord { whole: 1, diag: 0 },
            },
        };
        proof {
            assert(character.fwd == dir_vec(0, 1));
        }
        let mut camera = character;
        follow_update(&mut camera, Some(&character));
        Scene { anim, character, camera, move_speed: DEFAULT_MOVE_SPEED }
    }

    /// One frame: integrate movement first, then recompute the camera
    /// from the committed character transform, then apply the animation
    /// keys. Returns the transition requests for the playback engine.
    pub fn frame(&mut self, held: &MoveInput, keys: &KeyEvents, dt_ms: u32) -> (reqs: Vec<
        TransitionRequest,
    >)
        requires
            old(self).wf(),
            old(self).in_play(),
            players_headroom(old(self).anim.players@),
            dt_ms <= DT_LIMIT_MS,
        ensures
            final(self).wf(),
            final(self).move_speed == old(self).move_speed,
            final(self).character == step_post(
                old(self).character,
                *held,
                old(self).move_speed * dt_ms,
            ),
            final(self).camera == follow_post(final(self).character),
            keys_rel(old(self).anim, final(self).anim, *keys, reqs@),
    {
        step(&mut self.character, held, self.move_speed, dt_ms);
        proof {
            lemma_displacement_bounded(old(self).move_speed as int, dt_ms as int);
            lemma_step_stays_in_range(
                old(self).character,
                *held,
                old(self).move_speed * dt_ms,
            );
        }
        follow_update(&mut self.camera, Some(&self.character));
        self.anim.handle_keys(keys)
    }
}

} // verus!
