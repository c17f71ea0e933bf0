//! Animation controller: translate discrete key presses into playback-state
//! transitions for every registered animation player, and start the default
//! clip when a player first appears.
//!
//! Playback state is modeled exactly: elapsed time in milliseconds (it may
//! go negative or past the clip length; the playback engine clamps or
//! wraps), and the speed multiplier as a rational number, so repeated
//! speed adjustments stay multiplicative with no rounding. Speed has no
//! upper or lower clamp: unbounded growth or decay under repeated
//! adjustment is accepted behavior. Starting or switching clips is
//! reported to the caller as transition requests; the engine owns blend
//! weights and clip-instance lifecycle, this controller only initiates
//! transitions. Every operation silently skips players that have no
//! active clip: that is the only anomaly this controller can meet, and it
//! is never an error.

use vstd::prelude::*;
use vstd::arithmetic::div_mod::{lemma_small_mod, lemma_add_mod_noop_right, lemma_mod_add_multiples_vanish};

verus! {

/// Crossfade duration used when cycling to the next clip, in milliseconds.
pub const CROSSFADE_MS: u32 = 250;

/// Seek step for one left/right key press, in milliseconds.
pub const SEEK_STEP_MS: i64 = 100;

/// Speed-up factor for one up-arrow press: 6/5, that is times 1.2.
pub const SPEED_UP_NUM: i64 = 6;
pub const SPEED_UP_DEN: i64 = 5;

/// Slow-down factor for one down-arrow press: 4/5, that is times 0.8.
pub const SLOW_DOWN_NUM: i64 = 4;
pub const SLOW_DOWN_DEN: i64 = 5;

/// Headroom bound on playback-state numbers: any state within it survives
/// one frame of key handling without leaving `i64`.
pub const HEADROOM: i64 = 72_057_594_037_927_936;

/// Playback speed multiplier as an exact rational `num / den`, `den > 0`.
/// The default is one; defined inputs only multiply it by positive
/// factors, so it can reach zero or a negative value only through a
/// negative factor.
#[derive(Clone, Copy, PartialEq, Eq, Debug)]
pub struct Speed {
    pub num: i64,
    pub den: i64,
}

/// Two rational speeds denote the same multiplier.
pub open spec fn speed_eq(a: Speed, b: Speed) -> bool {
    a.num * b.den == b.num * a.den
}

/// Rule governing clip looping: play once, play exactly `n` times, or
/// loop forever.
#[derive(Clone, Copy, PartialEq, Eq, Debug)]
pub enum RepeatMode {
    Once,
    Count(u32),
    Forever,
}

/// The state of the clip instance a player is currently showing.
#[derive(Clone, Copy, PartialEq, Eq, Debug)]
pub struct ClipInstance {
    /// Index of the clip in the animation set.
    pub clip: usize,
    pub paused: bool,
    pub speed: Speed,
    /// Elapsed seek time; out-of-range values are clamped or wrapped by
    /// the playback engine, never validated here.
    pub elapsed_ms: i64,
    pub repeat: RepeatMode,
}

/// Per-entity playback tracking: the entity's id and its active clip
/// instance, if any clip is active at all.
#[derive(Clone, Copy, PartialEq, Eq, Debug)]
pub struct PlayerSlot {
    pub entity: u64,
    pub active: Option<ClipInstance>,
}

/// A request for the playback engine: start `handle` on `entity`, blended
/// over `blend_ms` milliseconds. Blend weighting itself belongs to the
/// engine.
#[derive(Clone, Copy, PartialEq, Eq, Debug)]
pub struct TransitionRequest {
    pub entity: u64,
    pub handle: u64,
    pub blend_ms: u32,
}

/// The ordered, non-empty registry of loadable clips, fixed at startup.
/// Handles are opaque engine identifiers; index 0 is the startup clip.
#[derive(Clone, PartialEq, Eq, Debug)]
pub struct AnimationSet {
    pub handles: Vec<u64>,
}

/// Keys relevant to animation control that were pressed this frame
/// (edge-triggered).
#[derive(Clone, Copy, PartialEq, Eq, Debug)]
pub struct KeyEvents {
    /// Space: toggle pause.
    pub space: bool,
    /// Arrow up: speed up by 6/5.
    pub up: bool,
    /// Arrow down: slow down by 4/5.
    pub down: bool,
    /// Arrow left: seek backward one step.
    pub left: bool,
    /// Arrow right: seek forward one step.
    pub right: bool,
    /// Enter: cycle to the next clip with a crossfade.
    pub enter: bool,
    /// Digit 1: replay with repeat count 1.
    pub digit1: bool,
    /// Digit 3: replay with repeat count 3.
    pub digit3: bool,
    /// Digit 5: replay with repeat count 5.
    pub digit5: bool,
    /// L: loop the clip forever.
    pub key_l: bool,
}

// --- Pure transformers on clip instances -------------------------------

/// A fresh instance of clip `clip`: playing from time zero at default
/// speed, looping forever.
pub open spec fn clip_fresh(clip: usize) -> ClipInstance {
    ClipInstance {
        clip,
        paused: false,
        speed: Speed { num: 1, den: 1 },
        elapsed_ms: 0,
        repeat: RepeatMode::Forever,
    }
}

/// Pause flipped, everything else kept.
pub open spec fn clip_toggled(c: ClipInstance) -> ClipInstance {
    ClipInstance { paused: !c.paused, ..c }
}

/// Speed multiplied by `f_num / f_den`, everything else kept.
pub open spec fn clip_adjusted(c: ClipInstance, f_num: i64, f_den: i64) -> ClipInstance {
    ClipInstance {
        speed: Speed {
            num: (c.speed.num * f_num) as i64,
            den: (c.speed.den * f_den) as i64,
        },
        ..c
    }
}

/// Elapsed time shifted by `delta_ms`, everything else kept.
pub open spec fn clip_sought(c: ClipInstance, delta_ms: i64) -> ClipInstance {
    ClipInstance { elapsed_ms: (c.elapsed_ms + delta_ms) as i64, ..c }
}

/// Repeat policy set. A bounded policy (`Once` or `Count`) also replays
/// the clip from time zero and re-enters the playing state, whatever the
/// prior pause state, so the count is observed from the start; `Forever`
/// changes the policy alone.
pub open spec fn clip_with_repeat(c: ClipInstance, mode: RepeatMode) -> ClipInstance {
    match mode {
        RepeatMode::Forever => ClipInstance { repeat: mode, ..c },
        _ => ClipInstance { repeat: mode, elapsed_ms: 0, paused: false, ..c },
    }
}

/// All key-triggered clip operations of one frame, applied in the fixed
/// handling order: pause, speed up, slow down, seek back, seek forward,
/// cycle (which replaces the instance by a fresh one on `new_clip`),
/// replay with count 1, 3, 5, loop forever.
pub open spec fn clip_keyed(c: ClipInstance, k: KeyEvents, new_clip: usize) -> ClipInstance {
    let c1 = if k.space { clip_toggled(c) } else { c };
    let c2 = if k.up { clip_adjusted(c1, SPEED_UP_NUM, SPEED_UP_DEN) } else { c1 };
    let c3 = if k.down { clip_adjusted(c2, SLOW_DOWN_NUM, SLOW_DOWN_DEN) } else { c2 };
    let c4 = if k.left { clip_sought(c3, (-SEEK_STEP_MS) as i64) } else { c3 };
    let c5 = if k.right { clip_sought(c4, SEEK_STEP_MS) } else { c4 };
    let c6 = if k.enter { clip_fresh(new_clip) } else { c5 };
    let c7 = if k.digit1 { clip_with_repeat(c6, RepeatMode::Count(1)) } else { c6 };
    let c8 = if k.digit3 { clip_with_repeat(c7, RepeatMode::Count(3)) } else { c7 };
    let c9 = if k.digit5 { clip_with_repeat(c8, RepeatMode::Count(5)) } else { c8 };
    if k.key_l { clip_with_repeat(c9, RepeatMode::Forever) } else { c9 }
}

// --- Transformers lifted to player slots; a slot without an active clip
// --- is always left untouched.

pub open spec fn slot_toggled(s: PlayerSlot) -> PlayerSlot {
    match s.active {
        Some(c) => PlayerSlot { entity: s.entity, active: Some(clip_toggled(c)) },
        None => s,
    }
}

pub open spec fn slot_adjusted(s: PlayerSlot, f_num: i64, f_den: i64) -> PlayerSlot {
    match s.active {
        Some(c) => PlayerSlot { entity: s.entity, active: Some(clip_adjusted(c, f_num, f_den)) },
        None => s,
    }
}

pub open spec fn slot_sought(s: PlayerSlot, delta_ms: i64) -> PlayerSlot {
    match s.active {
        Some(c) => PlayerSlot { entity: s.entity, active: Some(clip_sought(c, delta_ms)) },
        None => s,
    }
}

pub open spec fn slot_with_repeat(s: PlayerSlot, mode: RepeatMode) -> PlayerSlot {
    match s.active {
        Some(c) => PlayerSlot { entity: s.entity, active: Some(clip_with_repeat(c, mode)) },
        None => s,
    }
}

/// A slot whose clip is replaced by a fresh instance of `new_clip`; a slot
/// with no active clip is skipped, as every operation skips it.
pub open spec fn slot_started(s: PlayerSlot, new_clip: usize) -> PlayerSlot {
    match s.active {
        Some(_) => PlayerSlot { entity: s.entity, active: Some(clip_fresh(new_clip)) },
        None => s,
    }
}

pub open spec fn slot_keyed(s: PlayerSlot, k: KeyEvents, new_clip: usize) -> PlayerSlot {
    match s.active {
        Some(c) => PlayerSlot { entity: s.entity, active: Some(clip_keyed(c, k, new_clip)) },
        None => s,
    }
}

// --- Predicates over the player table -----------------------------------

/// Some registered player has an active clip.
pub open spec fn has_active(players: Seq<PlayerSlot>) -> bool {
    exists|i: int| 0 <= i < players.len() && players[i].active is Some
}

/// A slot for `entity` is registered.
pub open spec fn has_entity(players: Seq<PlayerSlot>, entity: u64) -> bool {
    exists|i: int| 0 <= i < players.len() && players[i].entity == entity
}

/// The transition requests produced when cycling: one per player with an
/// active clip, in table order, all carrying the new clip's `handle` and
/// the crossfade duration.
pub open spec fn cycle_requests(players: Seq<PlayerSlot>, handle: u64) -> Seq<TransitionRequest>
    decreases players.len(),
{
    if players.len() == 0 {
        Seq::empty()
    } else {
        let rest = cycle_requests(players.drop_last(), handle);
        match players.last().active {
            Some(_) => rest.push(
                TransitionRequest { entity: players.last().entity, handle, blend_ms: CROSSFADE_MS },
            ),
            None => rest,
        }
    }
}

/// The slot a newly ready player gets: the startup clip (index 0) playing
/// from time zero with a zero-duration blend, looping forever.
pub open spec fn ready_slot(entity: u64) -> PlayerSlot {
    PlayerSlot { entity, active: Some(clip_fresh(0)) }
}

/// The player table after a player-ready event for `entity`: unchanged if
/// the entity is already tracked, else extended by its startup slot.
pub open spec fn ready_players(players: Seq<PlayerSlot>, entity: u64) -> Seq<PlayerSlot> {
    if has_entity(players, entity) {
        players
    } else {
        players.push(ready_slot(entity))
    }
}

/// Validity of one slot against a set of `n` clips.
pub open spec fn slot_wf(s: PlayerSlot, n: int) -> bool {
    match s.active {
        Some(c) => (c.clip as int) < n && c.speed.den > 0,
        None => true,
    }
}

/// One slot's numbers are inside the per-frame headroom.
pub open spec fn slot_headroom(s: PlayerSlot) -> bool {
    match s.active {
        Some(c) => {
            &&& -HEADROOM <= c.speed.num <= HEADROOM
            &&& 0 < c.speed.den <= HEADROOM
            &&& -HEADROOM <= c.elapsed_ms <= HEADROOM
        },
        None => true,
    }
}

/// Every slot's numbers are inside the per-frame headroom.
pub open spec fn players_headroom(players: Seq<PlayerSlot>) -> bool {
    forall|i: int| 0 <= i < players.len() ==> slot_headroom(#[trigger] players[i])
}

/// The clip index after one cycle command among `n` clips.
pub open spec fn cycled_index(cur: int, n: int) -> int {
    (cur + 1) % n
}

// --- The controller ------------------------------------------------------

/// Mediates playback state for every registered animation player against
/// one fixed animation set, and tracks which clip a cycle command starts
/// next.
#[derive(Clone, PartialEq, Eq, Debug)]
pub struct AnimationController {
    /// The clip registry; immutable after construction.
    pub set: AnimationSet,
    /// Index of the clip most recently started by a cycle command.
    pub current: usize,
    /// One slot per registered animation player.
    pub players: Vec<PlayerSlot>,
}

impl AnimationController {
    /// Structural validity: a non-empty clip set, a current index inside
    /// it, distinct player entities, and well-formed slots.
    pub open spec fn wf(&self) -> bool {
        &&& self.set.handles@.len() > 0
        &&& (self.current as int) < self.set.handles@.len()
        &&& forall|i: int, j: int|
            0 <= i < j < self.players@.len() ==> self.players@[i].entity != self.players@[j].entity
        &&& forall|i: int|
            0 <= i < self.players@.len() ==> slot_wf(
                #[trigger] self.players@[i],
                self.set.handles@.len() as int,
            )
    }

    /// A controller over a non-empty clip set: cycle position at the
    /// startup clip, no players yet.
    pub fn new(set: AnimationSet) -> (r: AnimationController)
        requires
            set.handles@.len() > 0,
        ensures
            r.wf(),
            r.set == set,
            r.current == 0usize,
            r.players@.len() == 0,
    {
        AnimationController { set, current: 0, players: Vec::new() }
    }

    /// Player-ready event, edge-triggered: when `entity`'s animation
    /// player first exists, start the startup clip on it with a
    /// zero-duration blend and a repeat-forever policy, and begin
    /// tracking it. Calling it again for a tracked entity is a no-op, so
    /// the event is idempotent.
    pub fn on_player_ready(&mut self, entity: u64) -> (r: Option<TransitionRequest>)
        requires
            old(self).wf(),
        ensures
            final(self).wf(),
            final(self).set == old(self).set,
            final(self).current == old(self).current,
            final(self).players@ == ready_players(old(self).players@, entity),
            r == (if has_entity(old(self).players@, entity) {
                Option::<TransitionRequest>::None
            } else {
                Option::<TransitionRequest>::Some(
                    (TransitionRequest { entity, handle: old(self).set.handles@[0], blend_ms: 0 }),
                )
            }),
    {
        let n = self.players.len();
        let mut i: usize = 0;
        while i < n
            invariant
                *self == *old(self),
                old(self).wf(),
                n == self.players@.len(),
                0 <= i <= n,
                forall|j: int| 0 <= j < i ==> (#[trigger] self.players@[j]).entity != entity,
            decreases n - i,
        {
            if self.players[i].entity == entity {
                return None;
            }
            i = i + 1;
        }
        let handle = self.set.handles[0];
        self.players.push(PlayerSlot {
            entity,
            active: Some(ClipInstance {
                clip: 0,
                paused: false,
                speed: Speed { num: 1, den: 1 },
                elapsed_ms: 0,
                repeat: RepeatMode::Forever,
            }),
        });
        Some(TransitionRequest { entity, handle, blend_ms: 0 })
    }

    /// Toggle pause: flip paused and playing on every active clip
    /// instance; players without one are skipped.
    pub fn toggle_pause(&mut self)
        requires
            old(self).wf(),
        ensures
            final(self).wf(),
            final(self).set == old(self).set,
            final(self).current == old(self).current,
            final(self).players@.len() == old(self).players@.len(),
            forall|i: int|
                0 <= i < old(self).players@.len() ==> final(self).players@[i] == slot_toggled(
                    #[trigger] old(self).players@[i],
                ),
    {
        let n = self.players.len();
        let mut updated: Vec<PlayerSlot> = Vec::new();
        let mut i: usize = 0;
        while i < n
            invariant
                *self == *old(self),
                n == self.players@.len(),
                0 <= i <= n,
                updated@.len() == i,
                forall|j: int| 0 <= j < i ==> updated@[j] == slot_toggled(#[trigger] self.players@[j]),
            decreases n - i,
        {
            let s = self.players[i];
            match s.active {
                Some(c) => updated.push(PlayerSlot {
                    entity: s.entity,
                    active: Some(ClipInstance { paused: !c.paused, ..c }),
                }),
                None => updated.push(s),
            }
            i = i + 1;
        }
        self.players = updated;
        proof {
            assert forall|ii: int|
                0 <= ii < old(self).players@.len() implies (#[trigger] self.players@[ii]).entity
                == old(self).players@[ii].entity && slot_wf(
                self.players@[ii],
                self.set.handles@.len() as int,
            ) by {
                assert(self.players@[ii] == slot_toggled(old(self).players@[ii]));
                assert(slot_wf(old(self).players@[ii], old(self).set.handles@.len() as int));
            };
            lemma_slotwise_wf(*old(self), *self);
        }
    }

    /// Multiply every active clip's speed by the factor `f_num / f_den`.
    /// There is deliberately no clamp in either direction.
    pub fn adjust_speed(&mut self, f_num: i64, f_den: i64)
        requires
            old(self).wf(),
            f_den > 0,
            forall|i: int|
                0 <= i < old(self).players@.len() ==> slot_speed_fits(
                    #[trigger] old(self).players@[i],
                    f_num,
                    f_den,
                ),
        ensures
            final(self).wf(),
            final(self).set == old(self).set,
            final(self).current == old(self).current,
            final(self).players@.len() == old(self).players@.len(),
            forall|i: int|
                0 <= i < old(self).players@.len() ==> final(self).players@[i] == slot_adjusted(
                    #[trigger] old(self).players@[i],
                    f_num,
                    f_den,
                ),
    {
        let n = self.players.len();
        let mut updated: Vec<PlayerSlot> = Vec::new();
        let mut i: usize = 0;
        while i < n
            invariant
                *self == *old(self),
                old(self).wf(),
                f_den > 0,
                forall|ii: int|
                    0 <= ii < old(self).players@.len() ==> slot_speed_fits(
                        #[trigger] old(self).players@[ii],
                        f_num,
                        f_den,
                    ),
                n == self.players@.len(),
                0 <= i <= n,
                updated@.len() == i,
                forall|j: int|
                    0 <= j < i ==> updated@[j] == slot_adjusted(
                        #[trigger] self.players@[j],
                        f_num,
                        f_den,
                    ),
            decreases n - i,
        {
            let s = self.players[i];
            match s.active {
                Some(c) => {
                    proof {
                        assert(slot_speed_fits(old(self).players@[i as int], f_num, f_den));
                        assert(slot_wf(old(self).players@[i as int], old(self).set.handles@.len() as int));
                        lemma_mul_pos(c.speed.den as int, f_den as int);
                    }
                    updated.push(PlayerSlot {
                        entity: s.entity,
                        active: Some(ClipInstance {
                            speed: Speed { num: c.speed.num * f_num, den: c.speed.den * f_den },
                            ..c
                        }),
                    });
                },
                None => updated.push(s),
            }
            i = i + 1;
        }
        self.players = updated;
        proof {
            assert forall|ii: int|
                0 <= ii < old(self).players@.len() implies (#[trigger] self.players@[ii]).entity
                == old(self).players@[ii].entity && slot_wf(
                self.players@[ii],
                self.set.handles@.len() as int,
            ) by {
                assert(self.players@[ii] == slot_adjusted(old(self).players@[ii], f_num, f_den));
                assert(slot_wf(old(self).players@[ii], old(self).set.handles@.len() as int));
                assert(slot_speed_fits(old(self).players@[ii], f_num, f_den));
                match old(self).players@[ii].active {
                    Some(c) => {
                        lemma_mul_pos(c.speed.den as int, f_den as int);
                    },
                    None => {},
                }
            };
            lemma_slotwise_wf(*old(self), *self);
        }
    }

    /// Shift every active clip's elapsed time by `delta_ms`. Results
    /// outside the clip's duration are the playback engine's business.
    pub fn seek(&mut self, delta_ms: i64)
        requires
            old(self).wf(),
            forall|i: int|
                0 <= i < old(self).players@.len() ==> slot_seek_fits(
                    #[trigger] old(self).players@[i],
                    delta_ms,
                ),
        ensures
            final(self).wf(),
            final(self).set == old(self).set,
            final(self).current == old(self).current,
            final(self).players@.len() == old(self).players@.len(),
            forall|i: int|
                0 <= i < old(self).players@.len() ==> final(self).players@[i] == slot_sought(
                    #[trigger] old(self).players@[i],
                    delta_ms,
                ),
    {
        let n = self.players.len();
        let mut updated: Vec<PlayerSlot> = Vec::new();
        let mut i: usize = 0;
        while i < n
            invariant
                *self == *old(self),
                forall|ii: int|
                    0 <= ii < old(self).players@.len() ==> slot_seek_fits(
                        #[trigger] old(self).players@[ii],
                        delta_ms,
                    ),
                n == self.players@.len(),
                0 <= i <= n,
                updated@.len() == i,
                forall|j: int|
                    0 <= j < i ==> updated@[j] == slot_sought(#[trigger] self.players@[j], delta_ms),
            decreases n - i,
        {
            let s = self.players[i];
            match s.active {
                Some(c) => {
                    proof {
                        assert(slot_seek_fits(old(self).players@[i as int], delta_ms));
                    }
                    updated.push(PlayerSlot {
                        entity: s.entity,
                        active: Some(ClipInstance { elapsed_ms: c.elapsed_ms + delta_ms, ..c }),
                    });
                },
                None => updated.push(s),
            }
            i = i + 1;
        }
        self.players = updated;
        proof {
            assert forall|ii: int|
                0 <= ii < old(self).players@.len() implies (#[trigger] self.players@[ii]).entity
                == old(self).players@[ii].entity && slot_wf(
                self.players@[ii],
                self.set.handles@.len() as int,
            ) by {
                assert(self.players@[ii] == slot_sought(old(self).players@[ii], delta_ms));
                assert(slot_wf(old(self).players@[ii], old(self).set.handles@.len() as int));
            };
            lemma_slotwise_wf(*old(self), *self);
        }
    }

    /// Set the repeat policy on every active clip. A bounded policy also
    /// replays from time zero and re-enters the playing state; `Forever`
    /// leaves elapsed time and pause state alone.
    pub fn set_repeat(&mut self, mode: RepeatMode)
        requires
            old(self).wf(),
        ensures
            final(self).wf(),
            final(self).set == old(self).set,
            final(self).current == old(self).current,
            final(self).players@.len() == old(self).players@.len(),
            forall|i: int|
                0 <= i < old(self).players@.len() ==> final(self).players@[i] == slot_with_repeat(
                    #[trigger] old(self).players@[i],
                    mode,
                ),
    {
        let n = self.players.len();
        let mut updated: Vec<PlayerSlot> = Vec::new();
        let mut i: usize = 0;
        while i < n
            invariant
                *self == *old(self),
                n == self.players@.len(),
                0 <= i <= n,
                updated@.len() == i,
                forall|j: int|
                    0 <= j < i ==> updated@[j] == slot_with_repeat(
                        #[trigger] self.players@[j],
                        mode,
                    ),
            decreases n - i,
        {
            let s = self.players[i];
            match s.active {
                Some(c) => {
                    let changed = match mode {
                        RepeatMode::Forever => ClipInstance { repeat: mode, ..c },
                        _ => ClipInstance { repeat: mode, elapsed_ms: 0, paused: false, ..c },
                    };
                    updated.push(PlayerSlot { entity: s.entity, active: Some(changed) });
                },
                None => updated.push(s),
            }
            i = i + 1;
        }
        self.players = updated;
        proof {
            assert forall|ii: int|
                0 <= ii < old(self).players@.len() implies (#[trigger] self.players@[ii]).entity
                == old(self).players@[ii].entity && slot_wf(
                self.players@[ii],
                self.set.handles@.len() as int,
            ) by {
                assert(self.players@[ii] == slot_with_repeat(old(self).players@[ii], mode));
                assert(slot_wf(old(self).players@[ii], old(self).set.handles@.len() as int));
            };
            lemma_slotwise_wf(*old(self), *self);
        }
    }

    /// Cycle command: if any player has an active clip, advance the cycle
    /// position by one modulo the clip count and start a crossfaded
    /// transition to that clip on every active player, replacing any
    /// transition in flight. With no active player anywhere the command
    /// is a no-op and asks for nothing.
    pub fn cycle_clip(&mut self) -> (reqs: Vec<TransitionRequest>)
        requires
            old(self).wf(),
        ensures
            final(self).wf(),
            final(self).set == old(self).set,
            final(self).current as int == (if has_active(old(self).players@) {
                cycled_index(old(self).current as int, old(self).set.handles@.len() as int)
            } else {
                old(self).current as int
            }),
            final(self).players@.len() == old(self).players@.len(),
            forall|i: int|
                0 <= i < old(self).players@.len() ==> final(self).players@[i] == slot_started(
                    #[trigger] old(self).players@[i],
                    final(self).current,
                ),
            reqs@ == cycle_requests(
                old(self).players@,
                old(self).set.handles@[final(self).current as int],
            ),
    {
        let n = self.players.len();
        let mut any = false;
        let mut i: usize = 0;
        while i < n
            invariant
                *self == *old(self),
                n == self.players@.len(),
                0 <= i <= n,
                any <==> exists|j: int| 0 <= j < i && (#[trigger] self.players@[j]).active is Some,
            decreases n - i,
        {
            match self.players[i].active {
                Some(_) => { any = true; },
                None => {},
            }
            i = i + 1;
        }
        if !any {
            proof {
                lemma_cycle_requests_all_idle(
                    self.players@,
                    self.set.handles@[self.current as int],
                );
            }
            return Vec::new();
        }
        let n_clips = self.set.handles.len();
        self.current = (self.current + 1) % n_clips;
        let handle = self.set.handles[self.current];
        let mut updated: Vec<PlayerSlot> = Vec::new();
        let mut reqs: Vec<TransitionRequest> = Vec::new();
        let mut i: usize = 0;
        while i < n
            invariant
                self.set == old(self).set,
                self.players == old(self).players,
                n == self.players@.len(),
                (self.current as int) < self.set.handles@.len(),
                handle == self.set.handles@[self.current as int],
                0 <= i <= n,
                updated@.len() == i,
                forall|j: int|
                    0 <= j < i ==> updated@[j] == slot_started(
                        #[trigger] self.players@[j],
                        self.current,
                    ),
                reqs@ == cycle_requests(self.players@.take(i as int), handle),
            decreases n - i,
        {
            let s = self.players[i];
            proof {
                assert(self.players@.take((i + 1) as int).drop_last() =~= self.players@.take(
                    i as int,
                ));
                assert(self.players@.take((i + 1) as int).last() == self.players@[i as int]);
            }
            match s.active {
                Some(_) => {
                    updated.push(PlayerSlot {
                        entity: s.entity,
                        active: Some(ClipInstance {
                            clip: self.current,
                            paused: false,
                            speed: Speed { num: 1, den: 1 },
                            elapsed_ms: 0,
                            repeat: RepeatMode::Forever,
                        }),
                    });
                    reqs.push(TransitionRequest {
                        entity: s.entity,
                        handle,
                        blend_ms: CROSSFADE_MS,
                    });
                },
                None => updated.push(s),
            }
            i = i + 1;
        }
        proof {
            assert(self.players@.take(n as int) =~= self.players@);
        }
        self.players = updated;
        proof {
            assert forall|ii: int|
                0 <= ii < old(self).players@.len() implies (#[trigger] self.players@[ii]).entity
                == old(self).players@[ii].entity && slot_wf(
                self.players@[ii],
                self.set.handles@.len() as int,
            ) by {
                assert(self.players@[ii] == slot_started(old(self).players@[ii], self.current));
                assert(slot_wf(old(self).players@[ii], old(self).set.handles@.len() as int));
            };
            lemma_slotwise_wf(*old(self), *self);
        }
        reqs
    }
}

/// Full relation of one frame of key handling: how the controller after
/// the frame and the transition requests it emits follow from the
/// controller before it and the keys pressed.
pub open spec fn keys_rel(
    pre: AnimationController,
    post: AnimationController,
    k: KeyEvents,
    reqs: Seq<TransitionRequest>,
) -> bool {
    let cycled = k.enter && has_active(pre.players@);
    let new_idx: int = if cycled {
        cycled_index(pre.current as int, pre.set.handles@.len() as int)
    } else {
        pre.current as int
    };
    &&& post.set == pre.set
    &&& post.current as int == new_idx
    &&& post.players@.len() == pre.players@.len()
    &&& forall|i: int|
        0 <= i < pre.players@.len() ==> post.players@[i] == slot_keyed(
            #[trigger] pre.players@[i],
            k,
            post.current,
        )
    &&& reqs == (if k.enter {
        cycle_requests(pre.players@, pre.set.handles@[new_idx])
    } else {
        Seq::<TransitionRequest>::empty()
    })
}

impl AnimationController {
    /// One frame of keyboard animation control: apply every key pressed
    /// this frame, in the fixed handling order, to each player's active
    /// clip; players with no active clip are skipped throughout. Returns
    /// the transition requests a cycle key asks of the playback engine.
    pub fn handle_keys(&mut self, k: &KeyEvents) -> (reqs: Vec<TransitionRequest>)
        requires
            old(self).wf(),
            players_headroom(old(self).players@),
        ensures
            final(self).wf(),
            keys_rel(*old(self), *final(self), *k, reqs@),
    {
        let n = self.players.len();
        let mut any = false;
        let mut i: usize = 0;
        while i < n
            invariant
                *self == *old(self),
                old(self).wf(),
                players_headroom(self.players@),
                n == self.players@.len(),
                0 <= i <= n,
                any <==> exists|j: int| 0 <= j < i && (#[trigger] self.players@[j]).active is Some,
            decreases n - i,
        {
            match self.players[i].active {
                Some(_) => { any = true; },
                None => {},
            }
            i = i + 1;
        }
        let n_clips = self.set.handles.len();
        let new_current: usize = if k.enter && any {
            (self.current + 1) % n_clips
        } else {
            self.current
        };
        let handle = self.set.handles[new_current];
        let mut updated: Vec<PlayerSlot> = Vec::new();
        let mut reqs: Vec<TransitionRequest> = Vec::new();
        let mut i: usize = 0;
        while i < n
            invariant
                *self == *old(self),
                old(self).wf(),
                players_headroom(self.players@),
                n == self.players@.len(),
                (new_current as int) < self.set.handles@.len(),
                new_current as int == (if k.enter && has_active(self.players@) {
                    cycled_index(self.current as int, self.set.handles@.len() as int)
                } else {
                    self.current as int
                }),
                handle == self.set.handles@[new_current as int],
                0 <= i <= n,
                updated@.len() == i,
                forall|j: int|
                    0 <= j < i ==> updated@[j] == slot_keyed(
                        #[trigger] self.players@[j],
                        *k,
                        new_current,
                    ),
                reqs@ == (if k.enter {
                    cycle_requests(self.players@.take(i as int), handle)
                } else {
                    Seq::<TransitionRequest>::empty()
                }),
            decreases n - i,
        {
            let s = self.players[i];
            proof {
                assert(self.players@.take((i + 1) as int).drop_last() =~= self.players@.take(
                    i as int,
                ));
                assert(self.players@.take((i + 1) as int).last() == self.players@[i as int]);
                assert(slot_headroom(self.players@[i as int]));
                assert(slot_wf(self.players@[i as int], self.set.handles@.len() as int));
            }
            match s.active {
                None => {
                    updated.push(s);
                },
                Some(c0) => {
                    let mut c = c0;
                    if k.space {
                        c = ClipInstance { paused: !c.paused, ..c };
                    }
                    if k.up {
                        c = ClipInstance {
                            speed: Speed {
                                num: c.speed.num * SPEED_UP_NUM,
                                den: c.speed.den * SPEED_UP_DEN,
                            },
                            ..c
                        };
                    }
                    if k.down {
                        c = ClipInstance {
                            speed: Speed {
                                num: c.speed.num * SLOW_DOWN_NUM,
                                den: c.speed.den * SLOW_DOWN_DEN,
                            },
                            ..c
                        };
                    }
                    if k.left {
                        c = ClipInstance { elapsed_ms: c.elapsed_ms - SEEK_STEP_MS, ..c };
                    }
                    if k.right {
                        c = ClipInstance { elapsed_ms: c.elapsed_ms + SEEK_STEP_MS, ..c };
                    }
                    if k.enter {
                        c = ClipInstance {
                            clip: new_current,
                            paused: false,
                            speed: Speed { num: 1, den: 1 },
                            elapsed_ms: 0,
                            repeat: RepeatMode::Forever,
                        };
                        reqs.push(TransitionRequest {
                            entity: s.entity,
                            handle,
                            blend_ms: CROSSFADE_MS,
                        });
                    }
                    if k.digit1 {
                        c = ClipInstance {
                            repeat: RepeatMode::Count(1),
                            elapsed_ms: 0,
                            paused: false,
                            ..c
                        };
                    }
                    if k.digit3 {
                        c = ClipInstance {
                            repeat: RepeatMode::Count(3),
                            elapsed_ms: 0,
                            paused: false,
                            ..c
                        };
                    }
                    if k.digit5 {
                        c = ClipInstance {
                            repeat: RepeatMode::Count(5),
                            elapsed_ms: 0,
                            paused: false,
                            ..c
                        };
                    }
                    if k.key_l {
                        c = ClipInstance { repeat: RepeatMode::Forever, ..c };
                    }
                    proof {
                        assert(c == clip_keyed(c0, *k, new_current));
                    }
                    updated.push(PlayerSlot { entity: s.entity, active: Some(c) });
                },
            }
            i = i + 1;
        }
        proof {
            assert(self.players@.take(n as int) =~= self.players@);
        }
        self.players = updated;
        self.current = new_current;
        proof {
            assert forall|ii: int|
                0 <= ii < old(self).players@.len() implies (#[trigger] self.players@[ii]).entity
                == old(self).players@[ii].entity && slot_wf(
                self.players@[ii],
                self.set.handles@.len() as int,
            ) by {
                assert(self.players@[ii] == slot_keyed(old(self).players@[ii], *k, new_current));
                assert(slot_wf(old(self).players@[ii], old(self).set.handles@.len() as int));
                assert(slot_headroom(old(self).players@[ii]));
            };
            lemma_slotwise_wf(*old(self), *self);
        }
        reqs
    }
}

/// The speed factors fit `i64` when applied to this slot.
pub open spec fn slot_speed_fits(s: PlayerSlot, f_num: i64, f_den: i64) -> bool {
    match s.active {
        Some(c) => {
            &&& i64::MIN <= c.speed.num * f_num <= i64::MAX
            &&& i64::MIN <= c.speed.den * f_den <= i64::MAX
        },
        None => true,
    }
}

/// The seek delta fits `i64` when applied to this slot.
pub open spec fn slot_seek_fits(s: PlayerSlot, delta_ms: i64) -> bool {
    match s.active {
        Some(c) => i64::MIN <= c.elapsed_ms + delta_ms <= i64::MAX,
        None => true,
    }
}

/// A state whose slots keep their entities and stay well formed against an
/// unchanged set is itself well formed.
proof fn lemma_slotwise_wf(pre: AnimationController, post: AnimationController)
    requires
        pre.wf(),
        post.set == pre.set,
        (post.current as int) < post.set.handles@.len(),
        post.players@.len() == pre.players@.len(),
        forall|i: int|
            0 <= i < pre.players@.len() ==> (#[trigger] post.players@[i]).entity
                == pre.players@[i].entity,
        forall|i: int|
            0 <= i < post.players@.len() ==> slot_wf(
                #[trigger] post.players@[i],
                post.set.handles@.len() as int,
            ),
    ensures
        post.wf(),
{
    assert forall|i: int, j: int|
        0 <= i < j < post.players@.len() implies post.players@[i].entity
        != post.players@[j].entity by {
        assert(pre.players@[i].entity != pre.players@[j].entity);
    };
}

/// The product of two positive numbers is positive.
proof fn lemma_mul_pos(a: int, b: int)
    by (nonlinear_arith)
    requires
        a > 0,
        b > 0,
    ensures
        a * b > 0,
{
}

/// Cycling over a table with no active clip asks for no transition.
proof fn lemma_cycle_requests_all_idle(players: Seq<PlayerSlot>, handle: u64)
    requires
        !has_active(players),
    ensures
        cycle_requests(players, handle) == Seq::<TransitionRequest>::empty(),
    decreases players.len(),
{
    if players.len() > 0 {
        assert(players.last().active is None);
        assert(!has_active(players.drop_last()));
        lemma_cycle_requests_all_idle(players.drop_last(), handle);
    }
}

// --- Stated laws ---------------------------------------------------------

/// A player-ready event is idempotent: a second event for the same entity
/// leaves the player table exactly as the first left it.
pub proof fn lemma_player_ready_idempotent(players: Seq<PlayerSlot>, entity: u64)
    ensures
        ready_players(ready_players(players, entity), entity) == ready_players(players, entity),
{
    if !has_entity(players, entity) {
        let once = players.push(ready_slot(entity));
        assert(once[players.len() as int].entity == entity);
        assert(has_entity(once, entity));
    }
}

/// Speed adjustment is multiplicative and commutes: adjusting by one
/// factor and then another ends at the same state as the opposite order.
pub proof fn lemma_adjust_speed_commutes(c: ClipInstance, an: i64, ad: i64, bn: i64, bd: i64)
    requires
        i64::MIN <= c.speed.num * an <= i64::MAX,
        i64::MIN <= c.speed.num * bn <= i64::MAX,
        i64::MIN <= (c.speed.num * an) * bn <= i64::MAX,
        i64::MIN <= c.speed.den * ad <= i64::MAX,
        i64::MIN <= c.speed.den * bd <= i64::MAX,
        i64::MIN <= (c.speed.den * ad) * bd <= i64::MAX,
    ensures
        clip_adjusted(clip_adjusted(c, an, ad), bn, bd) == clip_adjusted(
            clip_adjusted(c, bn, bd),
            an,
            ad,
        ),
{
    assert((c.speed.num * an) * bn == (c.speed.num * bn) * an) by (nonlinear_arith);
    assert((c.speed.den * ad) * bd == (c.speed.den * bd) * ad) by (nonlinear_arith);
}

/// One speed-up then one slow-down multiplies the speed by exactly
/// 24/25, that is by 1.2 times 0.8: the two adjustments compose into a
/// single multiplicative factor.
pub proof fn lemma_speed_up_then_down(c: ClipInstance)
    requires
        -HEADROOM <= c.speed.num <= HEADROOM,
        0 < c.speed.den <= HEADROOM,
    ensures
        clip_adjusted(clip_adjusted(c, SPEED_UP_NUM, SPEED_UP_DEN), SLOW_DOWN_NUM, SLOW_DOWN_DEN)
            == clip_adjusted(c, 24, 25),
{
    assert((c.speed.num * 6) * 4 == c.speed.num * 24) by (nonlinear_arith);
    assert((c.speed.den * 5) * 5 == c.speed.den * 25) by (nonlinear_arith);
}

/// Iterating the cycle step `k` times from `cur` lands on `(cur + k)`
/// modulo the clip count.
pub open spec fn cycled_times(cur: int, n: int, k: nat) -> int
    decreases k,
{
    if k == 0 {
        cur
    } else {
        cycled_index(cycled_times(cur, n, (k - 1) as nat), n)
    }
}

proof fn lemma_cycled_times_linear(cur: int, n: int, k: nat)
    requires
        0 <= cur < n,
    ensures
        cycled_times(cur, n, k) == (cur + k) % n,
    decreases k,
{
    if k == 0 {
        lemma_small_mod(cur as nat, n as nat);
    } else {
        lemma_cycled_times_linear(cur, n, (k - 1) as nat);
        lemma_add_mod_noop_right(1, cur + (k - 1), n);
        assert(cycled_times(cur, n, k) == (1 + (cur + (k - 1)) % n) % n);
    }
}

/// The cycle command wraps: cycling exactly as many times as there are
/// clips returns the cycle position to where it started.
pub proof fn lemma_cycle_wraps(cur: int, n: int)
    requires
        0 <= cur < n,
    ensures
        cycled_times(cur, n, n as nat) == cur,
{
    lemma_cycled_times_linear(cur, n, n as nat);
    lemma_mod_add_multiples_vanish(cur, n);
    lemma_small_mod(cur as nat, n as nat);
}

/// Setting a bounded repeat policy always replays from time zero and
/// re-enters the playing state, whatever the prior pause state; setting
/// repeat-forever never touches elapsed time or pause state.
pub proof fn lemma_repeat_reset(c: ClipInstance, count: u32)
    ensures
        clip_with_repeat(c, RepeatMode::Count(count)).elapsed_ms == 0,
        clip_with_repeat(c, RepeatMode::Count(count)).paused == false,
        clip_with_repeat(c, RepeatMode::Once).elapsed_ms == 0,
        clip_with_repeat(c, RepeatMode::Once).paused == false,
        clip_with_repeat(c, RepeatMode::Forever).elapsed_ms == c.elapsed_ms,
        clip_with_repeat(c, RepeatMode::Forever).paused == c.paused,
        clip_with_repeat(c, RepeatMode::Forever).repeat == RepeatMode::Forever,
{
}

} // verus!
