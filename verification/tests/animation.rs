use fox_demo::anim::{
    AnimationController, AnimationSet, KeyEvents, RepeatMode, Speed, TransitionRequest,
    CROSSFADE_MS,
};

fn controller() -> AnimationController {
    AnimationController::new(AnimationSet { handles: vec![7, 8, 9] })
}

fn no_keys() -> KeyEvents {
    KeyEvents {
        space: false,
        up: false,
        down: false,
        left: false,
        right: false,
        enter: false,
        digit1: false,
        digit3: false,
        digit5: false,
        key_l: false,
    }
}

fn active_of(ctrl: &AnimationController, slot: usize) -> fox_demo::anim::ClipInstance {
    ctrl.players[slot].active.expect("slot should have an active clip")
}

#[test]
fn ready_starts_startup_clip() {
    let mut ctrl = controller();
    let req = ctrl.on_player_ready(1);
    assert_eq!(req, Some(TransitionRequest { entity: 1, handle: 7, blend_ms: 0 }));
    assert_eq!(ctrl.players.len(), 1);
    let c = active_of(&ctrl, 0);
    assert_eq!(c.clip, 0);
    assert!(!c.paused);
    assert_eq!(c.speed, Speed { num: 1, den: 1 });
    assert_eq!(c.elapsed_ms, 0);
    assert_eq!(c.repeat, RepeatMode::Forever);
}

#[test]
fn ready_is_idempotent() {
    let mut once = controller();
    once.on_player_ready(1);
    let mut twice = controller();
    twice.on_player_ready(1);
    let second = twice.on_player_ready(1);
    assert_eq!(second, None);
    assert_eq!(once, twice);
}

#[test]
fn toggle_pause_flips_and_flips_back() {
    let mut ctrl = controller();
    ctrl.on_player_ready(1);
    ctrl.toggle_pause();
    assert!(active_of(&ctrl, 0).paused);
    ctrl.toggle_pause();
    assert!(!active_of(&ctrl, 0).paused);
}

#[test]
fn operations_skip_when_no_player() {
    let mut ctrl = controller();
    let before = ctrl.clone();
    ctrl.toggle_pause();
    ctrl.adjust_speed(6, 5);
    ctrl.seek(100);
    ctrl.set_repeat(RepeatMode::Forever);
    let reqs = ctrl.cycle_clip();
    assert_eq!(ctrl, before);
    assert_eq!(reqs.len(), 0);
}

#[test]
fn speed_up_then_down_is_24_over_25() {
    let mut ctrl = controller();
    ctrl.on_player_ready(1);
    ctrl.adjust_speed(6, 5);
    ctrl.adjust_speed(4, 5);
    assert_eq!(active_of(&ctrl, 0).speed, Speed { num: 24, den: 25 });
}

#[test]
fn speed_adjust_commutes() {
    let mut ab = controller();
    ab.on_player_ready(1);
    ab.adjust_speed(6, 5);
    ab.adjust_speed(4, 5);
    let mut ba = controller();
    ba.on_player_ready(1);
    ba.adjust_speed(4, 5);
    ba.adjust_speed(6, 5);
    assert_eq!(ab, ba);
}

#[test]
fn seek_shifts_elapsed_time() {
    let mut ctrl = controller();
    ctrl.on_player_ready(1);
    ctrl.seek(-100);
    assert_eq!(active_of(&ctrl, 0).elapsed_ms, -100);
    ctrl.seek(100);
    assert_eq!(active_of(&ctrl, 0).elapsed_ms, 0);
    ctrl.seek(250);
    assert_eq!(active_of(&ctrl, 0).elapsed_ms, 250);
}

#[test]
fn cycle_advances_and_requests_crossfade() {
    let mut ctrl = controller();
    ctrl.on_player_ready(1);
    let reqs = ctrl.cycle_clip();
    assert_eq!(ctrl.current, 1);
    assert_eq!(active_of(&ctrl, 0).clip, 1);
    assert_eq!(
        reqs,
        vec![TransitionRequest { entity: 1, handle: 8, blend_ms: CROSSFADE_MS }]
    );
}

#[test]
fn cycle_wraps_after_clip_count_cycles() {
    let mut ctrl = controller();
    ctrl.on_player_ready(1);
    ctrl.cycle_clip();
    ctrl.cycle_clip();
    ctrl.cycle_clip();
    assert_eq!(ctrl.current, 0);
    assert_eq!(active_of(&ctrl, 0).clip, 0);
}

#[test]
fn cycle_replaces_playback_state() {
    let mut ctrl = controller();
    ctrl.on_player_ready(1);
    ctrl.toggle_pause();
    ctrl.seek(400);
    ctrl.adjust_speed(6, 5);
    ctrl.cycle_clip();
    let c = active_of(&ctrl, 0);
    assert!(!c.paused);
    assert_eq!(c.elapsed_ms, 0);
    assert_eq!(c.speed, Speed { num: 1, den: 1 });
    assert_eq!(c.repeat, RepeatMode::Forever);
}

#[test]
fn bounded_repeat_resets_even_when_paused() {
    let mut ctrl = controller();
    ctrl.on_player_ready(1);
    ctrl.seek(700);
    ctrl.toggle_pause();
    ctrl.set_repeat(RepeatMode::Count(3));
    let c = active_of(&ctrl, 0);
    assert_eq!(c.repeat, RepeatMode::Count(3));
    assert_eq!(c.elapsed_ms, 0);
    assert!(!c.paused);
}

#[test]
fn repeat_forever_never_resets() {
    let mut ctrl = controller();
    ctrl.on_player_ready(1);
    ctrl.seek(700);
    ctrl.toggle_pause();
    ctrl.set_repeat(RepeatMode::Forever);
    let c = active_of(&ctrl, 0);
    assert_eq!(c.repeat, RepeatMode::Forever);
    assert_eq!(c.elapsed_ms, 700);
    assert!(c.paused);
}

#[test]
fn keys_space_toggles() {
    let mut ctrl = controller();
    ctrl.on_player_ready(1);
    let mut keys = no_keys();
    keys.space = true;
    let reqs = ctrl.handle_keys(&keys);
    assert!(reqs.is_empty());
    assert!(active_of(&ctrl, 0).paused);
}

#[test]
fn keys_up_and_down_same_frame() {
    let mut ctrl = controller();
    ctrl.on_player_ready(1);
    let mut keys = no_keys();
    keys.up = true;
    keys.down = true;
    ctrl.handle_keys(&keys);
    assert_eq!(active_of(&ctrl, 0).speed, Speed { num: 24, den: 25 });
}

#[test]
fn keys_left_and_right_cancel() {
    let mut ctrl = controller();
    ctrl.on_player_ready(1);
    let mut keys = no_keys();
    keys.left = true;
    keys.right = true;
    ctrl.handle_keys(&keys);
    assert_eq!(active_of(&ctrl, 0).elapsed_ms, 0);
}

#[test]
fn keys_enter_cycles_with_crossfade() {
    let mut ctrl = controller();
    ctrl.on_player_ready(1);
    let mut keys = no_keys();
    keys.enter = true;
    let reqs = ctrl.handle_keys(&keys);
    assert_eq!(ctrl.current, 1);
    assert_eq!(
        reqs,
        vec![TransitionRequest { entity: 1, handle: 8, blend_ms: CROSSFADE_MS }]
    );
}

#[test]
fn keys_enter_with_no_player_asks_nothing() {
    let mut ctrl = controller();
    let mut keys = no_keys();
    keys.enter = true;
    let reqs = ctrl.handle_keys(&keys);
    assert!(reqs.is_empty());
    assert_eq!(ctrl.current, 0);
}

#[test]
fn keys_digit_after_enter_sets_count_on_fresh_clip() {
    let mut ctrl = controller();
    ctrl.on_player_ready(1);
    ctrl.seek(900);
    let mut keys = no_keys();
    keys.enter = true;
    keys.digit5 = true;
    ctrl.handle_keys(&keys);
    let c = active_of(&ctrl, 0);
    assert_eq!(c.clip, 1);
    assert_eq!(c.repeat, RepeatMode::Count(5));
    assert_eq!(c.elapsed_ms, 0);
}

#[test]
fn keys_l_keeps_elapsed() {
    let mut ctrl = controller();
    ctrl.on_player_ready(1);
    ctrl.seek(300);
    let mut keys = no_keys();
    keys.key_l = true;
    ctrl.handle_keys(&keys);
    let c = active_of(&ctrl, 0);
    assert_eq!(c.repeat, RepeatMode::Forever);
    assert_eq!(c.elapsed_ms, 300);
}

#[test]
fn keys_digits_apply_in_order() {
    let mut ctrl = controller();
    ctrl.on_player_ready(1);
    let mut keys = no_keys();
    keys.digit1 = true;
    keys.digit3 = true;
    ctrl.handle_keys(&keys);
    assert_eq!(active_of(&ctrl, 0).repeat, RepeatMode::Count(3));
}
