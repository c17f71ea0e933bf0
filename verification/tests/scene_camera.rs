use fox_demo::anim::KeyEvents;
use fox_demo::camera::follow_update;
use fox_demo::geom::{Coord, Vec3, norm_sq2_parts};
use fox_demo::motion::{MoveInput, Transform};
use fox_demo::scene::Scene;

fn coord(whole: i64, diag: i64) -> Coord {
    Coord { whole, diag }
}

fn vec3(x: Coord, y: Coord, z: Coord) -> Vec3 {
    Vec3 { x, y, z }
}

fn no_move() -> MoveInput {
    MoveInput { forward: false, back: false, left: false, right: false }
}

fn no_keys() -> KeyEvents {
    KeyEvents {
        space: false,
        up: false,
        down: false,
        left: false,
        right: false,
        enter: false,
        digit1: false,
        digit3: false,
        digit5: false,
        key_l: false,
    }
}

#[test]
fn initial_scene_matches_reference() {
    let scene = Scene::new(vec![2, 1, 0]);
    assert_eq!(scene.move_speed, 5);
    assert_eq!(scene.anim.current, 0);
    assert_eq!(scene.anim.players.len(), 0);
    assert_eq!(scene.character.pos, vec3(coord(0, 0), coord(0, 0), coord(0, 0)));
    assert_eq!(scene.character.fwd, vec3(coord(0, 0), coord(0, 0), coord(1, 0)));
    // Camera starts 200 units up and 300 back along the character's +z
    // facing, looking at the origin.
    assert_eq!(
        scene.camera.pos,
        vec3(coord(0, 0), coord(200_000, 0), coord(-300_000, 0))
    );
    assert_eq!(
        scene.camera.fwd,
        vec3(coord(0, 0), coord(-200_000, 0), coord(300_000, 0))
    );
}

#[test]
fn camera_points_at_character_after_turn() {
    let mut scene = Scene::new(vec![2, 1, 0]);
    scene.anim.on_player_ready(1);
    let d_held = MoveInput { forward: false, back: false, left: false, right: true };
    scene.frame(&d_held, &no_keys(), 1000);
    assert_eq!(scene.character.pos.x, coord(5000, 0));
    assert_eq!(scene.character.fwd.x, coord(1, 0));
    assert_eq!(scene.camera.pos, vec3(coord(-295_000, 0), coord(200_000, 0), coord(0, 0)));
    // Look-at invariant: forward axis is exactly character minus camera.
    assert_eq!(
        scene.camera.fwd,
        vec3(coord(300_000, 0), coord(-200_000, 0), coord(0, 0))
    );
}

#[test]
fn camera_swings_with_diagonal_facing() {
    let mut scene = Scene::new(vec![2, 1, 0]);
    let wa_held = MoveInput { forward: true, back: false, left: true, right: false };
    scene.frame(&wa_held, &no_keys(), 1000);
    let ch = scene.character;
    assert_eq!(ch.fwd.x, coord(0, -1));
    assert_eq!(ch.fwd.z, coord(0, -1));
    assert_eq!(scene.camera.pos.x, coord(0, -5000 + 300_000));
    assert_eq!(scene.camera.pos.z, coord(0, -5000 + 300_000));
    assert_eq!(scene.camera.pos.y, coord(200_000, 0));
    // The camera still aims exactly at the character.
    assert_eq!(scene.camera.fwd.x, coord(0, -300_000));
    assert_eq!(scene.camera.fwd.z, coord(0, -300_000));
    assert_eq!(scene.camera.fwd.y, coord(-200_000, 0));
}

#[test]
fn follow_update_without_target_keeps_camera() {
    let mut cam = Transform {
        pos: vec3(coord(11, 0), coord(22, 0), coord(33, 0)),
        fwd: vec3(coord(1, 0), coord(0, 0), coord(0, 0)),
    };
    let before = cam;
    follow_update(&mut cam, None);
    assert_eq!(cam, before);
}

#[test]
fn frame_forward_run_end_to_end() {
    // W held for one second at speed 5: the character ends at (0, 0, -5)
    // and the camera trails behind it along +z, aimed at it.
    let mut scene = Scene::new(vec![2, 1, 0]);
    scene.anim.on_player_ready(1);
    let w_held = MoveInput { forward: true, back: false, left: false, right: false };
    scene.frame(&w_held, &no_keys(), 1000);
    assert_eq!(
        scene.character.pos,
        vec3(coord(0, 0), coord(0, 0), coord(-5000, 0))
    );
    assert_eq!(scene.character.fwd.z, coord(-1, 0));
    assert_eq!(
        scene.camera.pos,
        vec3(coord(0, 0), coord(200_000, 0), coord(295_000, 0))
    );
    assert_eq!(
        scene.camera.fwd,
        vec3(coord(0, 0), coord(-200_000, 0), coord(-300_000, 0))
    );
}

#[test]
fn frame_diagonal_run_displacement_magnitude() {
    let mut scene = Scene::new(vec![2, 1, 0]);
    let wa_held = MoveInput { forward: true, back: false, left: true, right: false };
    scene.frame(&wa_held, &no_keys(), 1000);
    let (rat, irr) = norm_sq2_parts(&scene.character.pos);
    assert_eq!(rat, 2 * 5000 * 5000);
    assert_eq!(irr, 0);
    assert_eq!(scene.character.pos.x, scene.character.pos.z);
}

#[test]
fn frame_passes_animation_keys_through() {
    let mut scene = Scene::new(vec![2, 1, 0]);
    scene.anim.on_player_ready(1);
    let mut keys = no_keys();
    keys.enter = true;
    let reqs = scene.frame(&no_move(), &keys, 16);
    assert_eq!(scene.anim.current, 1);
    assert_eq!(reqs.len(), 1);
    assert_eq!(reqs[0].handle, 1);
    assert_eq!(reqs[0].blend_ms, 250);
}

#[test]
fn movement_keeps_camera_height_offset() {
    let mut scene = Scene::new(vec![2, 1, 0]);
    let s_held = MoveInput { forward: false, back: true, left: false, right: false };
    for _ in 0..10 {
        scene.frame(&s_held, &no_keys(), 100);
    }
    assert_eq!(scene.character.pos.z, coord(5000, 0));
    assert_eq!(scene.camera.pos.y, coord(200_000, 0));
    assert_eq!(scene.camera.pos.z, coord(5000 - 300_000, 0));
}
