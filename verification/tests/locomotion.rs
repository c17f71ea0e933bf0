use fox_demo::geom::{Coord, Vec3, norm_sq2_parts};
use fox_demo::motion::{MoveInput, Transform, step};

fn coord(whole: i64, diag: i64) -> Coord {
    Coord { whole, diag }
}

fn origin_transform() -> Transform {
    Transform {
        pos: Vec3 { x: coord(0, 0), y: coord(0, 0), z: coord(0, 0) },
        fwd: Vec3 { x: coord(0, 0), y: coord(0, 0), z: coord(1, 0) },
    }
}

fn held(forward: bool, back: bool, left: bool, right: bool) -> MoveInput {
    MoveInput { forward, back, left, right }
}

#[test]
fn active_directions_are_unit() {
    // Every non-cancelling key combination moves exactly 5 units in 1 s at
    // speed 5: twice the squared displacement length is 2 * 5000^2 with no
    // sqrt(2) part, in thousandths of a unit.
    let combos = vec![
        held(true, false, false, false),
        held(false, true, false, false),
        held(false, false, true, false),
        held(false, false, false, true),
        held(true, false, true, false),
        held(true, false, false, true),
        held(false, true, true, false),
        held(false, true, false, true),
    ];
    for inp in combos {
        let mut t = origin_transform();
        step(&mut t, &inp, 5, 1000);
        let (rat, irr) = norm_sq2_parts(&t.pos);
        assert_eq!(rat, 2 * 5000 * 5000);
        assert_eq!(irr, 0);
    }
}

#[test]
fn opposite_keys_hold_still() {
    let cancelling = vec![
        held(true, true, false, false),
        held(false, false, true, true),
        held(true, true, true, true),
        held(false, false, false, false),
    ];
    for inp in cancelling {
        let mut t = origin_transform();
        let before = t;
        step(&mut t, &inp, 5, 1000);
        assert_eq!(t, before);
    }
}

#[test]
fn forward_run_matches_reference() {
    // One second of W at speed 5 from the origin: position (0, 0, -5),
    // facing negative z.
    let mut t = origin_transform();
    t.fwd = Vec3 { x: coord(0, 0), y: coord(0, 0), z: coord(-1, 0) };
    let before_fwd = t.fwd;
    step(&mut t, &held(true, false, false, false), 5, 1000);
    assert_eq!(t.pos.x, coord(0, 0));
    assert_eq!(t.pos.y, coord(0, 0));
    assert_eq!(t.pos.z, coord(-5000, 0));
    // The movement direction was already the facing, so facing is unchanged.
    assert_eq!(t.fwd, before_fwd);
}

#[test]
fn forward_run_turns_character() {
    let mut t = origin_transform();
    step(&mut t, &held(true, false, false, false), 5, 1000);
    assert_eq!(t.fwd.z, coord(-1, 0));
    assert_eq!(t.fwd.x, coord(0, 0));
}

#[test]
fn diagonal_run_bisects_axes() {
    // W+A for one second at speed 5: displacement magnitude exactly 5, both
    // ground components equal at -5000 * sqrt(2)/2.
    let mut t = origin_transform();
    step(&mut t, &held(true, false, true, false), 5, 1000);
    assert_eq!(t.pos.x, coord(0, -5000));
    assert_eq!(t.pos.z, coord(0, -5000));
    assert_eq!(t.pos.y, coord(0, 0));
    let (rat, irr) = norm_sq2_parts(&t.pos);
    assert_eq!(rat, 2 * 5000 * 5000);
    assert_eq!(irr, 0);
    assert_eq!(t.fwd.x, coord(0, -1));
    assert_eq!(t.fwd.z, coord(0, -1));
}

#[test]
fn movement_accumulates_mixed_directions() {
    let mut t = origin_transform();
    step(&mut t, &held(true, false, false, false), 5, 1000);
    step(&mut t, &held(true, false, true, false), 5, 2000);
    assert_eq!(t.pos.z, coord(-5000, -10000));
    assert_eq!(t.pos.x, coord(0, -10000));
    assert_eq!(t.fwd.x, coord(0, -1));
}

#[test]
fn zero_dt_moves_nothing_but_turns() {
    let mut t = origin_transform();
    step(&mut t, &held(false, false, false, true), 5, 0);
    assert_eq!(t.pos, origin_transform().pos);
    assert_eq!(t.fwd.x, coord(1, 0));
    assert_eq!(t.fwd.z, coord(0, 0));
}
