use worldsync::geometry::Vec3;
use worldsync::locomotion::{resolve_move, HeldKeys, Intent, PLAYER_HEIGHT};
use worldsync::terrain::HeightField;

fn flat_field_with_bump() -> HeightField {
    // 20 x 20 cells of one world unit; ground 3.0 everywhere but 9.0 at column (12, 10)
    let mut samples = vec![3_000i64; 400];
    samples[10 * 20 + 12] = 9_000;
    HeightField::new(Vec3::new(0, 0, 0), 1_000, 1_000, 20, 20, samples).unwrap()
}

fn keys() -> HeldKeys {
    HeldKeys { forward: false, back: false, right: false, left: false, up: false, down: false }
}

#[test]
fn player_height_is_five_units() {
    assert_eq!(PLAYER_HEIGHT, 5_000);
}

#[test]
fn descent_is_clamped_and_keeps_horizontal_displacement() {
    let f = flat_field_with_bump();
    assert_eq!(f.height_at(10_000, 10_000), Some(3_000));
    let position = Vec3::new(10_000, 8_000, 10_000);
    // moving forward and down: the diagonal step is shorter along x than the level one
    let step = Vec3::new(589, -589, 0);
    let level_step = Vec3::new(833, 0, 0);
    let r = resolve_move(&f, position, step, level_step, true, PLAYER_HEIGHT);
    assert_eq!(r, Vec3::new(10_833, 8_000, 10_000));
}

#[test]
fn descent_onto_higher_ground_is_settled_where_it_ends() {
    let f = flat_field_with_bump();
    let position = Vec3::new(11_000, 8_000, 10_000);
    let step = Vec3::new(589, -589, 0);
    let level_step = Vec3::new(833, 0, 0);
    // the level step ends in column 12, where the ground is 9.0
    let r = resolve_move(&f, position, step, level_step, true, PLAYER_HEIGHT);
    assert_eq!(r, Vec3::new(11_833, 14_000, 10_000));
}

#[test]
fn level_step_loses_its_vertical_part() {
    let f = flat_field_with_bump();
    let position = Vec3::new(10_000, 8_000, 10_000);
    let r = resolve_move(&f, position, Vec3::new(0, -100, 0), Vec3::new(10, 700, -20), true, PLAYER_HEIGHT);
    assert_eq!(r, Vec3::new(10_010, 8_000, 9_980));
}

#[test]
fn walking_into_a_rise_is_lifted_at_the_wanted_place() {
    let f = flat_field_with_bump();
    let position = Vec3::new(11_000, 8_000, 10_000);
    let r = resolve_move(&f, position, Vec3::new(833, 0, 0), Vec3::new(833, 0, 0), false, PLAYER_HEIGHT);
    assert_eq!(r, Vec3::new(11_833, 14_000, 10_000));
}

#[test]
fn a_move_that_stays_clear_is_not_touched() {
    let f = flat_field_with_bump();
    let position = Vec3::new(10_000, 20_000, 10_000);
    let r = resolve_move(&f, position, Vec3::new(100, -500, -300), Vec3::new(999, 0, 999), true, PLAYER_HEIGHT);
    assert_eq!(r, Vec3::new(10_100, 19_500, 9_700));
    let up = resolve_move(&f, position, Vec3::new(0, 833, 0), Vec3::zero(), false, PLAYER_HEIGHT);
    assert_eq!(up, Vec3::new(10_000, 20_833, 10_000));
}

#[test]
fn outside_the_field_nothing_is_clamped() {
    let f = flat_field_with_bump();
    let position = Vec3::new(-5_000, 0, -5_000);
    let r = resolve_move(&f, position, Vec3::new(-10, -1_000, 0), Vec3::new(-14, 0, 0), true, PLAYER_HEIGHT);
    assert_eq!(r, Vec3::new(-5_010, -1_000, -5_000));
}

#[test]
fn resolved_moves_never_end_below_the_ground() {
    let f = flat_field_with_bump();
    let steps = [-2_500i64, -700, 0, 700, 2_500];
    for &sx in steps.iter() {
        for &sy in steps.iter() {
            for &sz in steps.iter() {
                for &descending in [false, true].iter() {
                    let position = Vec3::new(11_200, 8_000, 10_100);
                    let r = resolve_move(&f, position, Vec3::new(sx, sy, sz), Vec3::new(2 * sx, 0, 2 * sz), descending, PLAYER_HEIGHT);
                    if let Some(floor) = f.floor_at(r.x, r.z, PLAYER_HEIGHT) {
                        assert!(r.y >= floor);
                    }
                    assert!(!f.check_collision(r, PLAYER_HEIGHT));
                }
            }
        }
    }
}

#[test]
fn opposed_keys_cancel() {
    let mut k = keys();
    assert_eq!(k.intent(), Intent { advance: 0, strafe: 0, climb: 0 });
    assert!(k.intent().is_idle());
    k.forward = true;
    k.left = true;
    k.down = true;
    assert_eq!(k.intent(), Intent { advance: 1, strafe: -1, climb: -1 });
    assert!(k.intent().is_descending());
    assert!(!k.intent().is_idle());
    k.back = true;
    k.right = true;
    k.up = true;
    assert_eq!(k.intent(), Intent { advance: 0, strafe: 0, climb: 0 });
    assert!(!k.intent().is_descending());
}

#[test]
fn each_key_drives_its_axis() {
    let mut k = keys();
    k.back = true;
    assert_eq!(k.intent(), Intent { advance: -1, strafe: 0, climb: 0 });
    let mut k = keys();
    k.right = true;
    assert_eq!(k.intent(), Intent { advance: 0, strafe: 1, climb: 0 });
    let mut k = keys();
    k.up = true;
    assert_eq!(k.intent(), Intent { advance: 0, strafe: 0, climb: 1 });
    assert!(!k.intent().is_descending());
}
