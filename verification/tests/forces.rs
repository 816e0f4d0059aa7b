use character_controller::kinematic_controller::KinematicCharacterController;
use character_controller::movement::{gravity_system, velocity_dampening, Gravity};
use character_controller::vector::Vec3;

const SECOND: i64 = 1_000_000;

fn moving(velocity: Vec3) -> KinematicCharacterController {
    KinematicCharacterController { velocity, ..KinematicCharacterController::default() }
}

#[test]
fn default_gravity_is_twice_that_of_the_earth() {
    assert_eq!(Gravity::default().0, Vec3::new(0, -19_620_000, 0));
}

#[test]
fn dampening_takes_a_tenth_off_the_ground_velocity() {
    let mut controller = moving(Vec3::new(2_000_000, 5_000_000, -1_000_000));
    velocity_dampening(&mut controller);
    assert_eq!(controller.velocity, Vec3::new(1_800_000, 5_000_000, -900_000));
    let mut controller = moving(Vec3::new(5, 7, -5));
    velocity_dampening(&mut controller);
    // 4.5 rounds away from zero
    assert_eq!(controller.velocity, Vec3::new(5, 7, -5));
    let mut controller = moving(Vec3::new(4, 0, -1));
    velocity_dampening(&mut controller);
    assert_eq!(controller.velocity, Vec3::new(4, 0, -1));
    let mut controller = moving(Vec3::new(16, 0, -24));
    velocity_dampening(&mut controller);
    assert_eq!(controller.velocity, Vec3::new(14, 0, -22));
}

#[test]
fn dampening_leaves_what_is_not_finite() {
    let mut controller = moving(Vec3::new(i64::MAX, 3, i64::MIN));
    velocity_dampening(&mut controller);
    assert_eq!(controller.velocity, Vec3::new(i64::MAX, 3, i64::MIN));
    assert_eq!(controller.bounces, 4);
}

#[test]
fn gravity_pulls_an_airborne_character() {
    let mut controller = moving(Vec3::new(1_000_000, 2_000_000, 0));
    gravity_system(&mut controller, &Gravity::default(), SECOND / 2, false);
    assert_eq!(controller.velocity, Vec3::new(1_000_000, -7_810_000, 0));
    gravity_system(&mut controller, &Gravity::default(), 0, false);
    assert_eq!(controller.velocity, Vec3::new(1_000_000, -7_810_000, 0));
}

#[test]
fn grounded_character_does_not_sink() {
    // gravity pulls the velocity down to (1, -0.3924, 0), which goes along gravity
    let mut controller = moving(Vec3::new(1_000_000, 0, 0));
    gravity_system(&mut controller, &Gravity::default(), SECOND / 50, true);
    assert_eq!(controller.velocity, Vec3::new(1_000_000, 0, 0));
    // airborne, the same velocity is only pulled on
    let mut controller = moving(Vec3::new(1_000_000, 0, 0));
    gravity_system(&mut controller, &Gravity::default(), SECOND / 50, false);
    assert_eq!(controller.velocity, Vec3::new(1_000_000, -392_400, 0));
}

#[test]
fn grounded_character_that_jumps_keeps_its_vertical_velocity() {
    let mut controller = moving(Vec3::new(1_000_000, 5_000_000, 3));
    gravity_system(&mut controller, &Gravity::default(), SECOND / 50, true);
    assert_eq!(controller.velocity, Vec3::new(1_000_000, 4_607_600, 3));
}

#[test]
fn sink_threshold_is_a_hundredth_of_a_squared_unit() {
    // gravity of one unit down: the velocity against it is just the velocity up
    let gravity = Gravity(Vec3::new(0, -1_000_000, 0));
    // a hair less than a hundredth of a unit up: not enough to leave the ground
    let mut controller = moving(Vec3::new(7, 9_999, 0));
    gravity_system(&mut controller, &gravity, 0, true);
    assert_eq!(controller.velocity, Vec3::new(7, 0, 0));
    // exactly a hundredth of a unit up: kept
    let mut controller = moving(Vec3::new(7, 10_000, 0));
    gravity_system(&mut controller, &gravity, 0, true);
    assert_eq!(controller.velocity, Vec3::new(7, 10_000, 0));
}

#[test]
fn gravity_leaves_what_is_not_finite() {
    let mut controller = moving(Vec3::new(i64::MAX, 0, 0));
    gravity_system(&mut controller, &Gravity::default(), SECOND, true);
    assert_eq!(controller.velocity, Vec3::new(i64::MAX, 0, 0));
    let mut controller = moving(Vec3::new(1, 2, 3));
    gravity_system(&mut controller, &Gravity(Vec3::new(0, i64::MIN, 0)), SECOND, false);
    assert_eq!(controller.velocity, Vec3::new(1, 2, 3));
    let edge = Vec3::new(0, -(1i64 << 41), 0);
    let mut controller = moving(edge);
    gravity_system(&mut controller, &Gravity::default(), SECOND, false);
    assert_eq!(controller.velocity, edge);
    let mut controller = moving(Vec3::new(1, 2, 3));
    gravity_system(&mut controller, &Gravity::default(), i64::MAX, false);
    assert_eq!(controller.velocity, Vec3::new(1, 2, 3));
}
