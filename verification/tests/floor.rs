use character_controller::cast::{Capsule, HitRecord};
use character_controller::fixed::ONE;
use character_controller::kinematic_controller::{
    depenetrate, depenetration_cast, floor_cast, is_walkable, update_kinematic_character_controller,
    update_kinematic_floor, update_kinematic_grounding, KCCFloorDetection, KCCFloorSnap,
    KCCGrounded, KinematicCharacterController, DEPENETRATION_EPSILON,
};
use character_controller::vector::Vec3;

const COS_45: i64 = 707_107;

fn up() -> Vec3 {
    Vec3::new(0, ONE, 0)
}

fn probe_down() -> KCCFloorDetection {
    KCCFloorDetection { ground_direction: Vec3::new(0, -ONE, 0), ..KCCFloorDetection::default() }
}

fn hit(normal: Vec3, time_of_impact: i64) -> Option<HitRecord> {
    Some(HitRecord { normal, time_of_impact, distance: time_of_impact })
}

#[test]
fn controller_defaults() {
    let controller = KinematicCharacterController::default();
    assert_eq!(controller.prev_velocity, Vec3::zero());
    assert_eq!(controller.velocity, Vec3::zero());
    assert_eq!(controller.up, Vec3::new(0, 1_000_000, 0));
    assert_eq!(controller.bounces, 4);
    assert_eq!(controller.collider, Capsule { radius: 400_000, length: 800_000 });
    assert_eq!(controller.skin_padding, 10_000);
    assert_eq!(controller.max_slope_cosine, 707_107);
    assert_eq!(controller.depenetration, Some(Vec3::new(0, -1_000_000, 0)));
}

#[test]
fn floor_detection_defaults() {
    let floor = KCCFloorDetection::default();
    assert_eq!(floor.prev_floor_normal, Vec3::zero());
    assert_eq!(floor.floor_normal, Vec3::zero());
    assert_eq!(floor.ground_direction, Vec3::new(0, 1_000_000, 0));
    assert_eq!(floor.floor_collider, Capsule { radius: 400_000, length: 800_000 });
    assert_eq!(floor.floor_distance, 0);
    assert_eq!(floor.max_floor_distance, 100_000);
}

#[test]
fn a_character_starts_in_the_air() {
    let grounded = KCCGrounded::default();
    assert!(!grounded.grounded);
    assert!(!grounded.prev_grounded);
    assert_eq!(KCCFloorSnap::default(), KCCFloorSnap);
}

#[test]
fn controller_update_keeps_the_velocity_as_history() {
    let mut controller = KinematicCharacterController::default();
    controller.velocity = Vec3::new(1, 2, 3);
    controller.prev_velocity = Vec3::new(9, 9, 9);
    update_kinematic_character_controller(&mut controller);
    assert_eq!(controller.prev_velocity, Vec3::new(1, 2, 3));
    assert_eq!(controller.velocity, Vec3::new(1, 2, 3));
    assert_eq!(controller.bounces, 4);
}

#[test]
fn floor_cast_sweeps_the_probe_along_the_ground_direction() {
    let floor = probe_down();
    let request = floor_cast(floor, Vec3::new(1, 2, 3));
    assert_eq!(request.shape, floor.floor_collider);
    assert_eq!(request.origin, Vec3::new(1, 2, 3));
    assert_eq!(request.direction, Vec3::new(0, -ONE, 0));
    assert_eq!(request.max_distance, 100_000);
    assert!(request.ignore_origin_penetration);
    assert!(!request.use_rotation);
    assert!(request.exclude_caster);
}

#[test]
fn floor_hit_is_stored() {
    let mut floor = probe_down();
    update_kinematic_floor(&mut floor, hit(up(), 50_000));
    assert_eq!(floor.floor_normal, up());
    assert_eq!(floor.floor_distance, 50_000);
    assert_eq!(floor.prev_floor_normal, Vec3::zero());
    let slope = Vec3::new(0, 800_000, 600_000);
    update_kinematic_floor(&mut floor, hit(slope, 0));
    assert_eq!(floor.floor_normal, slope);
    assert_eq!(floor.floor_distance, 0);
    assert_eq!(floor.prev_floor_normal, up());
}

#[test]
fn no_floor_leaves_the_zero_normal() {
    let mut floor = probe_down();
    update_kinematic_floor(&mut floor, hit(up(), 50_000));
    update_kinematic_floor(&mut floor, None);
    assert_eq!(floor.floor_normal, Vec3::zero());
    assert_eq!(floor.prev_floor_normal, up());
    assert_eq!(floor.floor_distance, 50_000);
    update_kinematic_floor(&mut floor, None);
    assert_eq!(floor.floor_normal, Vec3::zero());
    assert_eq!(floor.prev_floor_normal, Vec3::zero());
}

#[test]
fn floor_beyond_the_probe_range_is_no_floor() {
    let mut floor = probe_down();
    update_kinematic_floor(&mut floor, hit(up(), 100_000));
    assert_eq!(floor.floor_normal, up());
    update_kinematic_floor(&mut floor, hit(up(), 100_001));
    assert_eq!(floor.floor_normal, Vec3::zero());
    update_kinematic_floor(&mut floor, hit(up(), -1));
    assert_eq!(floor.floor_normal, Vec3::zero());
    update_kinematic_floor(&mut floor, hit(Vec3::zero(), 10));
    assert_eq!(floor.floor_normal, Vec3::zero());
    update_kinematic_floor(&mut floor, hit(Vec3::new(0, 2 * ONE, 0), 10));
    assert_eq!(floor.floor_normal, Vec3::zero());
}

#[test]
fn slope_gate_at_forty_five_degrees() {
    // level ground
    assert!(is_walkable(up(), up(), COS_45));
    // 30 degrees: (0, cos 30, sin 30)
    assert!(is_walkable(Vec3::new(0, 866_025, 500_000), up(), COS_45));
    // 44 degrees
    assert!(is_walkable(Vec3::new(694_658, 719_340, 0), up(), COS_45));
    // 46 degrees
    assert!(!is_walkable(Vec3::new(719_340, 694_658, 0), up(), COS_45));
    // 60 degrees
    assert!(!is_walkable(Vec3::new(0, 500_000, 866_025), up(), COS_45));
    // a wall, a ceiling, no floor at all
    assert!(!is_walkable(Vec3::new(ONE, 0, 0), up(), COS_45));
    assert!(!is_walkable(Vec3::new(0, -ONE, 0), up(), COS_45));
    assert!(!is_walkable(Vec3::zero(), up(), COS_45));
}

#[test]
fn slope_gate_does_not_need_unit_lengths() {
    // the same 30 degrees, with a normal of half the length and an up of a tenth
    assert!(is_walkable(Vec3::new(0, 433_013, 250_000), Vec3::new(0, 100_000, 0), COS_45));
    assert!(!is_walkable(Vec3::new(0, 250_000, 433_013), Vec3::new(0, 100_000, 0), COS_45));
}

#[test]
fn slope_gate_limits() {
    // a limit of 90 degrees takes every floor that does not face down
    assert!(is_walkable(Vec3::new(ONE, 0, 0), up(), 0));
    assert!(is_walkable(Vec3::new(999_999, 1, 0), up(), 0));
    assert!(!is_walkable(Vec3::new(999_999, -1, 0), up(), 0));
    // a limit of 0 degrees takes only a floor that faces straight up
    assert!(is_walkable(up(), up(), ONE));
    assert!(is_walkable(Vec3::new(0, 500_000, 0), up(), ONE));
    assert!(!is_walkable(Vec3::new(1, ONE, 0), up(), ONE));
}

#[test]
fn grounding_follows_the_floor() {
    let controller = KinematicCharacterController::default();
    let mut floor = probe_down();
    let mut grounded = KCCGrounded::default();
    update_kinematic_floor(&mut floor, hit(up(), 50_000));
    update_kinematic_grounding(&mut grounded, &floor, &controller);
    assert!(grounded.grounded);
    assert!(!grounded.prev_grounded);
    // a slope too steep to walk on
    update_kinematic_floor(&mut floor, hit(Vec3::new(0, 500_000, 866_025), 50_000));
    update_kinematic_grounding(&mut grounded, &floor, &controller);
    assert!(!grounded.grounded);
    assert!(grounded.prev_grounded);
    update_kinematic_floor(&mut floor, None);
    update_kinematic_grounding(&mut grounded, &floor, &controller);
    assert!(!grounded.grounded);
    assert!(!grounded.prev_grounded);
}

#[test]
fn prev_grounded_is_grounded_of_the_tick_before() {
    let controller = KinematicCharacterController::default();
    let mut floor = probe_down();
    let mut grounded = KCCGrounded::default();
    let floors = [true, true, false, true, false, false, true];
    let mut last = grounded.grounded;
    for on_floor in floors {
        let answer = if on_floor { hit(up(), 0) } else { None };
        update_kinematic_floor(&mut floor, answer);
        update_kinematic_grounding(&mut grounded, &floor, &controller);
        assert_eq!(grounded.prev_grounded, last);
        assert_eq!(grounded.grounded, on_floor);
        last = grounded.grounded;
    }
}

#[test]
fn depenetration_cast_has_no_length() {
    let controller = KinematicCharacterController::default();
    let request = match depenetration_cast(controller, Vec3::new(1, 2, 3)) {
        Some(request) => request,
        None => panic!("the default controller tests for overlap"),
    };
    assert_eq!(request.shape, controller.collider);
    assert_eq!(request.origin, Vec3::new(1, 2, 3));
    assert_eq!(request.direction, Vec3::new(0, -ONE, 0));
    assert_eq!(request.max_distance, 0);
    assert!(!request.ignore_origin_penetration);
    assert!(request.use_rotation);
    assert!(request.exclude_caster);
    let without = KinematicCharacterController { depenetration: None, ..controller };
    assert!(depenetration_cast(without, Vec3::zero()).is_none());
}

#[test]
fn depenetrate_pushes_out_along_the_normal() {
    assert_eq!(DEPENETRATION_EPSILON, 1_000);
    let start = Vec3::new(10, 20, 30);
    assert_eq!(depenetrate(start, None), start);
    assert_eq!(depenetrate(start, hit(up(), 0)), Vec3::new(10, 1_020, 30));
    assert_eq!(depenetrate(start, hit(up(), 49_000)), Vec3::new(10, 50_020, 30));
    let slope = Vec3::new(-600_000, 800_000, 0);
    assert_eq!(depenetrate(start, hit(slope, 9_000)), Vec3::new(-5_990, 8_020, 30));
}

#[test]
fn depenetrate_passes_over_what_it_cannot_use() {
    let start = Vec3::new(10, 20, 30);
    assert_eq!(depenetrate(start, hit(Vec3::zero(), 0)), start);
    assert_eq!(depenetrate(start, hit(up(), -1)), start);
    assert_eq!(depenetrate(start, hit(up(), ONE + 1)), start);
    let edge = Vec3::new(0, (1i64 << 41) - 500, 0);
    assert_eq!(depenetrate(edge, hit(up(), 0)), edge);
}
