use character_controller::fixed::{div_round, mul_div, COORD_MAX, ONE};
use character_controller::vector::{project_onto_plane, Vec3};

#[test]
fn one_world_unit_is_a_million_raw_units() {
    assert_eq!(ONE, 1_000_000);
    assert_eq!(COORD_MAX, 1i64 << 41);
}

#[test]
fn division_rounds_to_nearest_with_halves_away_from_zero() {
    assert_eq!(div_round(7, 2), 4);
    assert_eq!(div_round(-7, 2), -4);
    assert_eq!(div_round(5, 3), 2);
    assert_eq!(div_round(4, 3), 1);
    assert_eq!(div_round(-4, 3), -1);
    assert_eq!(div_round(-5, 3), -2);
    assert_eq!(div_round(0, 9), 0);
    assert_eq!(div_round(12, 4), 3);
}

#[test]
fn mul_div_scales_and_rounds() {
    assert_eq!(mul_div(5_000_000, 16_667, ONE), Some(83_335));
    assert_eq!(mul_div(1, 1, 2), Some(1));
    assert_eq!(mul_div(-1, 1, 2), Some(-1));
    assert_eq!(mul_div(1, 1, 3), Some(0));
    assert_eq!(mul_div(-3, 5, 1), Some(-15));
}

#[test]
fn mul_div_gives_nothing_beyond_the_finite_range() {
    assert_eq!(mul_div(COORD_MAX, 1, 1), Some(COORD_MAX));
    assert_eq!(mul_div(COORD_MAX, 2, 1), None);
    assert_eq!(mul_div(-COORD_MAX, 2, 1), None);
    assert_eq!(mul_div(i64::MAX, i64::MAX, 1), None);
    assert_eq!(mul_div(i64::MIN, i64::MIN, 1), None);
    assert_eq!(mul_div(i64::MIN, 1, i64::MAX), Some(-1));
}

#[test]
fn finite_means_every_component_within_the_range() {
    assert!(Vec3::new(COORD_MAX, -COORD_MAX, 0).is_finite());
    assert!(!Vec3::new(COORD_MAX + 1, 0, 0).is_finite());
    assert!(!Vec3::new(0, i64::MIN, 0).is_finite());
    assert!(!Vec3::new(0, 0, i64::MAX).is_finite());
}

#[test]
fn zero_and_direction_are_told_apart() {
    assert!(Vec3::zero().is_zero());
    assert_eq!(Vec3::zero(), Vec3::new(0, 0, 0));
    assert!(!Vec3::new(0, 1, 0).is_zero());
    assert!(Vec3::new(0, ONE, 0).is_direction());
    assert!(Vec3::new(-600_000, 800_000, 0).is_direction());
    assert!(!Vec3::zero().is_direction());
    assert!(!Vec3::new(0, ONE + 1, 0).is_direction());
}

#[test]
fn dot_and_length_squared_are_exact() {
    let a = Vec3::new(1, 2, 3);
    let b = Vec3::new(-4, 5, 6);
    assert_eq!(a.dot(b), 24);
    assert_eq!(a.length_squared(), 14);
    assert_eq!(Vec3::zero().length_squared(), 0);
    let big = Vec3::new(COORD_MAX, COORD_MAX, COORD_MAX);
    assert_eq!(big.length_squared(), 3 * (COORD_MAX as i128) * (COORD_MAX as i128));
}

#[test]
fn cross_follows_the_right_hand_rule() {
    let x = Vec3::new(ONE, 0, 0);
    let y = Vec3::new(0, ONE, 0);
    assert_eq!(x.cross(y), Some(Vec3::new(0, 0, ONE * ONE)));
    assert_eq!(y.cross(x), Some(Vec3::new(0, 0, -ONE * ONE)));
    assert_eq!(x.cross(x), Some(Vec3::zero()));
    assert_eq!(Vec3::new(1, 2, 3).cross(Vec3::new(4, 5, 6)), Some(Vec3::new(-3, 6, -3)));
}

#[test]
fn cross_gives_nothing_beyond_the_finite_range() {
    let a = Vec3::new(COORD_MAX, 0, 0);
    let b = Vec3::new(0, COORD_MAX, 0);
    assert_eq!(a.cross(b), None);
}

#[test]
fn checked_add_and_sub_watch_the_range() {
    let a = Vec3::new(1, -2, 3);
    let b = Vec3::new(10, 20, -30);
    assert_eq!(a.checked_add(b), Some(Vec3::new(11, 18, -27)));
    assert_eq!(a.checked_sub(b), Some(Vec3::new(-9, -22, 33)));
    assert_eq!(Vec3::new(COORD_MAX, 0, 0).checked_add(Vec3::new(1, 0, 0)), None);
    assert_eq!(Vec3::new(-COORD_MAX, 0, 0).checked_sub(Vec3::new(1, 0, 0)), None);
    assert_eq!(Vec3::new(i64::MAX, 0, 0).checked_add(Vec3::new(i64::MAX, 0, 0)), None);
    assert_eq!(
        Vec3::new(i64::MAX, 0, 0).checked_sub(Vec3::new(i64::MAX - 5, 0, 0)),
        Some(Vec3::new(5, 0, 0))
    );
}

#[test]
fn scale_multiplies_by_a_ratio() {
    let v = Vec3::new(5_000_000, -2_000_000, 1);
    assert_eq!(v.scale(500_000, ONE), Some(Vec3::new(2_500_000, -1_000_000, 1)));
    assert_eq!(v.scale(0, ONE), Some(Vec3::zero()));
    assert_eq!(v.scale(ONE, ONE), Some(v));
    assert_eq!(Vec3::new(COORD_MAX, 0, 0).scale(2, 1), None);
}

#[test]
fn project_onto_keeps_the_part_along_the_axis() {
    let v = Vec3::new(3_000_000, 4_000_000, 0);
    assert_eq!(v.project_onto(Vec3::new(ONE, 0, 0)), Some(Vec3::new(3_000_000, 0, 0)));
    assert_eq!(v.project_onto(Vec3::new(0, 2, 0)), Some(Vec3::new(0, 4_000_000, 0)));
    assert_eq!(v.project_onto(Vec3::new(0, 0, -7)), Some(Vec3::zero()));
    assert_eq!(v.project_onto(Vec3::zero()), Some(Vec3::zero()));
    // (3, 4, 0) onto (1, 1, 0): 3.5 along each of the two axes
    assert_eq!(
        v.project_onto(Vec3::new(ONE, ONE, 0)),
        Some(Vec3::new(3_500_000, 3_500_000, 0))
    );
}

#[test]
fn project_onto_rounds_each_component() {
    // (1, 0, 0) onto (1, 2, 0): (0.2, 0.4, 0), which rounds to nothing
    assert_eq!(Vec3::new(1, 0, 0).project_onto(Vec3::new(1, 2, 0)), Some(Vec3::zero()));
    // (10, 0, 0) onto (1, 2, 0): (2, 4, 0)
    assert_eq!(Vec3::new(10, 0, 0).project_onto(Vec3::new(1, 2, 0)), Some(Vec3::new(2, 4, 0)));
    // (3, 0, 0) onto (1, 1, 0): (1.5, 1.5, 0), halves away from zero
    assert_eq!(Vec3::new(3, 0, 0).project_onto(Vec3::new(1, 1, 0)), Some(Vec3::new(2, 2, 0)));
    assert_eq!(Vec3::new(-3, 0, 0).project_onto(Vec3::new(1, 1, 0)), Some(Vec3::new(-2, -2, 0)));
}

#[test]
fn project_onto_plane_removes_the_part_along_the_normal() {
    let v = Vec3::new(3_000_000, -4_000_000, 5_000_000);
    let up = Vec3::new(0, ONE, 0);
    assert_eq!(project_onto_plane(v, up), Some(Vec3::new(3_000_000, 0, 5_000_000)));
    let left = Vec3::new(-ONE, 0, 0);
    assert_eq!(project_onto_plane(v, left), Some(Vec3::new(0, -4_000_000, 5_000_000)));
    // a slope of 45 degrees: (1, 0, 0) against (-1, 1, 0) leaves (0.5, 0.5, 0)
    let slope = Vec3::new(-ONE, ONE, 0);
    assert_eq!(
        project_onto_plane(Vec3::new(ONE, 0, 0), slope),
        Some(Vec3::new(500_000, 500_000, 0))
    );
}

#[test]
fn project_onto_plane_gives_nothing_for_what_is_not_finite() {
    let up = Vec3::new(0, ONE, 0);
    assert_eq!(project_onto_plane(Vec3::new(i64::MAX, 0, 0), up), None);
    assert_eq!(project_onto_plane(Vec3::new(1, 2, 3), Vec3::new(0, i64::MIN, 0)), None);
    assert_eq!(project_onto_plane(Vec3::new(1, 2, 3), Vec3::zero()), Some(Vec3::new(1, 2, 3)));
}

#[test]
fn project_onto_plane_of_a_square_velocity_is_zero() {
    let normal = Vec3::new(-600_000, 800_000, 0);
    let into = Vec3::new(3_000_000, -4_000_000, 0);
    assert_eq!(project_onto_plane(into, normal), Some(Vec3::zero()));
    let away = Vec3::new(-3, 4, 0);
    assert_eq!(project_onto_plane(away, normal), Some(Vec3::zero()));
}
