//! The forces that act on a character's velocity before its tick: gravity, and
//! the dampening of what runs along the ground.
use vstd::prelude::*;
use crate::fixed::{ONE, finite_or_none, mul_div, round_div};
use crate::kinematic_controller::KinematicCharacterController;
use crate::vector::{Vec3, add_spec, dot_spec, scale_spec};

verus! {

/// A grounded character keeps its velocity along `y` only where the velocity goes
/// against gravity by at least this much: a hundredth of a squared unit, in raw units.
pub const SINK_THRESHOLD: i128 = 10_000_000_000;

/// The pull of the default gravity along `y`: twice that of the earth.
pub const DEFAULT_GRAVITY: i64 = -19_620_000;

/// The acceleration that pulls a character down.
#[derive(Clone, Copy, Debug)]
pub struct Gravity(pub Vec3);

impl Default for Gravity {
    fn default() -> (gravity: Self)
        ensures
            gravity.0 == (Vec3 { x: 0, y: DEFAULT_GRAVITY, z: 0 }),
    {
        Gravity(Vec3::new(0, DEFAULT_GRAVITY, 0))
    }
}

/// Nine tenths of a component, rounded; the component itself where that is not finite.
pub open spec fn dampened(component: i64) -> i64 {
    match finite_or_none(round_div(component * 9, 10)) {
        Some(less) => less,
        None => component,
    }
}

/// Takes a tenth off what the velocity has along `x` and `z`.
pub fn velocity_dampening(controller: &mut KinematicCharacterController)
    ensures
        *final(controller) == (KinematicCharacterController {
            velocity: Vec3 {
                x: dampened(old(controller).velocity.x),
                y: old(controller).velocity.y,
                z: dampened(old(controller).velocity.z),
            },
            ..*old(controller)
        }),
{
    match mul_div(controller.velocity.x, 9, 10) {
        Some(less) => {
            controller.velocity.x = less;
        },
        None => {},
    }
    match mul_div(controller.velocity.z, 9, 10) {
        Some(less) => {
            controller.velocity.z = less;
        },
        None => {},
    }
}

/// A velocity after gravity has pulled on it for `dt`. A grounded character does not
/// sink: unless its velocity then goes against gravity by the sink threshold or
/// more, as in a jump, it loses what it has along `y`. Where the velocity, the
/// gravity or their sum is not finite, the velocity is left as it is.
pub open spec fn with_gravity(velocity: Vec3, gravity: Vec3, dt: int, grounded: bool) -> Vec3 {
    if velocity.is_finite() && gravity.is_finite() {
        match scale_spec(gravity, dt, ONE as int) {
            Some(pull) => match add_spec(velocity, pull) {
                Some(pulled) => if grounded && dot_spec(gravity, pulled) > -SINK_THRESHOLD {
                    Vec3 { y: 0, ..pulled }
                } else {
                    pulled
                },
                None => velocity,
            },
            None => velocity,
        }
    } else {
        velocity
    }
}

/// Lets gravity pull on a character's velocity for `dt`.
pub fn gravity_system(
    controller: &mut KinematicCharacterController,
    gravity: &Gravity,
    dt: i64,
    grounded: bool,
)
    ensures
        *final(controller) == (KinematicCharacterController {
            velocity: with_gravity(old(controller).velocity, gravity.0, dt as int, grounded),
            ..*old(controller)
        }),
{
    if !controller.velocity.is_finite() || !gravity.0.is_finite() {
        return ;
    }
    let pulled = match gravity.0.scale(dt, ONE) {
        Some(pull) => controller.velocity.checked_add(pull),
        None => None,
    };
    match pulled {
        Some(v) => {
            controller.velocity = v;
            if grounded && gravity.0.dot(v) > -SINK_THRESHOLD {
                controller.velocity.y = 0;
            }
        },
        None => {},
    }
}

} // verus!
