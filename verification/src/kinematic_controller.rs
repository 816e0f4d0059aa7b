//! The state a kinematic character carries from tick to tick, and the updates that
//! follow the slide: the velocity history, the floor under the character and
//! whether it stands on it.
//!
//! All items here are prefixed with `KCC` or `Kinematic` to keep them apart from
//! the components of other controllers.
use vstd::prelude::*;
use crate::cast::{Capsule, CastRequest, HitRecord, usable_hit};
use crate::fixed::{MINUS_ONE, ONE, lemma_product_bound};
use crate::vector::{Vec3, add_spec, dot_spec, scale_spec};

verus! {

/// How far a character is pushed beyond the surface it overlaps: a thousandth of a unit.
pub const DEPENETRATION_EPSILON: i64 = 1_000;

/// The core state of a kinematic character controller.
#[derive(Clone, Copy, Debug)]
pub struct KinematicCharacterController {
    /// The velocity the last tick resolved to.
    pub prev_velocity: Vec3,
    /// The velocity we have this tick.
    pub velocity: Vec3,
    /// The up vector of the character.
    pub up: Vec3,
    /// How many times the collider will "bounce" off of surfaces in one tick.
    pub bounces: u32,
    /// The collider that represents the shape of this character.
    pub collider: Capsule,
    /// The margin kept between the collider and a surface, as a fraction of a sweep.
    pub skin_padding: i64,
    /// Cosine of the steepest slope that still counts as floor.
    pub max_slope_cosine: i64,
    /// The direction of the overlap test that follows the slide, if there is to be one.
    pub depenetration: Option<Vec3>,
}

impl KinematicCharacterController {
    /// The configuration is in order: `up` is a direction, there is a bounce to spend,
    /// the padding is no less than nothing and the slope limit lies between level
    /// ground and a wall.
    pub open spec fn wf(self) -> bool {
        &&& self.up.is_direction()
        &&& self.bounces >= 1
        &&& self.skin_padding >= 0
        &&& 0 <= self.max_slope_cosine <= ONE
        &&& self.depenetration matches Some(d) ==> d.is_direction()
    }

    /// Tests whether the configuration is in order.
    pub fn is_valid(&self) -> (b: bool)
        ensures
            b == self.wf(),
    {
        let overlap_test = match self.depenetration {
            Some(d) => d.is_direction(),
            None => true,
        };
        self.up.is_direction() && self.bounces >= 1 && self.skin_padding >= 0 && 0
            <= self.max_slope_cosine && self.max_slope_cosine <= ONE && overlap_test
    }
}

impl Default for KinematicCharacterController {
    fn default() -> (controller: Self)
        ensures
            controller == (KinematicCharacterController {
                prev_velocity: Vec3::zero(),
                velocity: Vec3::zero(),
                up: Vec3 { x: 0, y: ONE, z: 0 },
                bounces: 4,
                collider: Capsule { radius: 400_000, length: 800_000 },
                skin_padding: 10_000,
                max_slope_cosine: 707_107,
                depenetration: Some(Vec3 { x: 0, y: MINUS_ONE, z: 0 }),
            }),
            controller.wf(),
    {
        KinematicCharacterController {
            prev_velocity: Vec3::zero(),
            velocity: Vec3::zero(),
            up: Vec3::new(0, ONE, 0),
            bounces: 4,
            collider: Capsule { radius: 400_000, length: 800_000 },
            skin_padding: 10_000,
            max_slope_cosine: 707_107,
            depenetration: Some(Vec3::new(0, MINUS_ONE, 0)),
        }
    }
}

/// Grounding state of a character. A character starts in the air.
#[derive(Clone, Copy, Debug, PartialEq, Eq, Structural)]
pub struct KCCGrounded {
    /// Is this character currently grounded?
    pub grounded: bool,
    /// Was this character grounded last tick?
    pub prev_grounded: bool,
}

impl Default for KCCGrounded {
    fn default() -> (state: Self)
        ensures
            state == (KCCGrounded { grounded: false, prev_grounded: false }),
    {
        KCCGrounded { grounded: false, prev_grounded: false }
    }
}

/// Floor detection of a character: the probe that is cast for the floor and what
/// the last cast found.
#[derive(Clone, Copy, Debug)]
pub struct KCCFloorDetection {
    /// Normal of the floor we were on last tick, zero if there was none.
    pub prev_floor_normal: Vec3,
    /// Normal of the floor we are currently standing on, zero if there is none.
    pub floor_normal: Vec3,
    /// Direction in which the floor is looked for.
    pub ground_direction: Vec3,
    /// The collider that is cast for the floor.
    pub floor_collider: Capsule,
    /// The distance from the floor that this character is currently at.
    pub floor_distance: i64,
    /// How far from the floor this character can be before it counts as off it.
    pub max_floor_distance: i64,
}

impl KCCFloorDetection {
    /// The probe is in order, and each normal is either zero or a direction.
    pub open spec fn wf(self) -> bool {
        &&& self.ground_direction.is_direction()
        &&& self.max_floor_distance >= 0
        &&& self.floor_normal.is_zero() || self.floor_normal.is_direction()
        &&& self.prev_floor_normal.is_zero() || self.prev_floor_normal.is_direction()
    }

    /// Tests whether the floor detection is in order.
    pub fn is_valid(&self) -> (b: bool)
        ensures
            b == self.wf(),
    {
        self.ground_direction.is_direction() && self.max_floor_distance >= 0 && (
        self.floor_normal.is_zero() || self.floor_normal.is_direction()) && (
        self.prev_floor_normal.is_zero() || self.prev_floor_normal.is_direction())
    }
}

impl Default for KCCFloorDetection {
    fn default() -> (floor: Self)
        ensures
            floor == (KCCFloorDetection {
                prev_floor_normal: Vec3::zero(),
                floor_normal: Vec3::zero(),
                ground_direction: Vec3 { x: 0, y: ONE, z: 0 },
                floor_collider: Capsule { radius: 400_000, length: 800_000 },
                floor_distance: 0,
                max_floor_distance: 100_000,
            }),
            floor.wf(),
    {
        KCCFloorDetection {
            prev_floor_normal: Vec3::zero(),
            floor_normal: Vec3::zero(),
            ground_direction: Vec3::new(0, ONE, 0),
            floor_collider: Capsule { radius: 400_000, length: 800_000 },
            floor_distance: 0,
            max_floor_distance: 100_000,
        }
    }
}

/// Marks a character that is to be snapped to the floor it stands on.
#[derive(Clone, Copy, Debug, Default, PartialEq, Eq, Structural)]
pub struct KCCFloorSnap;

/// Closes the velocity's tick: what the tick resolved to becomes the history that
/// the next tick can read.
pub fn update_kinematic_character_controller(controller: &mut KinematicCharacterController)
    ensures
        *final(controller) == (KinematicCharacterController {
            prev_velocity: old(controller).velocity,
            ..*old(controller)
        }),
{
    controller.prev_velocity = controller.velocity;
}

/// The cast that looks for the floor under a character at `position`: the probe,
/// upright, swept along the ground direction for the probe range, with overlap at
/// the start allowed and the character itself left out.
pub open spec fn floor_cast_spec(floor: KCCFloorDetection, position: Vec3) -> CastRequest {
    CastRequest {
        shape: floor.floor_collider,
        origin: position,
        direction: floor.ground_direction,
        max_distance: floor.max_floor_distance,
        ignore_origin_penetration: true,
        use_rotation: false,
        exclude_caster: true,
    }
}

#[verifier::when_used_as_spec(floor_cast_spec)]
pub fn floor_cast(floor: KCCFloorDetection, position: Vec3) -> (request: CastRequest)
    ensures
        request == floor_cast_spec(floor, position),
{
    CastRequest {
        shape: floor.floor_collider,
        origin: position,
        direction: floor.ground_direction,
        max_distance: floor.max_floor_distance,
        ignore_origin_penetration: true,
        use_rotation: false,
        exclude_caster: true,
    }
}

/// The floor detection after the answer to its cast: the last normal becomes
/// history; a hit within the probe range gives the floor's normal and distance,
/// and anything else leaves the zero normal that stands for no floor.
pub open spec fn floor_after(floor: KCCFloorDetection, hit: Option<HitRecord>) -> KCCFloorDetection {
    match usable_hit(hit, floor.max_floor_distance) {
        Some(h) => KCCFloorDetection {
            prev_floor_normal: floor.floor_normal,
            floor_normal: h.normal,
            floor_distance: h.time_of_impact,
            ..floor
        },
        None => KCCFloorDetection {
            prev_floor_normal: floor.floor_normal,
            floor_normal: Vec3::zero(),
            ..floor
        },
    }
}

/// Takes the answer to the floor cast. The floor normal is zero afterwards if and
/// only if no floor was found within the probe range.
pub fn update_kinematic_floor(floor: &mut KCCFloorDetection, hit: Option<HitRecord>)
    ensures
        *final(floor) == floor_after(*old(floor), hit),
        final(floor).floor_normal.is_zero() <==> usable_hit(hit, old(floor).max_floor_distance)
            is None,
        old(floor).wf() ==> final(floor).wf(),
{
    floor.prev_floor_normal = floor.floor_normal;
    match hit {
        Some(h) => {
            if h.is_valid_for(floor.max_floor_distance) {
                floor.floor_normal = h.normal;
                floor.floor_distance = h.time_of_impact;
            } else {
                floor.floor_normal = Vec3::zero();
            }
        },
        None => {
            floor.floor_normal = Vec3::zero();
        },
    }
}

/// Whether a floor with the given normal can be walked on: there is a floor, and
/// the angle between its normal and `up` is no more than the slope limit, whose
/// cosine is `max_slope_cosine`. The cosines are compared by their squares.
pub open spec fn walkable(normal: Vec3, up: Vec3, max_slope_cosine: int) -> bool {
    &&& !normal.is_zero()
    &&& dot_spec(normal, up) >= 0
    &&& dot_spec(normal, up) * dot_spec(normal, up) * ONE * ONE >= max_slope_cosine
        * max_slope_cosine * dot_spec(normal, normal) * dot_spec(up, up)
}

/// Decides whether a floor with the given normal can be walked on.
pub fn is_walkable(normal: Vec3, up: Vec3, max_slope_cosine: i64) -> (b: bool)
    requires
        normal.is_zero() || normal.is_direction(),
        up.is_direction(),
        0 <= max_slope_cosine <= ONE,
    ensures
        b == walkable(normal, up, max_slope_cosine as int),
{
    if normal.is_zero() {
        return false;
    }
    let along: i128 = normal.dot(up);
    let normal_sq: i128 = normal.length_squared();
    let up_sq: i128 = up.length_squared();
    let cosine: i128 = max_slope_cosine as i128;
    let one: i128 = ONE as i128;
    proof {
        let unit: int = 1_000_000;
        let unit2: int = 1_000_000_000_000;
        let unit4: int = 1_000_000_000_000_000_000_000_000;
        lemma_product_bound(normal.x as int, up.x as int, unit, unit);
        lemma_product_bound(normal.y as int, up.y as int, unit, unit);
        lemma_product_bound(normal.z as int, up.z as int, unit, unit);
        lemma_product_bound(normal.x as int, normal.x as int, unit, unit);
        lemma_product_bound(normal.y as int, normal.y as int, unit, unit);
        lemma_product_bound(normal.z as int, normal.z as int, unit, unit);
        lemma_product_bound(up.x as int, up.x as int, unit, unit);
        lemma_product_bound(up.y as int, up.y as int, unit, unit);
        lemma_product_bound(up.z as int, up.z as int, unit, unit);
        lemma_product_bound(along as int, along as int, 3 * unit2, 3 * unit2);
        lemma_product_bound(along * along, one as int, 9 * unit4, unit);
        lemma_product_bound(along * along * one, one as int, 9 * unit4 * 1_000_000, unit);
        lemma_product_bound(cosine as int, cosine as int, unit, unit);
        lemma_product_bound(cosine * cosine, normal_sq as int, unit2, 3 * unit2);
        lemma_product_bound(cosine * cosine * normal_sq, up_sq as int, 3 * unit4, 3 * unit2);
    }
    along >= 0 && along * along * one * one >= cosine * cosine * normal_sq * up_sq
}

/// The grounding after one update: what was current becomes history, and the
/// character is grounded if and only if the floor can be walked on.
pub open spec fn grounding_after(grounded: KCCGrounded, can_walk: bool) -> KCCGrounded {
    KCCGrounded { prev_grounded: grounded.grounded, grounded: can_walk }
}

/// Updates the grounding from the floor that was detected.
pub fn update_kinematic_grounding(
    grounded: &mut KCCGrounded,
    floor: &KCCFloorDetection,
    controller: &KinematicCharacterController,
)
    requires
        floor.wf(),
        controller.wf(),
    ensures
        *final(grounded) == grounding_after(
            *old(grounded),
            walkable(floor.floor_normal, controller.up, controller.max_slope_cosine as int),
        ),
{
    grounded.prev_grounded = grounded.grounded;
    grounded.grounded = is_walkable(floor.floor_normal, controller.up, controller.max_slope_cosine);
}

/// The cast that tests a character at `position` for overlap, if the controller is
/// set up to test: a cast of no length along the configured direction.
pub open spec fn depenetration_cast_spec(
    controller: KinematicCharacterController,
    position: Vec3,
) -> Option<CastRequest> {
    match controller.depenetration {
        Some(direction) => Some(
            CastRequest {
                shape: controller.collider,
                origin: position,
                direction,
                max_distance: 0,
                ignore_origin_penetration: false,
                use_rotation: true,
                exclude_caster: true,
            },
        ),
        None => None,
    }
}

#[verifier::when_used_as_spec(depenetration_cast_spec)]
pub fn depenetration_cast(controller: KinematicCharacterController, position: Vec3) -> (request:
    Option<CastRequest>)
    ensures
        request == depenetration_cast_spec(controller, position),
{
    match controller.depenetration {
        Some(direction) => Some(
            CastRequest {
                shape: controller.collider,
                origin: position,
                direction,
                max_distance: 0,
                ignore_origin_penetration: false,
                use_rotation: true,
                exclude_caster: true,
            },
        ),
        None => None,
    }
}

/// Where a character at `position` stands after the overlap test: pushed out along
/// the hit's normal by the time of impact and a little more, or where it stood if
/// nothing overlaps or the new position would not be finite.
pub open spec fn depenetrate_spec(position: Vec3, hit: Option<HitRecord>) -> Vec3 {
    match usable_hit(hit, ONE) {
        Some(h) => match scale_spec(h.normal, h.time_of_impact + DEPENETRATION_EPSILON, ONE as int) {
            Some(push) => match add_spec(position, push) {
                Some(moved) => moved,
                None => position,
            },
            None => position,
        },
        None => position,
    }
}

/// Pushes a character out of the surface that the overlap test found.
pub fn depenetrate(position: Vec3, hit: Option<HitRecord>) -> (moved: Vec3)
    ensures
        moved == depenetrate_spec(position, hit),
{
    match hit {
        Some(h) => {
            if h.is_valid_for(ONE) {
                match h.normal.scale(h.time_of_impact + DEPENETRATION_EPSILON, ONE) {
                    Some(push) => match position.checked_add(push) {
                        Some(moved) => moved,
                        None => position,
                    },
                    None => position,
                }
            } else {
                position
            }
        },
        None => position,
    }
}

} // verus!
