//! What the controller asks of the spatial query provider, and what it takes back.
//!
//! The controller never casts a shape itself. It hands out a `CastRequest`, the
//! caller sweeps the shape through the world, leaving the character itself out,
//! and hands back the first hit, if there is one.
use vstd::prelude::*;
use crate::vector::Vec3;

verus! {

/// A capsule collider: the radius of its caps and the length of its middle part.
#[derive(Clone, Copy, Debug, PartialEq, Eq, Structural)]
pub struct Capsule {
    pub radius: i64,
    pub length: i64,
}

/// One shape cast: sweep `shape` from `origin` along `direction`, for at most
/// `max_distance` lengths of `direction`. A `max_distance` of zero is a pure
/// overlap test.
#[derive(Clone, Copy, Debug)]
pub struct CastRequest {
    pub shape: Capsule,
    pub origin: Vec3,
    pub direction: Vec3,
    pub max_distance: i64,
    /// Whether a shape that already overlaps at `origin` is to be passed over.
    pub ignore_origin_penetration: bool,
    /// Whether the shape is cast turned as the character is turned, or upright.
    pub use_rotation: bool,
    /// Whether the character that casts is to be left out of the query.
    pub exclude_caster: bool,
}

/// The first contact of a shape cast.
#[derive(Clone, Copy, Debug)]
pub struct HitRecord {
    /// Normal of the surface that was hit, pointing away from it.
    pub normal: Vec3,
    /// How far the shape travelled before the contact, in lengths of the request's
    /// `direction`: a fraction of the sweep where `max_distance` is `ONE`.
    pub time_of_impact: i64,
    /// Length of the path travelled before the contact, in world units.
    pub distance: i64,
}

impl HitRecord {
    /// Whether the record can answer a cast of at most `max_distance`: its normal is
    /// a direction, and the contact lies within the sweep.
    pub open spec fn spec_is_valid_for(self, max_distance: i64) -> bool {
        self.normal.is_direction() && 0 <= self.time_of_impact <= max_distance && 0
            <= self.distance
    }

    #[verifier::when_used_as_spec(spec_is_valid_for)]
    pub fn is_valid_for(self, max_distance: i64) -> (b: bool)
        ensures
            b == self.spec_is_valid_for(max_distance),
    {
        self.normal.is_direction() && 0 <= self.time_of_impact && self.time_of_impact
            <= max_distance && 0 <= self.distance
    }
}

/// The hit that counts for a cast of at most `max_distance`: a record that cannot
/// answer such a cast is taken for no hit at all.
pub open spec fn usable_hit(hit: Option<HitRecord>, max_distance: i64) -> Option<HitRecord> {
    match hit {
        Some(h) => if h.is_valid_for(max_distance) {
            Some(h)
        } else {
            None
        },
        None => None,
    }
}

} // verus!
