//! Three-dimensional fixed-point vectors and the projections that clip a
//! velocity against contact planes.
use vstd::prelude::*;
use crate::fixed::{COORD_MAX, ONE, div_round, in_range, lemma_product_bound, mul_div, round_div};

verus! {

/// A vector of three fixed-point components.
#[derive(Clone, Copy, Debug, PartialEq, Eq, Structural)]
pub struct Vec3 {
    pub x: i64,
    pub y: i64,
    pub z: i64,
}

/// The vector with the given components, where all three are finite.
pub open spec fn finite_vec(x: int, y: int, z: int) -> Option<Vec3> {
    if in_range(x) && in_range(y) && in_range(z) {
        Some(Vec3 { x: x as i64, y: y as i64, z: z as i64 })
    } else {
        None
    }
}

/// Dot product.
pub open spec fn dot_spec(a: Vec3, b: Vec3) -> int {
    a.x * b.x + a.y * b.y + a.z * b.z
}

/// Sum of two vectors, where it is finite.
pub open spec fn add_spec(a: Vec3, b: Vec3) -> Option<Vec3> {
    finite_vec(a.x + b.x, a.y + b.y, a.z + b.z)
}

/// Difference of two vectors, where it is finite.
pub open spec fn sub_spec(a: Vec3, b: Vec3) -> Option<Vec3> {
    finite_vec(a.x - b.x, a.y - b.y, a.z - b.z)
}

/// `v * num / den` by components, each rounded, where the result is finite.
pub open spec fn scale_spec(v: Vec3, num: int, den: int) -> Option<Vec3> {
    finite_vec(round_div(v.x * num, den), round_div(v.y * num, den), round_div(v.z * num, den))
}

/// Cross product by components, before any range check.
pub open spec fn cross_x(a: Vec3, b: Vec3) -> int {
    a.y * b.z - a.z * b.y
}

pub open spec fn cross_y(a: Vec3, b: Vec3) -> int {
    a.z * b.x - a.x * b.z
}

pub open spec fn cross_z(a: Vec3, b: Vec3) -> int {
    a.x * b.y - a.y * b.x
}

/// Cross product, where it is finite.
pub open spec fn cross_spec(a: Vec3, b: Vec3) -> Option<Vec3> {
    finite_vec(cross_x(a, b), cross_y(a, b), cross_z(a, b))
}

/// Projection of `v` onto the line through `axis`: `axis * (v . axis) / (axis . axis)`,
/// each component rounded; the zero vector where `axis` is zero.
pub open spec fn project_onto_spec(v: Vec3, axis: Vec3) -> Option<Vec3> {
    if axis.is_zero() {
        Some(Vec3::spec_zero())
    } else {
        finite_vec(
            round_div(axis.x * dot_spec(v, axis), dot_spec(axis, axis)),
            round_div(axis.y * dot_spec(v, axis), dot_spec(axis, axis)),
            round_div(axis.z * dot_spec(v, axis), dot_spec(axis, axis)),
        )
    }
}

/// What is left of `velocity` once its part along `plane`'s normal is taken out:
/// `velocity - plane * (velocity . plane) / (plane . plane)`.
pub open spec fn project_onto_plane_spec(velocity: Vec3, plane: Vec3) -> Option<Vec3> {
    match project_onto_spec(velocity, plane) {
        Some(along) => sub_spec(velocity, along),
        None => None,
    }
}

impl Vec3 {
    pub open spec fn spec_zero() -> Vec3 {
        Vec3 { x: 0, y: 0, z: 0 }
    }

    /// Every component is within the finite range.
    pub open spec fn spec_is_finite(self) -> bool {
        in_range(self.x as int) && in_range(self.y as int) && in_range(self.z as int)
    }

    /// All three components are zero.
    pub open spec fn spec_is_zero(self) -> bool {
        self.x == 0 && self.y == 0 && self.z == 0
    }

    /// A direction: not zero, and no component beyond one unit. The projections
    /// divide by the squared length, so a direction need not be of unit length exactly.
    pub open spec fn spec_is_direction(self) -> bool {
        !self.is_zero() && -ONE <= self.x <= ONE && -ONE <= self.y <= ONE && -ONE <= self.z <= ONE
    }

    pub fn new(x: i64, y: i64, z: i64) -> (v: Vec3)
        ensures
            v == (Vec3 { x, y, z }),
    {
        Vec3 { x, y, z }
    }

    #[verifier::when_used_as_spec(spec_zero)]
    pub fn zero() -> (v: Vec3)
        ensures
            v == Vec3::spec_zero(),
    {
        Vec3 { x: 0, y: 0, z: 0 }
    }

    #[verifier::when_used_as_spec(spec_is_finite)]
    pub fn is_finite(self) -> (b: bool)
        ensures
            b == self.spec_is_finite(),
    {
        -COORD_MAX <= self.x && self.x <= COORD_MAX && -COORD_MAX <= self.y && self.y <= COORD_MAX
            && -COORD_MAX <= self.z && self.z <= COORD_MAX
    }

    #[verifier::when_used_as_spec(spec_is_zero)]
    pub fn is_zero(self) -> (b: bool)
        ensures
            b == self.spec_is_zero(),
    {
        self.x == 0 && self.y == 0 && self.z == 0
    }

    #[verifier::when_used_as_spec(spec_is_direction)]
    pub fn is_direction(self) -> (b: bool)
        ensures
            b == self.spec_is_direction(),
    {
        !self.is_zero() && -ONE <= self.x && self.x <= ONE && -ONE <= self.y && self.y <= ONE
            && -ONE <= self.z && self.z <= ONE
    }

    /// Dot product of two finite vectors.
    pub fn dot(self, other: Vec3) -> (d: i128)
        requires
            self.is_finite(),
            other.is_finite(),
        ensures
            d == dot_spec(self, other),
    {
        proof {
            lemma_product_bound(self.x as int, other.x as int, COORD_MAX as int, COORD_MAX as int);
            lemma_product_bound(self.y as int, other.y as int, COORD_MAX as int, COORD_MAX as int);
            lemma_product_bound(self.z as int, other.z as int, COORD_MAX as int, COORD_MAX as int);
        }
        (self.x as i128) * (other.x as i128) + (self.y as i128) * (other.y as i128) + (self.z
            as i128) * (other.z as i128)
    }

    /// Squared length of a finite vector.
    pub fn length_squared(self) -> (d: i128)
        requires
            self.is_finite(),
        ensures
            d == dot_spec(self, self),
            d >= 0,
            d == 0 <==> self.is_zero(),
    {
        proof {
            lemma_square_sum(self);
        }
        self.dot(self)
    }

    /// Sum of two vectors, or nothing where a component leaves the finite range.
    pub fn checked_add(self, other: Vec3) -> (res: Option<Vec3>)
        ensures
            res == add_spec(self, other),
    {
        make_finite(
            self.x as i128 + other.x as i128,
            self.y as i128 + other.y as i128,
            self.z as i128 + other.z as i128,
        )
    }

    /// Difference of two vectors, or nothing where a component leaves the finite range.
    pub fn checked_sub(self, other: Vec3) -> (res: Option<Vec3>)
        ensures
            res == sub_spec(self, other),
    {
        make_finite(
            self.x as i128 - other.x as i128,
            self.y as i128 - other.y as i128,
            self.z as i128 - other.z as i128,
        )
    }

    /// The vector times `num / den`, or nothing where a component leaves the finite range.
    pub fn scale(self, num: i64, den: i64) -> (res: Option<Vec3>)
        requires
            den > 0,
        ensures
            res == scale_spec(self, num as int, den as int),
    {
        let x = mul_div(self.x, num, den);
        let y = mul_div(self.y, num, den);
        let z = mul_div(self.z, num, den);
        match (x, y, z) {
            (Some(x), Some(y), Some(z)) => Some(Vec3 { x, y, z }),
            _ => None,
        }
    }

    /// Cross product of two finite vectors, or nothing where a component leaves the
    /// finite range.
    pub fn cross(self, other: Vec3) -> (res: Option<Vec3>)
        requires
            self.is_finite(),
            other.is_finite(),
        ensures
            res == cross_spec(self, other),
    {
        proof {
            lemma_product_bound(self.y as int, other.z as int, COORD_MAX as int, COORD_MAX as int);
            lemma_product_bound(self.z as int, other.y as int, COORD_MAX as int, COORD_MAX as int);
            lemma_product_bound(self.z as int, other.x as int, COORD_MAX as int, COORD_MAX as int);
            lemma_product_bound(self.x as int, other.z as int, COORD_MAX as int, COORD_MAX as int);
            lemma_product_bound(self.x as int, other.y as int, COORD_MAX as int, COORD_MAX as int);
            lemma_product_bound(self.y as int, other.x as int, COORD_MAX as int, COORD_MAX as int);
        }
        make_finite(
            (self.y as i128) * (other.z as i128) - (self.z as i128) * (other.y as i128),
            (self.z as i128) * (other.x as i128) - (self.x as i128) * (other.z as i128),
            (self.x as i128) * (other.y as i128) - (self.y as i128) * (other.x as i128),
        )
    }

    /// Projection onto the line through `axis`, or nothing where a component leaves
    /// the finite range. Projecting onto the zero vector gives the zero vector.
    pub fn project_onto(self, axis: Vec3) -> (res: Option<Vec3>)
        requires
            self.is_finite(),
            axis.is_finite(),
        ensures
            res == project_onto_spec(self, axis),
    {
        if axis.is_zero() {
            return Some(Vec3::zero());
        }
        let along: i128 = self.dot(axis);
        let square: i128 = axis.length_squared();
        proof {
            lemma_product_bound(self.x as int, axis.x as int, COORD_MAX as int, COORD_MAX as int);
            lemma_product_bound(self.y as int, axis.y as int, COORD_MAX as int, COORD_MAX as int);
            lemma_product_bound(self.z as int, axis.z as int, COORD_MAX as int, COORD_MAX as int);
            lemma_product_bound(axis.x as int, axis.x as int, COORD_MAX as int, COORD_MAX as int);
            lemma_product_bound(axis.y as int, axis.y as int, COORD_MAX as int, COORD_MAX as int);
            lemma_product_bound(axis.z as int, axis.z as int, COORD_MAX as int, COORD_MAX as int);
            lemma_product_bound(axis.x as int, along as int, COORD_MAX as int,
                3 * COORD_MAX * COORD_MAX);
            lemma_product_bound(axis.y as int, along as int, COORD_MAX as int,
                3 * COORD_MAX * COORD_MAX);
            lemma_product_bound(axis.z as int, along as int, COORD_MAX as int,
                3 * COORD_MAX * COORD_MAX);
        }
        make_finite(
            div_round((axis.x as i128) * along, square),
            div_round((axis.y as i128) * along, square),
            div_round((axis.z as i128) * along, square),
        )
    }
}

/// Clips `velocity` against the plane with normal `plane`: the part of the velocity
/// along the normal is removed, the rest is kept. Nothing where the velocity or the
/// normal is not finite, or where a component of the result leaves the finite range.
pub fn project_onto_plane(velocity: Vec3, plane: Vec3) -> (res: Option<Vec3>)
    ensures
        res == (if velocity.is_finite() && plane.is_finite() {
            project_onto_plane_spec(velocity, plane)
        } else {
            None
        }),
{
    if !velocity.is_finite() || !plane.is_finite() {
        return None;
    }
    match velocity.project_onto(plane) {
        Some(along) => velocity.checked_sub(along),
        None => None,
    }
}

/// Builds a vector from wide components where all three are finite.
fn make_finite(x: i128, y: i128, z: i128) -> (res: Option<Vec3>)
    ensures
        res == finite_vec(x as int, y as int, z as int),
{
    let lo: i128 = -(COORD_MAX as i128);
    let hi: i128 = COORD_MAX as i128;
    if lo <= x && x <= hi && lo <= y && y <= hi && lo <= z && z <= hi {
        Some(Vec3 { x: x as i64, y: y as i64, z: z as i64 })
    } else {
        None
    }
}

/// A squared length is never negative, and zero only for the zero vector.
pub proof fn lemma_square_sum(v: Vec3)
    ensures
        dot_spec(v, v) >= 0,
        dot_spec(v, v) == 0 <==> v.is_zero(),
{
    let x: int = v.x as int;
    let y: int = v.y as int;
    let z: int = v.z as int;
    assert(x * x >= 0 && (x * x == 0 <==> x == 0)) by (nonlinear_arith);
    assert(y * y >= 0 && (y * y == 0 <==> y == 0)) by (nonlinear_arith);
    assert(z * z >= 0 && (z * z == 0 <==> z == 0)) by (nonlinear_arith);
}

} // verus!
