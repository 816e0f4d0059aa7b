//! What holds of the vector operations: when a projection is exact, how far
//! rounding can take it from the exact one, and what a projection keeps.
use vstd::prelude::*;
use crate::fixed::{ONE, lemma_product_bound, lemma_round_div_exact, lemma_round_div_monotone,
    lemma_round_div_near, magnitude, round_div};
use crate::vector::{Vec3, cross_spec, cross_x, cross_y, cross_z, dot_spec, lemma_square_sum,
    project_onto_plane_spec, project_onto_spec, scale_spec};

verus! {

/// Whether two vectors lie along one line: their cross product is zero.
pub open spec fn parallel(a: Vec3, b: Vec3) -> bool {
    cross_x(a, b) == 0 && cross_y(a, b) == 0 && cross_z(a, b) == 0
}

/// A vector along `axis` is its own projection onto `axis`, with nothing rounded
/// away, and nothing of it is left once it is clipped against the plane with
/// normal `axis`.
pub proof fn lemma_projection_of_parallel(v: Vec3, axis: Vec3)
    requires
        v.is_finite(),
        !axis.is_zero(),
        parallel(v, axis),
    ensures
        project_onto_spec(v, axis) == Some(v),
        project_onto_plane_spec(v, axis) == Some(Vec3::zero()),
{
    let d: int = dot_spec(axis, axis);
    lemma_square_sum(axis);
    let (vx, vy, vz): (int, int, int) = (v.x as int, v.y as int, v.z as int);
    let (ax, ay, az): (int, int, int) = (axis.x as int, axis.y as int, axis.z as int);
    lemma_parallel_scaling(vx, vy, vz, ax, ay, az);
    lemma_parallel_scaling(vy, vz, vx, ay, az, ax);
    lemma_parallel_scaling(vz, vx, vy, az, ax, ay);
    assert(ax * dot_spec(v, axis) == vx * d);
    assert(ay * dot_spec(v, axis) == vy * d);
    assert(az * dot_spec(v, axis) == vz * d);
    lemma_round_div_exact(v.x as int, d);
    lemma_round_div_exact(v.y as int, d);
    lemma_round_div_exact(v.z as int, d);
}

/// For `v` along `a`, the first component of `a * (v . a)` is that of `v * (a . a)`.
proof fn lemma_parallel_scaling(vx: int, vy: int, vz: int, ax: int, ay: int, az: int)
    requires
        vx * ay == vy * ax,
        vx * az == vz * ax,
    ensures
        ax * (vx * ax + vy * ay + vz * az) == vx * (ax * ax + ay * ay + az * az),
{
    assert((vy * ax) * ay == (vx * ay) * ay);
    assert((vz * ax) * az == (vx * az) * az);
    assert(ax * (vy * ay) == (vy * ax) * ay) by (nonlinear_arith);
    assert(ax * (vz * az) == (vz * ax) * az) by (nonlinear_arith);
    assert(vx * (ay * ay) == (vx * ay) * ay) by (nonlinear_arith);
    assert(vx * (az * az) == (vx * az) * az) by (nonlinear_arith);
    assert(ax * (vx * ax) == vx * (ax * ax)) by (nonlinear_arith);
    assert(ax * (vx * ax + vy * ay + vz * az) == ax * (vx * ax) + ax * (vy * ay) + ax * (vz * az))
        by (nonlinear_arith);
    assert(vx * (ax * ax + ay * ay + az * az) == vx * (ax * ax) + vx * (ay * ay) + vx * (az * az))
        by (nonlinear_arith);
}

/// The projection of the zero vector is the zero vector.
pub proof fn lemma_projection_of_zero(axis: Vec3)
    ensures
        project_onto_spec(Vec3::zero(), axis) == Some(Vec3::zero()),
{
    if !axis.is_zero() {
        assert(parallel(Vec3::zero(), axis)) by (nonlinear_arith);
        lemma_projection_of_parallel(Vec3::zero(), axis);
    }
}

/// Along an axis on which `axis` has no component, a projection onto `axis` has none.
pub proof fn lemma_projection_stays_on_axis(v: Vec3, axis: Vec3)
    requires
        project_onto_spec(v, axis) is Some,
    ensures
        axis.x == 0 ==> project_onto_spec(v, axis)->0.x == 0,
        axis.y == 0 ==> project_onto_spec(v, axis)->0.y == 0,
        axis.z == 0 ==> project_onto_spec(v, axis)->0.z == 0,
{
    if !axis.is_zero() {
        let d: int = dot_spec(axis, axis);
        let along: int = dot_spec(v, axis);
        lemma_square_sum(axis);
        lemma_round_div_exact(0, d);
        assert(0 * d == 0);
        assert(axis.x == 0 ==> axis.x * along == 0) by (nonlinear_arith);
        assert(axis.y == 0 ==> axis.y * along == 0) by (nonlinear_arith);
        assert(axis.z == 0 ==> axis.z * along == 0) by (nonlinear_arith);
    }
}

/// Twice a product is at most the sum of the two squares.
proof fn lemma_twice_product(a: int, b: int)
    by (nonlinear_arith)
    ensures
        -(a * a + b * b) <= 2 * (a * b) <= a * a + b * b,
{
}

/// One term of the bound below: `a * b * e` is within `bound * (a * a + b * b) / 2`.
proof fn lemma_weighted_product(a: int, b: int, e: int, bound: int)
    requires
        -bound <= e <= bound,
    ensures
        -(bound * (a * a + b * b)) <= 2 * (a * (e * b)) <= bound * (a * a + b * b),
{
    lemma_twice_product(a, b);
    lemma_product_bound(2 * (a * b), e, a * a + b * b, bound);
    assert((2 * (a * b)) * e == 2 * (a * (e * b))) by (nonlinear_arith);
    assert((a * a + b * b) * bound == bound * (a * a + b * b)) by (nonlinear_arith);
}

/// For an error `e` of at most `bound` on each axis, the first component of
/// `n * (e . n) - e * (n . n)` is within `3 * bound * (n . n)`.
proof fn lemma_error_through_projection(
    nx: int,
    ny: int,
    nz: int,
    ex: int,
    ey: int,
    ez: int,
    bound: int,
)
    requires
        -bound <= ex <= bound,
        -bound <= ey <= bound,
        -bound <= ez <= bound,
    ensures
        -(3 * (bound * (nx * nx + ny * ny + nz * nz))) <= nx * (ex * nx + ey * ny + ez * nz) - ex * (
        nx * nx + ny * ny + nz * nz) <= 3 * (bound * (nx * nx + ny * ny + nz * nz)),
{
    let d: int = nx * nx + ny * ny + nz * nz;
    lemma_weighted_product(nx, nx, ex, bound);
    lemma_weighted_product(nx, ny, ey, bound);
    lemma_weighted_product(nx, nz, ez, bound);
    assert(nx * (ex * nx + ey * ny + ez * nz) == nx * (ex * nx) + nx * (ey * ny) + nx * (ez * nz))
        by (nonlinear_arith);
    assert(bound * (nx * nx + nx * nx) + bound * (nx * nx + ny * ny) + bound * (nx * nx + nz * nz)
        == 3 * (bound * (nx * nx)) + bound * d) by (nonlinear_arith)
        requires
            d == nx * nx + ny * ny + nz * nz,
    ;
    assert(0 <= bound * (nx * nx) <= bound * d) by (nonlinear_arith)
        requires
            d == nx * nx + ny * ny + nz * nz,
            bound >= 0,
    ;
    assert(d >= 0) by (nonlinear_arith)
        requires
            d == nx * nx + ny * ny + nz * nz,
    ;
    lemma_product_bound(ex, d, bound, d);
}

/// Adding a vector along `n` to `e` does not change the first component of
/// `n * (e . n) - e * (n . n)`.
proof fn lemma_parallel_part_drops_out(
    nx: int,
    ny: int,
    nz: int,
    ex: int,
    ey: int,
    ez: int,
    gx: int,
    gy: int,
    gz: int,
)
    requires
        gx * ny == gy * nx,
        gx * nz == gz * nx,
    ensures
        nx * ((ex + gx) * nx + (ey + gy) * ny + (ez + gz) * nz) - (ex + gx) * (nx * nx + ny * ny + nz
            * nz) == nx * (ex * nx + ey * ny + ez * nz) - ex * (nx * nx + ny * ny + nz * nz),
{
    let d: int = nx * nx + ny * ny + nz * nz;
    lemma_parallel_scaling(gx, gy, gz, nx, ny, nz);
    assert((ex + gx) * nx + (ey + gy) * ny + (ez + gz) * nz == (ex * nx + ey * ny + ez * nz) + (gx
        * nx + gy * ny + gz * nz)) by (nonlinear_arith);
    assert(nx * ((ex * nx + ey * ny + ez * nz) + (gx * nx + gy * ny + gz * nz)) == nx * (ex * nx
        + ey * ny + ez * nz) + nx * (gx * nx + gy * ny + gz * nz)) by (nonlinear_arith);
    assert((ex + gx) * d == ex * d + gx * d) by (nonlinear_arith);
}

/// One axis of the lemma below.
proof fn lemma_clip_near_parallel_axis(
    nx: int,
    ny: int,
    nz: int,
    rx: int,
    ry: int,
    rz: int,
    sx: int,
    sy: int,
    sz: int,
    g: int,
)
    requires
        rx * ny == ry * nx,
        rx * nz == rz * nx,
        nx * nx + ny * ny + nz * nz > 0,
        -ONE <= 2 * (ONE * sx - g * rx) <= ONE,
        -ONE <= 2 * (ONE * sy - g * ry) <= ONE,
        -ONE <= 2 * (ONE * sz - g * rz) <= ONE,
    ensures
        -2 <= sx - round_div(nx * (sx * nx + sy * ny + sz * nz), nx * nx + ny * ny + nz * nz) <= 2,
{
    let d: int = nx * nx + ny * ny + nz * nz;
    let k: int = sx * nx + sy * ny + sz * nz;
    let ex: int = 2 * (ONE * sx - g * rx);
    let ey: int = 2 * (ONE * sy - g * ry);
    let ez: int = 2 * (ONE * sz - g * rz);
    let gx: int = 2 * (g * rx);
    let gy: int = 2 * (g * ry);
    let gz: int = 2 * (g * rz);
    assert(gx * ny == gy * nx) by (nonlinear_arith)
        requires
            rx * ny == ry * nx,
            gx == 2 * (g * rx),
            gy == 2 * (g * ry),
    ;
    assert(gx * nz == gz * nx) by (nonlinear_arith)
        requires
            rx * nz == rz * nx,
            gx == 2 * (g * rx),
            gz == 2 * (g * rz),
    ;
    lemma_parallel_part_drops_out(nx, ny, nz, ex, ey, ez, gx, gy, gz);
    lemma_error_through_projection(nx, ny, nz, ex, ey, ez, ONE as int);
    // the scaled vector is the error plus the parallel part
    assert(ex + gx == 2_000_000 * sx && ey + gy == 2_000_000 * sy && ez + gz == 2_000_000 * sz);
    let t: int = nx * k - sx * d;
    assert(nx * ((2_000_000 * sx) * nx + (2_000_000 * sy) * ny + (2_000_000 * sz) * nz) - (2_000_000
        * sx) * d == 2_000_000 * t) by (nonlinear_arith)
        requires
            t == nx * k - sx * d,
            k == sx * nx + sy * ny + sz * nz,
    ;
    assert(1_000_000 * d == ONE * d);
    assert(-(3 * d) <= 2 * t <= 3 * d);
    let q: int = round_div(nx * k, d);
    lemma_round_div_near(nx * k, d);
    assert(-(4 * d) <= 2 * ((sx - q) * d) <= 4 * d) by (nonlinear_arith)
        requires
            -(3 * d) <= 2 * t <= 3 * d,
            t == nx * k - sx * d,
            -d <= 2 * (q * d - nx * k) <= d,
    ;
    assert(-2 <= sx - q <= 2) by (nonlinear_arith)
        requires
            -(4 * d) <= 2 * ((sx - q) * d) <= 4 * d,
            d > 0,
    ;
}

/// What is left of a vector that lies almost along a plane's normal, once it is
/// clipped against the plane, is next to nothing: where `rest` is within half a raw
/// unit, on every axis, of `along * g / ONE` for some `along` that lies along
/// `normal`, no component of the clipped `rest` is beyond two raw units.
pub proof fn lemma_clip_near_parallel(along: Vec3, rest: Vec3, normal: Vec3, g: int)
    requires
        parallel(along, normal),
        !normal.is_zero(),
        -ONE <= 2 * (ONE * rest.x - g * along.x) <= ONE,
        -ONE <= 2 * (ONE * rest.y - g * along.y) <= ONE,
        -ONE <= 2 * (ONE * rest.z - g * along.z) <= ONE,
        project_onto_plane_spec(rest, normal) is Some,
    ensures
        -2 <= project_onto_plane_spec(rest, normal)->0.x <= 2,
        -2 <= project_onto_plane_spec(rest, normal)->0.y <= 2,
        -2 <= project_onto_plane_spec(rest, normal)->0.z <= 2,
{
    let (nx, ny, nz): (int, int, int) = (normal.x as int, normal.y as int, normal.z as int);
    let (rx, ry, rz): (int, int, int) = (along.x as int, along.y as int, along.z as int);
    let (sx, sy, sz): (int, int, int) = (rest.x as int, rest.y as int, rest.z as int);
    lemma_square_sum(normal);
    lemma_clip_near_parallel_axis(nx, ny, nz, rx, ry, rz, sx, sy, sz, g);
    lemma_clip_near_parallel_axis(ny, nz, nx, ry, rz, rx, sy, sz, sx, g);
    lemma_clip_near_parallel_axis(nz, nx, ny, rz, rx, ry, sz, sx, sy, g);
}

/// The sum of the magnitudes of a vector's components.
pub open spec fn taxicab(v: Vec3) -> int {
    magnitude(v.x as int) + magnitude(v.y as int) + magnitude(v.z as int)
}

/// The cross product of two vectors is square to both.
pub proof fn lemma_cross_is_square(a: Vec3, b: Vec3)
    requires
        cross_spec(a, b) is Some,
    ensures
        dot_spec(a, cross_spec(a, b)->0) == 0,
        dot_spec(b, cross_spec(a, b)->0) == 0,
{
    let (ax, ay, az): (int, int, int) = (a.x as int, a.y as int, a.z as int);
    let (bx, by, bz): (int, int, int) = (b.x as int, b.y as int, b.z as int);
    assert(ax * (ay * bz - az * by) + ay * (az * bx - ax * bz) + az * (ax * by - ay * bx) == 0)
        by (nonlinear_arith);
    assert(bx * (ay * bz - az * by) + by * (az * bx - ax * bz) + bz * (ax * by - ay * bx) == 0)
        by (nonlinear_arith);
}

/// A projection onto `axis` keeps nothing, beyond rounding, along a vector square
/// to `axis`: its dot product with such a vector is as small as half a raw unit on
/// each axis can make it.
pub proof fn lemma_projection_keeps_off(v: Vec3, axis: Vec3, square: Vec3)
    requires
        project_onto_spec(v, axis) is Some,
        dot_spec(square, axis) == 0,
    ensures
        -taxicab(square) <= 2 * dot_spec(project_onto_spec(v, axis)->0, square) <= taxicab(square),
{
    let p = project_onto_spec(v, axis)->0;
    let (mx, my, mz): (int, int, int) = (square.x as int, square.y as int, square.z as int);
    if axis.is_zero() {
        assert(0 * mx == 0 && 0 * my == 0 && 0 * mz == 0);
    } else {
        let (cx, cy, cz): (int, int, int) = (axis.x as int, axis.y as int, axis.z as int);
        let d: int = dot_spec(axis, axis);
        let k: int = dot_spec(v, axis);
        lemma_square_sum(axis);
        lemma_round_div_near(cx * k, d);
        lemma_round_div_near(cy * k, d);
        lemma_round_div_near(cz * k, d);
        let ex: int = 2 * (p.x * d - cx * k);
        let ey: int = 2 * (p.y * d - cy * k);
        let ez: int = 2 * (p.z * d - cz * k);
        lemma_product_bound(mx, ex, magnitude(mx), d);
        lemma_product_bound(my, ey, magnitude(my), d);
        lemma_product_bound(mz, ez, magnitude(mz), d);
        let dot: int = dot_spec(p, square);
        let (px, py, pz): (int, int, int) = (p.x as int, p.y as int, p.z as int);
        assert(mx * ex == 2 * ((px * mx) * d) - 2 * (k * (mx * cx))) by (nonlinear_arith)
            requires
                ex == 2 * (px * d - cx * k),
        ;
        assert(my * ey == 2 * ((py * my) * d) - 2 * (k * (my * cy))) by (nonlinear_arith)
            requires
                ey == 2 * (py * d - cy * k),
        ;
        assert(mz * ez == 2 * ((pz * mz) * d) - 2 * (k * (mz * cz))) by (nonlinear_arith)
            requires
                ez == 2 * (pz * d - cz * k),
        ;
        assert(dot * d == (px * mx) * d + (py * my) * d + (pz * mz) * d) by (nonlinear_arith)
            requires
                dot == px * mx + py * my + pz * mz,
        ;
        assert(k * (mx * cx + my * cy + mz * cz) == k * (mx * cx) + k * (my * cy) + k * (mz * cz))
            by (nonlinear_arith);
        assert(2 * (dot * d) == mx * ex + my * ey + mz * ez + 2 * (k * (mx * cx + my * cy + mz * cz)));
        assert(k * (mx * cx + my * cy + mz * cz) == 0) by (nonlinear_arith)
            requires
                mx * cx + my * cy + mz * cz == 0,
        ;
        let t: int = taxicab(square);
        assert(magnitude(mx) * d + magnitude(my) * d + magnitude(mz) * d == t * d)
            by (nonlinear_arith)
            requires
                t == magnitude(mx) + magnitude(my) + magnitude(mz),
        ;
        assert(-t <= 2 * dot <= t) by (nonlinear_arith)
            requires
                -(t * d) <= 2 * (dot * d) <= t * d,
                d > 0,
        ;
    }
}

/// The zero vector times any ratio is the zero vector.
pub proof fn lemma_zero_scales_to_zero(num: int, den: int)
    requires
        den > 0,
    ensures
        scale_spec(Vec3::zero(), num, den) == Some(Vec3::zero()),
{
    assert(0 * num == 0);
    assert((2 * 0 + den) / (2 * den) == 0) by (nonlinear_arith)
        requires
            den > 0,
    ;
}

/// Any vector times nothing is the zero vector.
pub proof fn lemma_scale_by_zero(v: Vec3)
    ensures
        scale_spec(v, 0, ONE as int) == Some(Vec3::zero()),
{
    assert(v.x * 0 == 0 && v.y * 0 == 0 && v.z * 0 == 0);
    assert((2 * 0 + 1_000_000int) / 2_000_000int == 0);
}

/// The cross product of two directions is finite.
pub proof fn lemma_crease_is_finite(a: Vec3, b: Vec3)
    requires
        a.is_direction(),
        b.is_direction(),
    ensures
        cross_spec(a, b) is Some,
{
    let unit: int = 1_000_000;
    lemma_product_bound(a.y as int, b.z as int, unit, unit);
    lemma_product_bound(a.z as int, b.y as int, unit, unit);
    lemma_product_bound(a.z as int, b.x as int, unit, unit);
    lemma_product_bound(a.x as int, b.z as int, unit, unit);
    lemma_product_bound(a.x as int, b.y as int, unit, unit);
    lemma_product_bound(a.y as int, b.x as int, unit, unit);
}

/// The dot product of the zero vector with any vector is zero.
pub proof fn lemma_dot_of_zero(v: Vec3)
    ensures
        dot_spec(Vec3::zero(), v) == 0,
{
    assert(0 * v.x == 0 && 0 * v.y == 0 && 0 * v.z == 0) by (nonlinear_arith);
}

/// Whether a vector has a component along one axis at most.
pub open spec fn along_one_axis(v: Vec3) -> bool {
    (v.x == 0 && v.y == 0) || (v.y == 0 && v.z == 0) || (v.z == 0 && v.x == 0)
}

/// A vector that has no component where `axis` has none lies along `axis`, if
/// `axis` has a component along one axis at most.
pub proof fn lemma_parallel_along_one_axis(v: Vec3, axis: Vec3)
    requires
        along_one_axis(axis),
        axis.x == 0 ==> v.x == 0,
        axis.y == 0 ==> v.y == 0,
        axis.z == 0 ==> v.z == 0,
    ensures
        parallel(v, axis),
{
    assert(parallel(v, axis)) by (nonlinear_arith)
        requires
            along_one_axis(axis),
            axis.x == 0 ==> v.x == 0,
            axis.y == 0 ==> v.y == 0,
            axis.z == 0 ==> v.z == 0,
    ;
}

/// Whether `part` lies between nothing and `whole`, on the side of `whole`.
pub open spec fn between_zero_and(part: int, whole: int) -> bool {
    (0 <= part <= whole) || (whole <= part <= 0)
}

/// A component scaled by the smaller of two ratios lies between nothing and the
/// component scaled by the larger.
pub proof fn lemma_scale_grows_with_ratio(c: int, f: int, g: int, den: int)
    requires
        0 <= f <= g,
        den > 0,
    ensures
        between_zero_and(round_div(c * f, den), round_div(c * g, den)),
{
    if c >= 0 {
        assert(0 <= c * f <= c * g) by (nonlinear_arith)
            requires
                c >= 0,
                0 <= f <= g,
        ;
        lemma_round_div_monotone(c * f, c * g, den);
        lemma_round_div_monotone(0, c * f, den);
    } else {
        assert(c * g <= c * f <= 0) by (nonlinear_arith)
            requires
                c < 0,
                0 <= f <= g,
        ;
        lemma_round_div_monotone(c * g, c * f, den);
        lemma_round_div_monotone(c * f, 0, den);
    }
}

} // verus!
