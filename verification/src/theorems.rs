//! What holds of every slide and every tick, whatever the world answers.
use vstd::prelude::*;
use crate::cast::{Capsule, HitRecord};
use crate::fixed::{ONE, lemma_product_bound, lemma_round_div_near, round_div};
use crate::kinematic_controller::{KCCGrounded, grounding_after, walkable};
use crate::move_and_slide::{SlideModel, SlideStatus, at_rest, clip, crease_fold,
    desired_displacement, next_plane, restarts, resolved_velocity, safe_fraction};
use crate::tick::{CharacterBody, TickModel, TickPhase};
use crate::vector::{Vec3, add_spec, cross_spec, dot_spec, project_onto_plane_spec,
    project_onto_spec, scale_spec};
use crate::vector_lemmas::{along_one_axis, between_zero_and, lemma_clip_near_parallel,
    lemma_crease_is_finite, lemma_cross_is_square, lemma_dot_of_zero,
    lemma_parallel_along_one_axis, lemma_projection_keeps_off, lemma_projection_of_parallel,
    lemma_projection_of_zero, lemma_projection_stays_on_axis, lemma_scale_by_zero,
    lemma_scale_grows_with_ratio, lemma_zero_scales_to_zero, parallel, taxicab};

verus! {

/// A slide that is in order stays in order, whatever answer it takes.
pub proof fn theorem_resolve_keeps_order(slide: SlideModel, hit: Option<HitRecord>)
    requires
        slide.wf(),
    ensures
        slide.resolve(hit).wf(),
        slide.resolve(hit).bounces == slide.bounces,
        slide.resolve(hit).casts <= slide.casts + 1,
        slide.resolve(hit).casting() ==> slide.casting() && slide.resolve(hit).casts == slide.casts + 1,
{
    if slide.casting() {
        match hit {
            Some(h) => {
                if h.is_valid_for(ONE) {
                    match slide.advance_to(h) {
                        Some(at) => {
                            assert forall|i: int| 0 <= i < at.planes.len() implies (
                            #[trigger] at.planes[i]).is_direction() by {}
                        },
                        None => {},
                    }
                }
            },
            None => {},
        }
    }
}

/// A slide asks for at most as many casts as it was given bounces, however many
/// obstacles answer it: after any run of answers the count of casts is within the
/// bounces, and once as many answers as bounces have been taken the slide is over.
pub proof fn theorem_casts_within_bounces(
    shape: Capsule,
    position: Vec3,
    velocity: Vec3,
    dt: int,
    bounces: nat,
    padding: int,
    answers: Seq<Option<HitRecord>>,
)
    requires
        padding >= 0,
    ensures
        SlideModel::begin(shape, position, velocity, dt, bounces, padding).run(answers).casts
            <= bounces,
        answers.len() >= bounces ==> !SlideModel::begin(
            shape,
            position,
            velocity,
            dt,
            bounces,
            padding,
        ).run(answers).casting(),
{
    lemma_run_counts(SlideModel::begin(shape, position, velocity, dt, bounces, padding), answers);
}

/// Along a run, a slide that still asks for a cast has asked for one more cast than
/// it has taken answers.
proof fn lemma_run_counts(start: SlideModel, answers: Seq<Option<HitRecord>>)
    requires
        start.wf(),
        start.casting() ==> start.casts == 1,
    ensures
        start.run(answers).wf(),
        start.run(answers).bounces == start.bounces,
        start.run(answers).casting() ==> start.run(answers).casts == answers.len() + 1,
    decreases answers.len(),
{
    if answers.len() > 0 {
        lemma_run_counts(start, answers.drop_last());
        theorem_resolve_keeps_order(start.run(answers.drop_last()), answers.last());
    }
}

/// Where nothing stands in the way, the slide travels all that the velocity asks
/// for: the displacement made is the velocity times the length of the tick,
/// exactly, after a single cast.
pub proof fn theorem_free_path_travels_all(
    shape: Capsule,
    position: Vec3,
    velocity: Vec3,
    dt: int,
    bounces: nat,
    padding: int,
)
    requires
        velocity.is_finite(),
        dt > 0,
        bounces >= 1,
        scale_spec(velocity, dt, ONE as int) is Some,
        !at_rest(desired_displacement(velocity, dt)),
        add_spec(position, desired_displacement(velocity, dt)) is Some,
    ensures
        ({
            let end = SlideModel::begin(shape, position, velocity, dt, bounces, padding).resolve(
                None,
            );
            &&& end.status == SlideStatus::Unobstructed
            &&& end.casts == 1
            &&& Some(end.applied) == scale_spec(velocity, dt, ONE as int)
            &&& end.applied == desired_displacement(velocity, dt)
            &&& Some(end.position) == add_spec(position, desired_displacement(velocity, dt))
        }),
{
}

/// A character that wants to go nowhere stays where it is: with a velocity of zero
/// the slide is over before any cast, the position is as it was and the velocity
/// resolves to zero again.
pub proof fn theorem_zero_velocity_changes_nothing(
    shape: Capsule,
    position: Vec3,
    dt: int,
    bounces: nat,
    padding: int,
)
    ensures
        ({
            let end = SlideModel::begin(shape, position, Vec3::zero(), dt, bounces, padding);
            &&& end.status == SlideStatus::AtRest
            &&& end.casts == 0
            &&& end.position == position
            &&& end.applied == Vec3::zero()
            &&& resolved_velocity(end.applied, end.dt) == Vec3::zero()
        }),
{
    lemma_zero_scales_to_zero(dt, ONE as int);
    if dt > 0 {
        lemma_zero_scales_to_zero(ONE as int, dt);
    }
}

/// A velocity that is not finite is a fault the slide recovers from: the slide is
/// over before any cast, the position is as it was and the velocity resolves to zero.
pub proof fn theorem_velocity_not_finite_stops(
    shape: Capsule,
    position: Vec3,
    velocity: Vec3,
    dt: int,
    bounces: nat,
    padding: int,
)
    requires
        !velocity.is_finite(),
    ensures
        ({
            let end = SlideModel::begin(shape, position, velocity, dt, bounces, padding);
            &&& end.status == SlideStatus::NonFiniteVelocity
            &&& end.casts == 0
            &&& end.position == position
            &&& end.applied == Vec3::zero()
            &&& resolved_velocity(end.applied, end.dt) == Vec3::zero()
        }),
{
    if dt > 0 {
        lemma_zero_scales_to_zero(ONE as int, dt);
    }
}

/// The grounding after a run of updates, one for each tick, given for each tick
/// whether its floor could be walked on.
pub open spec fn grounding_run(start: KCCGrounded, floors: Seq<bool>) -> KCCGrounded
    decreases floors.len(),
{
    if floors.len() == 0 {
        start
    } else {
        grounding_after(grounding_run(start, floors.drop_last()), floors.last())
    }
}

/// What a character remembers as its last grounding is its grounding of the tick
/// before: after any number of ticks `n`, `prev_grounded` is the `grounded` that
/// stood after `n - 1` ticks.
pub proof fn theorem_prev_grounded_is_last_grounded(start: KCCGrounded, floors: Seq<bool>, n: int)
    requires
        1 <= n <= floors.len(),
    ensures
        grounding_run(start, floors.take(n)).prev_grounded == grounding_run(
            start,
            floors.take(n - 1),
        ).grounded,
{
    assert(floors.take(n).drop_last() =~= floors.take(n - 1));
}

/// What holds of a tick after any run of answers: it is in order, the character's
/// configuration is untouched, and the phase says how many answers there can have been.
pub open spec fn tick_on_course(
    body: CharacterBody,
    tick: TickModel,
    end: CharacterBody,
    answers: nat,
) -> bool {
    &&& tick.wf(end)
    &&& tick.slide.bounces == body.controller.bounces
    &&& end.controller.bounces == body.controller.bounces
    &&& end.controller.depenetration == body.controller.depenetration
    &&& end.controller.up == body.controller.up
    &&& end.controller.max_slope_cosine == body.controller.max_slope_cosine
    &&& tick.phase == TickPhase::Sliding ==> tick.slide.casts == answers + 1
    &&& tick.phase == TickPhase::Depenetrating ==> answers <= body.controller.bounces
    &&& tick.phase == TickPhase::ProbingFloor ==> answers <= body.controller.bounces + 1
    &&& tick.phase != TickPhase::Complete ==> end.grounded == body.grounded && end.floor
        == body.floor
    &&& tick.phase == TickPhase::Complete ==> end.grounded == grounding_after(
        body.grounded,
        walkable(end.floor.floor_normal, body.controller.up, body.controller.max_slope_cosine as int),
    )
    &&& tick.phase == TickPhase::Sliding ==> end.position == body.position && end.controller
        == body.controller
    &&& tick.phase != TickPhase::Sliding ==> {
        &&& end.controller.velocity == resolved_velocity(tick.slide.applied, tick.slide.dt)
        &&& end.controller.prev_velocity == end.controller.velocity
        &&& tick.phase == TickPhase::Depenetrating || body.controller.depenetration is None
            ==> end.position == tick.slide.position
    }
}

/// A tick stays on course, whatever the world answers.
pub proof fn lemma_tick_stays_on_course(body: CharacterBody, dt: int, answers: Seq<Option<HitRecord>>)
    requires
        body.wf(),
    ensures
        ({
            let (tick, end) = TickModel::begin(body, dt).0.run(TickModel::begin(body, dt).1, answers);
            tick_on_course(body, tick, end, answers.len())
        }),
    decreases answers.len(),
{
    let (tick0, body0) = TickModel::begin(body, dt);
    if answers.len() > 0 {
        lemma_tick_stays_on_course(body, dt, answers.drop_last());
        let (before, at) = tick0.run(body0, answers.drop_last());
        theorem_advance_keeps_order(before, at, answers.last());
        theorem_resolve_keeps_order(before.slide, answers.last());
    }
}

/// A tick updates the grounding once, when it takes the answer to the floor probe:
/// until the tick is over the grounding is as it was at the start, and once it is
/// over `prev_grounded` is the `grounded` the tick started with, and `grounded`
/// says whether the floor that the tick found can be walked on.
pub proof fn theorem_tick_keeps_grounding_history(
    body: CharacterBody,
    dt: int,
    answers: Seq<Option<HitRecord>>,
)
    requires
        body.wf(),
    ensures
        ({
            let (tick, end) = TickModel::begin(body, dt).0.run(TickModel::begin(body, dt).1, answers);
            &&& tick.phase != TickPhase::Complete ==> end.grounded == body.grounded
            &&& tick.phase == TickPhase::Complete ==> end.grounded.prev_grounded
                == body.grounded.grounded
            &&& tick.phase == TickPhase::Complete ==> end.grounded == grounding_after(
                body.grounded,
                walkable(
                    end.floor.floor_normal,
                    body.controller.up,
                    body.controller.max_slope_cosine as int,
                ),
            )
        }),
{
    lemma_tick_stays_on_course(body, dt, answers);
}

/// The cost of a tick is bounded by the bounces of the character, however crowded
/// the world: the slide asks for at most `bounces` casts, and the tick is over
/// after at most two answers more, one to the overlap test and one to the floor probe.
pub proof fn theorem_tick_casts_within_bounces(
    body: CharacterBody,
    dt: int,
    answers: Seq<Option<HitRecord>>,
)
    requires
        body.wf(),
    ensures
        ({
            let (tick, end) = TickModel::begin(body, dt).0.run(TickModel::begin(body, dt).1, answers);
            &&& tick.slide.casts <= body.controller.bounces
            &&& answers.len() >= body.controller.bounces + 2 ==> tick.phase == TickPhase::Complete
            &&& tick.request(end) is None <==> tick.phase == TickPhase::Complete
        }),
{
    lemma_tick_stays_on_course(body, dt, answers);
}

/// The velocity a character has after its slide, and to the end of the tick, is what
/// the slide resolved to, and it is the history that the next tick will read. A tick
/// that tests for no overlap leaves the character where the slide left it.
pub proof fn theorem_tick_hands_over_the_slide(
    body: CharacterBody,
    dt: int,
    answers: Seq<Option<HitRecord>>,
)
    requires
        body.wf(),
    ensures
        ({
            let (tick, end) = TickModel::begin(body, dt).0.run(TickModel::begin(body, dt).1, answers);
            tick.phase != TickPhase::Sliding ==> {
                &&& end.controller.velocity == resolved_velocity(tick.slide.applied, tick.slide.dt)
                &&& end.controller.prev_velocity == end.controller.velocity
                &&& body.controller.depenetration is None ==> end.position == tick.slide.position
            }
        }),
{
    lemma_tick_stays_on_course(body, dt, answers);
}

/// A tick of a character that wants to go nowhere, or whose velocity is not finite,
/// asks for no cast of the slide and ends with a velocity of exactly zero, whatever
/// the world answers; and if it tests for no overlap, the character stays where it is.
pub proof fn theorem_tick_without_motion(
    body: CharacterBody,
    dt: int,
    answers: Seq<Option<HitRecord>>,
)
    requires
        body.wf(),
        body.controller.velocity.is_zero() || !body.controller.velocity.is_finite(),
    ensures
        ({
            let (tick, end) = TickModel::begin(body, dt).0.run(TickModel::begin(body, dt).1, answers);
            &&& tick.phase != TickPhase::Sliding
            &&& tick.slide.casts == 0
            &&& end.controller.velocity.is_zero()
            &&& body.controller.depenetration is None ==> end.position == body.position
        }),
    decreases answers.len(),
{
    let (tick0, body0) = TickModel::begin(body, dt);
    let bounces: nat = body.controller.bounces as nat;
    let padding: int = body.controller.skin_padding as int;
    if body.controller.velocity.is_zero() {
        theorem_zero_velocity_changes_nothing(
            body.controller.collider,
            body.position,
            dt,
            bounces,
            padding,
        );
    } else {
        theorem_velocity_not_finite_stops(
            body.controller.collider,
            body.position,
            body.controller.velocity,
            dt,
            bounces,
            padding,
        );
    }
    lemma_tick_stays_on_course(body, dt, answers);
    if answers.len() > 0 {
        theorem_tick_without_motion(body, dt, answers.drop_last());
    }
}

/// In a world without obstacles a tick moves the character by its velocity times
/// the length of the tick, exactly: whatever is cast comes back empty, and after
/// three answers at most the tick is over.
pub proof fn theorem_empty_world_tick(body: CharacterBody, dt: int, answers: Seq<Option<HitRecord>>)
    requires
        body.wf(),
        body.controller.velocity.is_finite(),
        dt > 0,
        scale_spec(body.controller.velocity, dt, ONE as int) is Some,
        !at_rest(desired_displacement(body.controller.velocity, dt)),
        add_spec(body.position, desired_displacement(body.controller.velocity, dt)) is Some,
        answers.len() >= 3,
        forall|i: int| 0 <= i < answers.len() ==> answers[i] is None,
    ensures
        ({
            let (tick, end) = TickModel::begin(body, dt).0.run(TickModel::begin(body, dt).1, answers);
            &&& tick.phase == TickPhase::Complete
            &&& Some(end.position) == add_spec(
                body.position,
                desired_displacement(body.controller.velocity, dt),
            )
            &&& end.controller.velocity == resolved_velocity(
                desired_displacement(body.controller.velocity, dt),
                dt,
            )
        }),
    decreases answers.len(),
{
    let (tick0, body0) = TickModel::begin(body, dt);
    theorem_free_path_travels_all(
        body.controller.collider,
        body.position,
        body.controller.velocity,
        dt,
        body.controller.bounces as nat,
        body.controller.skin_padding as int,
    );
    if answers.len() == 3 {
        let none: Option<HitRecord> = None;
        let one = answers.drop_last().drop_last();
        let two = answers.drop_last();
        assert(one.drop_last().len() == 0);
        assert(tick0.run(body0, one.drop_last()) == (tick0, body0));
        assert(one.last() == none && two.last() == none && answers.last() == none);
        let (tick1, body1) = tick0.run(body0, one);
        assert((tick1, body1) == tick0.advance(body0, none));
        let (tick2, body2) = tick0.run(body0, two);
        assert((tick2, body2) == tick1.advance(body1, none));
        let (tick3, body3) = tick0.run(body0, answers);
        assert((tick3, body3) == tick2.advance(body2, none));
    } else {
        theorem_empty_world_tick(body, dt, answers.drop_last());
    }
}

/// A tick that is in order stays in order, whatever answer it takes.
pub proof fn theorem_advance_keeps_order(tick: TickModel, body: CharacterBody, hit: Option<HitRecord>)
    requires
        tick.wf(body),
    ensures
        tick.advance(body, hit).0.wf(tick.advance(body, hit).1),
{
    theorem_resolve_keeps_order(tick.slide, hit);
}

/// Projecting the zero vector onto creases leaves the zero vector, if anything.
proof fn lemma_crease_fold_of_zero(planes: Seq<Vec3>, i: nat)
    ensures
        crease_fold(Some(Vec3::zero()), planes, i) is Some ==> crease_fold(
            Some(Vec3::zero()),
            planes,
            i,
        ) == Some(Vec3::zero()),
    decreases planes.len() - i,
{
    if i < planes.len() {
        match cross_spec(planes[i as int], planes[next_plane(planes.len(), i)]) {
            Some(crease) => {
                lemma_projection_of_zero(crease);
                lemma_crease_fold_of_zero(planes, i + 1);
            },
            None => {},
        }
    }
}

/// A slide never travels beyond a contact. On its way to the safe point the
/// character moves, along every axis, the way it was going and no further than to
/// the contact; and it moves by exactly the safe part of what was left, so that
/// what was left is split between what is made and what remains.
pub proof fn theorem_advance_stops_short_of_contact(slide: SlideModel, hit: HitRecord)
    requires
        slide.wf(),
        hit.is_valid_for(ONE),
        slide.advance_to(hit) is Some,
    ensures
        ({
            let at = slide.advance_to(hit)->0;
            let toi = hit.time_of_impact as int;
            let left = slide.remaining;
            &&& at.position.x - slide.position.x == at.applied.x - slide.applied.x == left.x
                - at.remaining.x
            &&& at.position.y - slide.position.y == at.applied.y - slide.applied.y == left.y
                - at.remaining.y
            &&& at.position.z - slide.position.z == at.applied.z - slide.applied.z == left.z
                - at.remaining.z
            &&& between_zero_and(left.x - at.remaining.x, round_div(left.x * toi, ONE as int))
            &&& between_zero_and(left.y - at.remaining.y, round_div(left.y * toi, ONE as int))
            &&& between_zero_and(left.z - at.remaining.z, round_div(left.z * toi, ONE as int))
        }),
{
    let toi: int = hit.time_of_impact as int;
    let fraction: int = safe_fraction(toi, slide.padding);
    lemma_scale_grows_with_ratio(slide.remaining.x as int, fraction, toi, ONE as int);
    lemma_scale_grows_with_ratio(slide.remaining.y as int, fraction, toi, ONE as int);
    lemma_scale_grows_with_ratio(slide.remaining.z as int, fraction, toi, ONE as int);
}

/// Whether the character already touches what it hits: the way to the safe point
/// short of the contact is no way at all.
pub open spec fn touches(slide: SlideModel, hit: HitRecord) -> bool {
    scale_spec(
        slide.remaining,
        safe_fraction(hit.time_of_impact as int, slide.padding),
        ONE as int,
    ) == Some(Vec3::zero())
}

/// A contact within the skin padding is one that the character already touches.
pub proof fn theorem_contact_within_padding_touches(slide: SlideModel, hit: HitRecord)
    requires
        hit.time_of_impact <= slide.padding,
    ensures
        touches(slide, hit),
{
    lemma_scale_by_zero(slide.remaining);
}

/// A character that moves squarely against a plane it touches goes nowhere: where
/// the displacement lies along the normal of the plane that is hit, and the
/// character already touches the plane, the slide ends where it stands, with
/// nothing left to travel. If the slide had not moved before, the velocity resolves
/// to zero, and so does its component along the normal.
pub proof fn theorem_square_contact_stops(slide: SlideModel, hit: HitRecord)
    requires
        slide.wf(),
        slide.casting(),
        hit.is_valid_for(ONE),
        touches(slide, hit),
        parallel(slide.remaining, hit.normal),
    ensures
        ({
            let end = slide.resolve(Some(hit));
            &&& !end.casting()
            &&& end.remaining.is_zero()
            &&& end.position == slide.position
            &&& end.applied == slide.applied
            &&& slide.applied.is_zero() ==> dot_spec(
                resolved_velocity(end.applied, end.dt),
                hit.normal,
            ) == 0
        }),
{
    let end = slide.resolve(Some(hit));
    match slide.advance_to(hit) {
        Some(at) => {
            assert(at.remaining == slide.remaining);
            assert(at.planes.last() == hit.normal);
            lemma_projection_of_parallel(slide.remaining, hit.normal);
            lemma_crease_fold_of_zero(at.planes, 0);
        },
        None => {},
    }
    if slide.applied.is_zero() && slide.dt > 0 {
        lemma_zero_scales_to_zero(ONE as int, slide.dt);
    }
    lemma_dot_of_zero(slide.remaining);
    lemma_dot_of_zero(hit.normal);
}

/// A character that runs squarely into a plane stops at it. Where the displacement
/// lies along the normal of the plane that is hit, and that plane is the only one in
/// contact, the slide advances to the safe point and ends there: nothing is left to
/// travel, and no further cast is asked for.
pub proof fn theorem_square_hit_ends_slide(slide: SlideModel, hit: HitRecord)
    requires
        slide.wf(),
        slide.casting(),
        hit.is_valid_for(ONE),
        parallel(slide.remaining, hit.normal),
        slide.planes.len() == 0 || restarts(hit.time_of_impact as int, slide.padding),
    ensures
        ({
            let end = slide.resolve(Some(hit));
            &&& !end.casting()
            &&& end.remaining.is_zero()
            &&& end.casts == slide.casts
            &&& slide.advance_to(hit) matches Some(at) ==> end.position == at.position
                && end.applied == at.applied
            &&& slide.advance_to(hit) is None ==> end.position == slide.position && end.applied
                == slide.applied
        }),
{
    let fraction: int = safe_fraction(hit.time_of_impact as int, slide.padding);
    let along = slide.remaining;
    match slide.advance_to(hit) {
        Some(at) => {
            let rest = at.remaining;
            assert(at.planes =~= seq![hit.normal]);
            let clipped = project_onto_plane_spec(rest, hit.normal);
            if clipped is Some {
                lemma_round_div_near(along.x * fraction, ONE as int);
                lemma_round_div_near(along.y * fraction, ONE as int);
                lemma_round_div_near(along.z * fraction, ONE as int);
                let g: int = ONE - fraction;
                assert(g * along.x == ONE * along.x - along.x * fraction) by (nonlinear_arith)
                    requires
                        g == ONE - fraction,
                ;
                assert(g * along.y == ONE * along.y - along.y * fraction) by (nonlinear_arith)
                    requires
                        g == ONE - fraction,
                ;
                assert(g * along.z == ONE * along.z - along.z * fraction) by (nonlinear_arith)
                    requires
                        g == ONE - fraction,
                ;
                lemma_clip_near_parallel(along, rest, hit.normal, g);
                let v = clipped->0;
                lemma_product_bound(v.x as int, v.x as int, 2, 2);
                lemma_product_bound(v.y as int, v.y as int, 2, 2);
                lemma_product_bound(v.z as int, v.z as int, 2, 2);
                assert(at_rest(v));
            }
        },
        None => {},
    }
}

/// A character in a corner slides along the corner's edge or not at all. Where the
/// slide is in contact with one plane and hits a second, what is left to travel is
/// nothing, or a projection onto the crease of the two planes. Along every axis on
/// which the crease has no component, nothing is left, so that with a crease along
/// one axis what is left lies along the crease exactly; and into either plane
/// nothing is left beyond what rounding leaves, half a raw unit on each axis.
pub proof fn theorem_corner_slides_along_crease(slide: SlideModel, hit: HitRecord)
    requires
        slide.wf(),
        slide.casting(),
        hit.is_valid_for(ONE),
        slide.planes.len() == 1,
        !restarts(hit.time_of_impact as int, slide.padding),
    ensures
        ({
            let end = slide.resolve(Some(hit));
            let crease = cross_spec(hit.normal, slide.planes[0]);
            &&& crease is Some
            &&& crease->0.x == 0 ==> end.remaining.x == 0
            &&& crease->0.y == 0 ==> end.remaining.y == 0
            &&& crease->0.z == 0 ==> end.remaining.z == 0
            &&& end.remaining.is_zero() || exists|v: Vec3|
                project_onto_spec(v, crease->0) == Some(end.remaining)
            &&& along_one_axis(crease->0) ==> parallel(end.remaining, crease->0)
            &&& -taxicab(slide.planes[0]) <= 2 * dot_spec(end.remaining, slide.planes[0])
                <= taxicab(slide.planes[0])
            &&& -taxicab(hit.normal) <= 2 * dot_spec(end.remaining, hit.normal) <= taxicab(
                hit.normal,
            )
        }),
{
    lemma_dot_of_zero(slide.planes[0]);
    lemma_dot_of_zero(hit.normal);
    lemma_crease_is_finite(hit.normal, slide.planes[0]);
    lemma_cross_is_square(hit.normal, slide.planes[0]);
    if along_one_axis(cross_spec(hit.normal, slide.planes[0])->0) {
        lemma_parallel_along_one_axis(Vec3::zero(), cross_spec(hit.normal, slide.planes[0])->0);
    }
    let first = slide.planes[0];
    let end = slide.resolve(Some(hit));
    lemma_crease_is_finite(hit.normal, first);
    lemma_crease_is_finite(first, hit.normal);
    let crease = cross_spec(hit.normal, first)->0;
    match slide.advance_to(hit) {
        Some(at) => {
            assert(at.planes =~= seq![first, hit.normal]);
            let onto = project_onto_plane_spec(at.remaining, hit.normal);
            let clipped = crease_fold(onto, at.planes, 0);
            assert(clip(at.remaining, at.planes) == clipped);
            match onto {
                Some(w) => {
                    let edge = cross_spec(first, hit.normal)->0;
                    let once = project_onto_spec(w, edge);
                    assert(crease_fold(onto, at.planes, 0) == crease_fold(once, at.planes, 1));
                    match once {
                        Some(u) => {
                            let twice = project_onto_spec(u, crease);
                            assert(crease_fold(once, at.planes, 1) == crease_fold(
                                twice,
                                at.planes,
                                2,
                            ));
                            assert(crease_fold(twice, at.planes, 2) == twice);
                            if twice is Some {
                                lemma_projection_stays_on_axis(u, crease);
                                if along_one_axis(crease) {
                                    lemma_parallel_along_one_axis(twice->0, crease);
                                }
                                lemma_projection_keeps_off(u, crease, first);
                                lemma_projection_keeps_off(u, crease, hit.normal);
                            }
                        },
                        None => {
                            assert(crease_fold(once, at.planes, 1) == once);
                        },
                    }
                },
                None => {
                    assert(crease_fold(onto, at.planes, 0) == onto);
                },
            }
        },
        None => {},
    }
}

/// A velocity has no component along an axis on which the displacement has none.
pub proof fn lemma_velocity_stays_on_axis(applied: Vec3, dt: int)
    ensures
        applied.x == 0 ==> resolved_velocity(applied, dt).x == 0,
        applied.y == 0 ==> resolved_velocity(applied, dt).y == 0,
        applied.z == 0 ==> resolved_velocity(applied, dt).z == 0,
{
    if dt > 0 {
        assert(0 * ONE == 0);
        assert((2 * 0 + dt) / (2 * dt) == 0) by (nonlinear_arith)
            requires
                dt > 0,
        ;
    }
}

/// The velocity of a character that stands in a corner and pushes into it is zero
/// or runs along the corner's edge. Where the character touches both planes, so that
/// the slide has not moved before it hits the second and does not move up to it,
/// and the way along the edge is free, the velocity the tick resolves to has no
/// component along any axis on which the crease has none.
pub proof fn theorem_corner_velocity_along_crease(slide: SlideModel, hit: HitRecord)
    requires
        slide.wf(),
        slide.casting(),
        hit.is_valid_for(ONE),
        slide.planes.len() == 1,
        !restarts(hit.time_of_impact as int, slide.padding),
        touches(slide, hit),
        slide.applied.is_zero(),
    ensures
        ({
            let end = slide.resolve(Some(hit)).resolve(None);
            let crease = cross_spec(hit.normal, slide.planes[0]);
            let velocity = resolved_velocity(end.applied, end.dt);
            &&& !end.casting()
            &&& crease is Some
            &&& crease->0.x == 0 ==> velocity.x == 0
            &&& crease->0.y == 0 ==> velocity.y == 0
            &&& crease->0.z == 0 ==> velocity.z == 0
        }),
{
    let after = slide.resolve(Some(hit));
    let end = after.resolve(None);
    theorem_corner_slides_along_crease(slide, hit);
    lemma_velocity_stays_on_axis(end.applied, end.dt);
    assert(after.applied.is_zero());
}

} // verus!
