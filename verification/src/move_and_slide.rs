//! The collide-and-slide resolver.
//!
//! A `Slide` turns the displacement a character wants to make in one tick into the
//! displacement it can make. It asks for one shape cast at a time: `request` says
//! what to cast, `resolve` takes the answer, advances to the safe point short of the
//! contact and clips what is left of the displacement against the planes in contact.
//! Every cast spends one bounce, and a slide never asks for more casts than it was
//! given bounces.
use vstd::prelude::*;
use crate::cast::{Capsule, CastRequest, HitRecord};
use crate::fixed::ONE;
use crate::vector::{Vec3, add_spec, cross_spec, dot_spec, project_onto_plane,
    project_onto_plane_spec, project_onto_spec, scale_spec, sub_spec};

verus! {

/// A displacement whose squared length is below this is taken for rest: the square
/// of a hundredth of a unit.
pub const VELOCITY_EPSILON_SQ: i128 = 100_000_000;

/// A contact whose time of impact is further than this from the skin padding starts
/// a new sequence of contacts.
pub const RESTART_THRESHOLD: i64 = 10_000;

/// Where a slide stands: whether it waits for the answer to a cast, or why it ended.
#[derive(Clone, Copy, Debug, PartialEq, Eq, Structural)]
pub enum SlideStatus {
    /// A cast has been asked for and not yet answered.
    Casting,
    /// What was left to travel was too little to act on.
    AtRest,
    /// The velocity, or a value computed from it, was not finite.
    NonFiniteVelocity,
    /// Nothing stood in the way, and all that was left has been travelled.
    Unobstructed,
    /// The clipped displacement turned against the displacement before the contact.
    DegenerateSlide,
    /// All bounces were spent.
    OutOfBounces,
    /// The answer to the cast could not be an answer to it.
    InvalidHit,
}

/// The state of a slide, as plain values.
pub struct SlideModel {
    /// The collider that is swept.
    pub shape: Capsule,
    /// Where the character stands now.
    pub position: Vec3,
    /// The displacement still to be made.
    pub remaining: Vec3,
    /// The displacement made so far.
    pub applied: Vec3,
    /// Normals of the planes in contact, oldest first.
    pub planes: Seq<Vec3>,
    /// The number of casts the slide was given.
    pub bounces: nat,
    /// The number of casts it may still ask for.
    pub budget: nat,
    /// The number of casts it has asked for.
    pub casts: nat,
    /// Skin padding, as a fraction of a sweep.
    pub padding: int,
    /// Length of the tick.
    pub dt: int,
    /// Whether the slide waits for the answer to a cast, or why it ended.
    pub status: SlideStatus,
}

/// Whether a displacement is too small to act on, or not finite.
pub open spec fn at_rest(v: Vec3) -> bool {
    !v.is_finite() || dot_spec(v, v) < VELOCITY_EPSILON_SQ
}

/// Whether a velocity asks for a displacement that can be made: the velocity is
/// finite, and so is the displacement over a tick of length `dt`.
pub open spec fn velocity_in_order(velocity: Vec3, dt: int) -> bool {
    velocity.is_finite() && (dt > 0 ==> scale_spec(velocity, dt, ONE as int) is Some)
}

/// The displacement that `velocity` asks for over a tick of length `dt`. A velocity
/// that is not in order and a tick without length ask for none.
pub open spec fn desired_displacement(velocity: Vec3, dt: int) -> Vec3 {
    if velocity.is_finite() && dt > 0 {
        match scale_spec(velocity, dt, ONE as int) {
            Some(d) => d,
            None => Vec3::zero(),
        }
    } else {
        Vec3::zero()
    }
}

/// The velocity that a displacement of `applied` over a tick of length `dt` amounts to.
pub open spec fn resolved_velocity(applied: Vec3, dt: int) -> Vec3 {
    if dt > 0 {
        match scale_spec(applied, ONE as int, dt) {
            Some(v) => v,
            None => Vec3::zero(),
        }
    } else {
        Vec3::zero()
    }
}

/// The fraction of the sweep that is safe to travel: the time of impact less the
/// skin padding, and never less than nothing.
pub open spec fn safe_fraction(time_of_impact: int, padding: int) -> int {
    if time_of_impact > padding {
        time_of_impact - padding
    } else {
        0
    }
}

/// Whether a contact at `time_of_impact` starts a new sequence of contacts.
pub open spec fn restarts(time_of_impact: int, padding: int) -> bool {
    time_of_impact - padding > RESTART_THRESHOLD || padding - time_of_impact > RESTART_THRESHOLD
}

/// The planes in contact once `hit` has been taken in.
pub open spec fn active_planes(planes: Seq<Vec3>, hit: HitRecord, padding: int) -> Seq<Vec3> {
    if restarts(hit.time_of_impact as int, padding) {
        seq![hit.normal]
    } else {
        planes.push(hit.normal)
    }
}

/// The plane that follows plane `i` in the cycle of planes.
pub open spec fn next_plane(len: nat, i: nat) -> int {
    if i + 1 == len {
        0
    } else {
        (i + 1) as int
    }
}

/// Projects `v` in turn onto the crease of each plane from `i` on with the plane
/// that follows it in the cycle. Nothing where a crease or a projection is not finite.
pub open spec fn crease_fold(v: Option<Vec3>, planes: Seq<Vec3>, i: nat) -> Option<Vec3>
    decreases planes.len() - i,
{
    if i >= planes.len() {
        v
    } else {
        match v {
            None => None,
            Some(w) => match cross_spec(planes[i as int], planes[next_plane(planes.len(), i)]) {
                None => None,
                Some(crease) => crease_fold(project_onto_spec(w, crease), planes, i + 1),
            },
        }
    }
}

/// Clips `v` against the planes in contact: it is projected onto the newest plane
/// and then, with two planes or more, onto each crease in turn.
pub open spec fn clip(v: Vec3, planes: Seq<Vec3>) -> Option<Vec3> {
    let onto = project_onto_plane_spec(v, planes.last());
    if planes.len() >= 2 {
        crease_fold(onto, planes, 0)
    } else {
        onto
    }
}

impl SlideModel {
    /// Whether a cast has been asked for and not yet answered.
    pub open spec fn casting(self) -> bool {
        self.status == SlideStatus::Casting
    }

    /// What every slide keeps true of itself.
    pub open spec fn wf(self) -> bool {
        &&& self.remaining.is_finite()
        &&& self.padding >= 0
        &&& self.casts + self.budget == self.bounces
        &&& self.casting() ==> !at_rest(self.remaining)
        &&& !self.casting() ==> self.remaining.is_zero()
        &&& forall|i: int| 0 <= i < self.planes.len() ==> (#[trigger] self.planes[i]).is_direction()
    }

    /// The slide at its end, for the reason given: nothing is left to travel and no
    /// cast is asked for.
    pub open spec fn stop(self, reason: SlideStatus) -> SlideModel {
        SlideModel { remaining: Vec3::zero(), status: reason, ..self }
    }

    /// Decides whether to cast again: not for a displacement that is not finite or
    /// at rest, and not without a bounce left.
    pub open spec fn settle(self) -> SlideModel {
        if !self.remaining.is_finite() {
            self.stop(SlideStatus::NonFiniteVelocity)
        } else if at_rest(self.remaining) {
            self.stop(SlideStatus::AtRest)
        } else if self.budget == 0 {
            self.stop(SlideStatus::OutOfBounces)
        } else {
            SlideModel {
                status: SlideStatus::Casting,
                budget: (self.budget - 1) as nat,
                casts: self.casts + 1,
                ..self
            }
        }
    }

    /// The slide moved to the safe point short of `hit`, with the hit's plane taken
    /// in. Nothing where a position or displacement would not be finite.
    pub open spec fn advance_to(self, hit: HitRecord) -> Option<SlideModel> {
        match scale_spec(
            self.remaining,
            safe_fraction(hit.time_of_impact as int, self.padding),
            ONE as int,
        ) {
            Some(safe) => match (
                add_spec(self.position, safe),
                add_spec(self.applied, safe),
                sub_spec(self.remaining, safe),
            ) {
                (Some(position), Some(applied), Some(remaining)) => Some(
                    SlideModel {
                        position,
                        applied,
                        remaining,
                        planes: active_planes(self.planes, hit, self.padding),
                        ..self
                    },
                ),
                _ => None,
            },
            None => None,
        }
    }

    /// The slide after a cast that hit: it advances to the safe point, clips what is
    /// left against the planes in contact, and stops where the clipped displacement
    /// no longer goes the way the displacement went before the contact. Where a
    /// value on the way is not finite, it stops as for a velocity that is not finite.
    pub open spec fn on_hit(self, hit: HitRecord) -> SlideModel {
        match self.advance_to(hit) {
            None => self.stop(SlideStatus::NonFiniteVelocity),
            Some(at) => match clip(at.remaining, at.planes) {
                None => at.stop(SlideStatus::NonFiniteVelocity),
                Some(clipped) => if dot_spec(clipped, self.remaining) > 0 {
                    (SlideModel { remaining: clipped, ..at }).settle()
                } else {
                    at.stop(SlideStatus::DegenerateSlide)
                },
            },
        }
    }

    /// The slide after a cast that hit nothing: all that was left is travelled,
    /// unless that would take the character out of the finite range.
    pub open spec fn on_miss(self) -> SlideModel {
        match (add_spec(self.position, self.remaining), add_spec(self.applied, self.remaining)) {
            (Some(position), Some(applied)) => (SlideModel { position, applied, ..self }).stop(
                SlideStatus::Unobstructed,
            ),
            _ => self.stop(SlideStatus::NonFiniteVelocity),
        }
    }

    /// The slide after the answer to its cast. A record that cannot answer the cast
    /// stops the slide where it is; a slide that asked for no cast stays as it is.
    pub open spec fn resolve(self, hit: Option<HitRecord>) -> SlideModel {
        if !self.casting() {
            self
        } else {
            match hit {
                None => self.on_miss(),
                Some(h) => if h.is_valid_for(ONE) {
                    self.on_hit(h)
                } else {
                    self.stop(SlideStatus::InvalidHit)
                },
            }
        }
    }

    /// The cast that the slide asks for, if it asks for one: the collider, turned as
    /// the character is, swept from the position along all that is left of the
    /// displacement, with the character itself left out.
    pub open spec fn request(self) -> Option<CastRequest> {
        if self.casting() {
            Some(
                CastRequest {
                    shape: self.shape,
                    origin: self.position,
                    direction: self.remaining,
                    max_distance: ONE,
                    ignore_origin_penetration: false,
                    use_rotation: true,
                    exclude_caster: true,
                },
            )
        } else {
            None
        }
    }

    /// The slide after a run of answers, each taken in its turn.
    pub open spec fn run(self, answers: Seq<Option<HitRecord>>) -> SlideModel
        decreases answers.len(),
    {
        if answers.len() == 0 {
            self
        } else {
            self.run(answers.drop_last()).resolve(answers.last())
        }
    }

    /// The slide before its first cast. A velocity that is not in order ends it
    /// there and then.
    pub open spec fn begin(
        shape: Capsule,
        position: Vec3,
        velocity: Vec3,
        dt: int,
        bounces: nat,
        padding: int,
    ) -> SlideModel {
        let start = SlideModel {
            shape,
            position,
            remaining: desired_displacement(velocity, dt),
            applied: Vec3::zero(),
            planes: Seq::empty(),
            bounces,
            budget: bounces,
            casts: 0,
            padding,
            dt,
            status: SlideStatus::AtRest,
        };
        if velocity_in_order(velocity, dt) {
            start.settle()
        } else {
            start.stop(SlideStatus::NonFiniteVelocity)
        }
    }
}

/// A slide in progress.
pub struct Slide {
    shape: Capsule,
    position: Vec3,
    remaining: Vec3,
    applied: Vec3,
    planes: Vec<Vec3>,
    bounces: u32,
    budget: u32,
    casts: u32,
    padding: i64,
    dt: i64,
    status: SlideStatus,
}

impl View for Slide {
    type V = SlideModel;

    closed spec fn view(&self) -> SlideModel {
        SlideModel {
            shape: self.shape,
            position: self.position,
            remaining: self.remaining,
            applied: self.applied,
            planes: self.planes@,
            bounces: self.bounces as nat,
            budget: self.budget as nat,
            casts: self.casts as nat,
            padding: self.padding as int,
            dt: self.dt as int,
            status: self.status,
        }
    }
}

impl Slide {
    /// Starts the slide of one tick: a character at `position` that wants to move
    /// with `velocity` for `dt`, with `bounces` casts to spend.
    pub fn begin(
        shape: Capsule,
        position: Vec3,
        velocity: Vec3,
        dt: i64,
        bounces: u32,
        padding: i64,
    ) -> (slide: Slide)
        requires
            padding >= 0,
        ensures
            slide@ == SlideModel::begin(
                shape,
                position,
                velocity,
                dt as int,
                bounces as nat,
                padding as int,
            ),
            slide@.wf(),
    {
        let wanted = if velocity.is_finite() && dt > 0 {
            velocity.scale(dt, ONE)
        } else {
            Some(Vec3::zero())
        };
        let mut slide = Slide {
            shape,
            position,
            remaining: Vec3::zero(),
            applied: Vec3::zero(),
            planes: Vec::new(),
            bounces,
            budget: bounces,
            casts: 0,
            padding,
            dt,
            status: SlideStatus::AtRest,
        };
        match wanted {
            Some(d) => {
                if velocity.is_finite() {
                    slide.remaining = d;
                    slide.settle();
                } else {
                    slide.stop(SlideStatus::NonFiniteVelocity);
                }
            },
            None => {
                slide.stop(SlideStatus::NonFiniteVelocity);
            },
        }
        slide
    }

    /// The cast that the slide asks for next, or nothing once it has come to its end.
    pub fn request(&self) -> (request: Option<CastRequest>)
        ensures
            request == self@.request(),
    {
        if self.is_casting() {
            Some(
                CastRequest {
                    shape: self.shape,
                    origin: self.position,
                    direction: self.remaining,
                    max_distance: ONE,
                    ignore_origin_penetration: false,
                    use_rotation: true,
                    exclude_caster: true,
                },
            )
        } else {
            None
        }
    }

    /// Takes the answer to the cast that was asked for: the first hit, or nothing
    /// where the sweep was free.
    pub fn resolve(&mut self, hit: Option<HitRecord>)
        requires
            old(self)@.wf(),
        ensures
            final(self)@ == old(self)@.resolve(hit),
            final(self)@.wf(),
    {
        if !self.is_casting() {
            return ;
        }
        match hit {
            None => {
                self.on_miss();
            },
            Some(h) => {
                if h.is_valid_for(ONE) {
                    self.on_hit(h);
                } else {
                    self.stop(SlideStatus::InvalidHit);
                }
            },
        }
    }

    /// Whether the slide waits for the answer to a cast, or why it ended.
    pub fn status(&self) -> (status: SlideStatus)
        ensures
            status == self@.status,
    {
        self.status
    }

    /// Whether the slide has come to its end.
    pub fn is_finished(&self) -> (done: bool)
        ensures
            done == !self@.casting(),
    {
        !self.is_casting()
    }

    fn is_casting(&self) -> (casting: bool)
        ensures
            casting == self@.casting(),
    {
        self.status == SlideStatus::Casting
    }

    /// Where the character stands now.
    pub fn position(&self) -> (position: Vec3)
        ensures
            position == self@.position,
    {
        self.position
    }

    /// The displacement made so far.
    pub fn applied(&self) -> (applied: Vec3)
        ensures
            applied == self@.applied,
    {
        self.applied
    }

    /// The displacement still to be made.
    pub fn remaining(&self) -> (remaining: Vec3)
        ensures
            remaining == self@.remaining,
    {
        self.remaining
    }

    /// The number of casts asked for so far.
    pub fn casts(&self) -> (casts: u32)
        ensures
            casts == self@.casts,
    {
        self.casts
    }

    /// The number of planes in contact.
    pub fn plane_count(&self) -> (count: usize)
        ensures
            count == self@.planes.len(),
    {
        self.planes.len()
    }

    /// The velocity that the displacement made so far amounts to over the tick.
    pub fn velocity(&self) -> (velocity: Vec3)
        ensures
            velocity == resolved_velocity(self@.applied, self@.dt),
    {
        if self.dt > 0 {
            match self.applied.scale(ONE, self.dt) {
                Some(v) => v,
                None => Vec3::zero(),
            }
        } else {
            Vec3::zero()
        }
    }

    fn stop(&mut self, reason: SlideStatus)
        ensures
            final(self)@ == old(self)@.stop(reason),
    {
        self.remaining = Vec3::zero();
        self.status = reason;
    }

    fn settle(&mut self)
        requires
            old(self).casts + old(self).budget == old(self).bounces,
        ensures
            final(self)@ == old(self)@.settle(),
    {
        if !self.remaining.is_finite() {
            self.stop(SlideStatus::NonFiniteVelocity);
        } else if self.remaining.length_squared() < VELOCITY_EPSILON_SQ {
            self.stop(SlideStatus::AtRest);
        } else if self.budget == 0 {
            self.stop(SlideStatus::OutOfBounces);
        } else {
            self.status = SlideStatus::Casting;
            self.budget = self.budget - 1;
            self.casts = self.casts + 1;
        }
    }

    fn on_miss(&mut self)
        ensures
            final(self)@ == old(self)@.on_miss(),
    {
        match (self.position.checked_add(self.remaining), self.applied.checked_add(self.remaining)) {
            (Some(position), Some(applied)) => {
                self.position = position;
                self.applied = applied;
                self.stop(SlideStatus::Unobstructed);
            },
            _ => {
                self.stop(SlideStatus::NonFiniteVelocity);
            },
        }
    }

    fn on_hit(&mut self, hit: HitRecord)
        requires
            old(self)@.wf(),
            hit.is_valid_for(ONE),
        ensures
            final(self)@ == old(self)@.on_hit(hit),
            final(self)@.wf(),
    {
        let before = self.remaining;
        let fraction: i64 = if hit.time_of_impact > self.padding {
            hit.time_of_impact - self.padding
        } else {
            0
        };
        let moved = match self.remaining.scale(fraction, ONE) {
            Some(safe) => match (
                self.position.checked_add(safe),
                self.applied.checked_add(safe),
                self.remaining.checked_sub(safe),
            ) {
                (Some(position), Some(applied), Some(remaining)) => Some(
                    (position, applied, remaining),
                ),
                _ => None,
            },
            None => None,
        };
        match moved {
            None => {
                self.stop(SlideStatus::NonFiniteVelocity);
            },
            Some((position, applied, remaining)) => {
                self.position = position;
                self.applied = applied;
                self.remaining = remaining;
                if hit.time_of_impact - self.padding > RESTART_THRESHOLD || self.padding
                    - hit.time_of_impact > RESTART_THRESHOLD {
                    self.planes.clear();
                }
                self.planes.push(hit.normal);
                assert(self@.planes =~= active_planes(old(self)@.planes, hit, self.padding as int));
                assert(Some(self@) == old(self)@.advance_to(hit));
                match clip_against(remaining, &self.planes) {
                    None => {
                        self.stop(SlideStatus::NonFiniteVelocity);
                    },
                    Some(clipped) => {
                        if clipped.dot(before) > 0 {
                            self.remaining = clipped;
                            self.settle();
                        } else {
                            self.stop(SlideStatus::DegenerateSlide);
                        }
                    },
                }
            },
        }
    }
}

/// One step of the slide: takes the answer to the cast that the slide asked for
/// last, and says what to cast next, or nothing once the slide has come to its end.
pub fn collide_and_slide(slide: &mut Slide, hit: Option<HitRecord>) -> (next: Option<CastRequest>)
    requires
        old(slide)@.wf(),
    ensures
        final(slide)@ == old(slide)@.resolve(hit),
        final(slide)@.wf(),
        next == final(slide)@.request(),
        next is None <==> !final(slide)@.casting(),
{
    slide.resolve(hit);
    slide.request()
}

/// Clips `v` against the planes in contact, the newest of which is the last.
fn clip_against(v: Vec3, planes: &Vec<Vec3>) -> (res: Option<Vec3>)
    requires
        v.is_finite(),
        planes.len() >= 1,
        forall|i: int| 0 <= i < planes.len() ==> (#[trigger] planes[i]).is_direction(),
    ensures
        res == clip(v, planes@),
        res is Some ==> res->0.is_finite(),
{
    let len: usize = planes.len();
    let onto = project_onto_plane(v, planes[len - 1]);
    if len < 2 {
        return onto;
    }
    let mut current = onto;
    let mut i: usize = 0;
    while i < len
        invariant
            len == planes.len(),
            i <= len,
            forall|k: int| 0 <= k < planes.len() ==> (#[trigger] planes[k]).is_direction(),
            current is Some ==> current->0.is_finite(),
            crease_fold(current, planes@, i as nat) == crease_fold(onto, planes@, 0),
        decreases len - i,
    {
        let next: usize = if i + 1 == len {
            0
        } else {
            i + 1
        };
        current = match current {
            None => None,
            Some(w) => match planes[i].cross(planes[next]) {
                None => None,
                Some(crease) => w.project_onto(crease),
            },
        };
        i = i + 1;
    }
    current
}

} // verus!
