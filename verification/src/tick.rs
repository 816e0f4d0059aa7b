//! One tick of a character, in its fixed order: the slide, the overlap test where
//! one is set up, the floor probe, the grounding.
//!
//! A `Tick` walks a `CharacterBody` through that order one shape cast at a time.
//! `request` says what to cast next, `advance` takes the answer. Nothing can be
//! taken out of turn: the grounding is updated once, by the answer to the floor
//! probe, and the floor is probed from where the slide has left the character.
use vstd::prelude::*;
use crate::cast::{CastRequest, HitRecord};
use crate::kinematic_controller::{KCCFloorDetection, KCCGrounded, KinematicCharacterController,
    depenetrate, depenetrate_spec, depenetration_cast, floor_after, floor_cast, grounding_after,
    update_kinematic_character_controller, update_kinematic_floor, update_kinematic_grounding,
    walkable};
use crate::move_and_slide::{Slide, SlideModel, SlideStatus, resolved_velocity};
use crate::vector::Vec3;

verus! {

/// All that one character owns: where it stands and the three parts of its state.
#[derive(Clone, Copy, Debug)]
pub struct CharacterBody {
    pub position: Vec3,
    pub controller: KinematicCharacterController,
    pub floor: KCCFloorDetection,
    pub grounded: KCCGrounded,
}

impl CharacterBody {
    /// The controller and the floor detection are in order.
    pub open spec fn wf(self) -> bool {
        self.controller.wf() && self.floor.wf()
    }

    /// Tests whether the controller and the floor detection are in order.
    pub fn is_valid(&self) -> (b: bool)
        ensures
            b == self.wf(),
    {
        self.controller.is_valid() && self.floor.is_valid()
    }

    /// Takes the outcome of a slide: its position, and the velocity the slide
    /// resolved to, which is from then on the history for the next tick.
    pub fn take_slide(&mut self, slide: &Slide)
        ensures
            *final(self) == body_after_slide(*old(self), slide@),
    {
        self.position = slide.position();
        self.controller.velocity = slide.velocity();
        update_kinematic_character_controller(&mut self.controller);
    }
}

/// Where a tick stands.
#[derive(Clone, Copy, Debug, PartialEq, Eq, Structural)]
pub enum TickPhase {
    /// The slide has asked for a cast.
    Sliding,
    /// The overlap test has been asked for.
    Depenetrating,
    /// The floor probe has been asked for.
    ProbingFloor,
    /// The tick is over.
    Complete,
}

/// A character after its slide has ended: it stands where the slide left it, and
/// its velocity, and with it the velocity's history, is what the slide resolved to.
pub open spec fn body_after_slide(body: CharacterBody, slide: SlideModel) -> CharacterBody {
    CharacterBody {
        position: slide.position,
        controller: KinematicCharacterController {
            velocity: resolved_velocity(slide.applied, slide.dt),
            prev_velocity: resolved_velocity(slide.applied, slide.dt),
            ..body.controller
        },
        ..body
    }
}

/// The phase that follows the slide.
pub open spec fn phase_after_slide(body: CharacterBody) -> TickPhase {
    if body.controller.depenetration is Some {
        TickPhase::Depenetrating
    } else {
        TickPhase::ProbingFloor
    }
}

/// A character after the answer to its floor probe: the floor is taken in, and the
/// grounding follows from it.
pub open spec fn body_after_floor(body: CharacterBody, hit: Option<HitRecord>) -> CharacterBody {
    let floor = floor_after(body.floor, hit);
    CharacterBody {
        floor,
        grounded: grounding_after(
            body.grounded,
            walkable(floor.floor_normal, body.controller.up, body.controller.max_slope_cosine as int),
        ),
        ..body
    }
}

/// The state of a tick, as plain values.
pub struct TickModel {
    pub phase: TickPhase,
    pub slide: SlideModel,
}

impl TickModel {
    /// What every tick keeps true of itself and the character it moves.
    pub open spec fn wf(self, body: CharacterBody) -> bool {
        &&& self.slide.wf()
        &&& body.wf()
        &&& self.phase == TickPhase::Sliding <==> self.slide.casting()
        &&& self.phase == TickPhase::Depenetrating ==> body.controller.depenetration is Some
    }

    /// The tick and the character once the slide stands at `slide`: while it asks
    /// for a cast the character is left alone, and once it has ended the character
    /// takes its outcome.
    pub open spec fn with_slide(body: CharacterBody, slide: SlideModel) -> (TickModel, CharacterBody) {
        if slide.casting() {
            (TickModel { phase: TickPhase::Sliding, slide }, body)
        } else {
            (
                TickModel { phase: phase_after_slide(body), slide },
                body_after_slide(body, slide),
            )
        }
    }

    /// The tick of length `dt` at its start.
    pub open spec fn begin(body: CharacterBody, dt: int) -> (TickModel, CharacterBody) {
        Self::with_slide(
            body,
            SlideModel::begin(
                body.controller.collider,
                body.position,
                body.controller.velocity,
                dt,
                body.controller.bounces as nat,
                body.controller.skin_padding as int,
            ),
        )
    }

    /// The cast that the tick asks for next.
    pub open spec fn request(self, body: CharacterBody) -> Option<CastRequest> {
        match self.phase {
            TickPhase::Sliding => self.slide.request(),
            TickPhase::Depenetrating => depenetration_cast(body.controller, body.position),
            TickPhase::ProbingFloor => Some(floor_cast(body.floor, body.position)),
            TickPhase::Complete => None,
        }
    }

    /// The tick and the character after the answer to the cast that was asked for.
    pub open spec fn advance(self, body: CharacterBody, hit: Option<HitRecord>) -> (
        TickModel,
        CharacterBody,
    ) {
        match self.phase {
            TickPhase::Sliding => Self::with_slide(body, self.slide.resolve(hit)),
            TickPhase::Depenetrating => (
                TickModel { phase: TickPhase::ProbingFloor, ..self },
                CharacterBody { position: depenetrate_spec(body.position, hit), ..body },
            ),
            TickPhase::ProbingFloor => (
                TickModel { phase: TickPhase::Complete, ..self },
                body_after_floor(body, hit),
            ),
            TickPhase::Complete => (self, body),
        }
    }

    /// The tick and the character after a run of answers, each taken in its turn.
    pub open spec fn run(self, body: CharacterBody, answers: Seq<Option<HitRecord>>) -> (
        TickModel,
        CharacterBody,
    )
        decreases answers.len(),
    {
        if answers.len() == 0 {
            (self, body)
        } else {
            let before = self.run(body, answers.drop_last());
            before.0.advance(before.1, answers.last())
        }
    }
}

/// One step of a character's tick: takes the answer to the cast that the tick asked
/// for last, and says what to cast next, or nothing once the tick is over.
pub fn collide_and_slide_system(
    tick: &mut Tick,
    body: &mut CharacterBody,
    hit: Option<HitRecord>,
) -> (next: Option<CastRequest>)
    requires
        old(tick)@.wf(*old(body)),
    ensures
        (final(tick)@, *final(body)) == old(tick)@.advance(*old(body), hit),
        final(tick)@.wf(*final(body)),
        next == final(tick)@.request(*final(body)),
        next is None <==> final(tick)@.phase == TickPhase::Complete,
{
    tick.advance(body, hit);
    tick.request(body)
}

/// A tick in progress.
pub struct Tick {
    phase: TickPhase,
    slide: Slide,
}

impl View for Tick {
    type V = TickModel;

    closed spec fn view(&self) -> TickModel {
        TickModel { phase: self.phase, slide: self.slide@ }
    }
}

impl Tick {
    /// Starts a tick of length `dt` for the character.
    pub fn begin(body: &mut CharacterBody, dt: i64) -> (tick: Tick)
        requires
            old(body).wf(),
        ensures
            (tick@, *final(body)) == TickModel::begin(*old(body), dt as int),
            tick@.wf(*final(body)),
    {
        let slide = Slide::begin(
            body.controller.collider,
            body.position,
            body.controller.velocity,
            dt,
            body.controller.bounces,
            body.controller.skin_padding,
        );
        let mut tick = Tick { phase: TickPhase::Sliding, slide };
        tick.follow_slide(body);
        tick
    }

    /// The cast that the tick asks for next, or nothing once the tick is over.
    pub fn request(&self, body: &CharacterBody) -> (request: Option<CastRequest>)
        ensures
            request == self@.request(*body),
    {
        match self.phase {
            TickPhase::Sliding => self.slide.request(),
            TickPhase::Depenetrating => depenetration_cast(body.controller, body.position),
            TickPhase::ProbingFloor => Some(floor_cast(body.floor, body.position)),
            TickPhase::Complete => None,
        }
    }

    /// Takes the answer to the cast that was asked for.
    pub fn advance(&mut self, body: &mut CharacterBody, hit: Option<HitRecord>)
        requires
            old(self)@.wf(*old(body)),
        ensures
            (final(self)@, *final(body)) == old(self)@.advance(*old(body), hit),
            final(self)@.wf(*final(body)),
    {
        match self.phase {
            TickPhase::Sliding => {
                self.slide.resolve(hit);
                self.follow_slide(body);
            },
            TickPhase::Depenetrating => {
                body.position = depenetrate(body.position, hit);
                self.phase = TickPhase::ProbingFloor;
            },
            TickPhase::ProbingFloor => {
                update_kinematic_floor(&mut body.floor, hit);
                update_kinematic_grounding(&mut body.grounded, &body.floor, &body.controller);
                self.phase = TickPhase::Complete;
            },
            TickPhase::Complete => {},
        }
    }

    /// Where the tick stands.
    pub fn phase(&self) -> (phase: TickPhase)
        ensures
            phase == self@.phase,
    {
        self.phase
    }

    /// Whether the tick is over.
    pub fn is_complete(&self) -> (done: bool)
        ensures
            done == (self@.phase == TickPhase::Complete),
    {
        self.phase == TickPhase::Complete
    }

    /// Where the slide of this tick stands, or why it ended.
    pub fn slide_status(&self) -> (status: SlideStatus)
        ensures
            status == self@.slide.status,
    {
        self.slide.status()
    }

    /// The number of casts the slide of this tick has asked for.
    pub fn slide_casts(&self) -> (casts: u32)
        ensures
            casts == self@.slide.casts,
    {
        self.slide.casts()
    }

    fn follow_slide(&mut self, body: &mut CharacterBody)
        requires
            old(self).slide@.wf(),
            old(body).wf(),
        ensures
            (final(self)@, *final(body)) == TickModel::with_slide(*old(body), old(self).slide@),
            final(self)@.wf(*final(body)),
    {
        if self.slide.is_finished() {
            self.phase = if body.controller.depenetration.is_some() {
                TickPhase::Depenetrating
            } else {
                TickPhase::ProbingFloor
            };
            body.take_slide(&self.slide);
        } else {
            self.phase = TickPhase::Sliding;
        }
    }
}

} // verus!
