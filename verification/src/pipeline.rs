//! Lifecycle of one call: three phases in strict sequence, and the release of
//! the call's temporary files on every way out.

use vstd::prelude::*;
use crate::error::ServiceError;

verus! {

/// Where a call stands.
#[derive(Clone, Copy, Debug, PartialEq, Eq, Structural)]
pub enum Phase {
    /// The request stream is being drained into the staging file.
    Ingesting,
    /// The media engine works on the staged file.
    Processing,
    /// The response stream is being written.
    Emitting,
    /// The call completed normally.
    Done,
    /// The call was aborted with the given status.
    Failed(ServiceError),
}

/// What happened to a call.
#[derive(Clone, Copy, Debug, PartialEq, Eq, Structural)]
pub enum Event {
    /// The request stream ended and its header was seen.
    RequestEnded,
    /// The media engine delivered metadata and thumbnail.
    EngineFinished,
    /// The last response frame was written.
    ResponseEnded,
    /// A step of the current phase failed with the given status.
    Failure(ServiceError),
    /// Either party canceled the call.
    Cancel,
}

/// The outcome of one event: the phase that follows, and whether the call's
/// staging and output files are to be deleted now.
#[derive(Clone, Copy, Debug, PartialEq, Eq, Structural)]
pub struct Transition {
    pub next: Phase,
    pub release: bool,
}

/// Whether a phase is final.
pub open spec fn is_terminal(phase: Phase) -> bool {
    phase is Done || phase is Failed
}

/// Whether media engine work may be started in a phase.
pub open spec fn engine_may_run(phase: Phase) -> bool {
    phase is Processing
}

/// The phase that follows an event.  A final phase stays; cancellation and
/// failure abort every other phase; the event that a phase waits for leads to
/// the next phase, and any other one is an internal failure.
pub open spec fn next_phase(phase: Phase, event: Event) -> Phase {
    if is_terminal(phase) {
        phase
    } else {
        match (phase, event) {
            (_, Event::Cancel) => Phase::Failed(ServiceError::Canceled),
            (_, Event::Failure(e)) => Phase::Failed(e),
            (Phase::Ingesting, Event::RequestEnded) => Phase::Processing,
            (Phase::Processing, Event::EngineFinished) => Phase::Emitting,
            (Phase::Emitting, Event::ResponseEnded) => Phase::Done,
            _ => Phase::Failed(ServiceError::Internal),
        }
    }
}

/// The transition for an event: the files are released exactly when the call
/// enters a final phase.
pub open spec fn transition(phase: Phase, event: Event) -> Transition {
    Transition {
        next: next_phase(phase, event),
        release: !is_terminal(phase) && is_terminal(next_phase(phase, event)),
    }
}

/// The phase after a sequence of events.
pub open spec fn phase_after(phase: Phase, events: Seq<Event>) -> Phase
    decreases events.len(),
{
    if events.len() == 0 {
        phase
    } else {
        next_phase(phase_after(phase, events.drop_last()), events.last())
    }
}

/// How often a sequence of events asks for the files to be released.
pub open spec fn releases(phase: Phase, events: Seq<Event>) -> nat
    decreases events.len(),
{
    if events.len() == 0 {
        0
    } else {
        releases(phase, events.drop_last()) + if transition(
            phase_after(phase, events.drop_last()),
            events.last(),
        ).release {
            1nat
        } else {
            0nat
        }
    }
}

impl Phase {
    /// The phase in which every call starts.
    pub fn start() -> (phase: Phase)
        ensures
            phase == Phase::Ingesting,
    {
        Phase::Ingesting
    }

    /// Whether the call has ended, normally or not.
    pub fn is_final(self) -> (terminal: bool)
        ensures
            terminal == is_terminal(self),
    {
        match self {
            Phase::Done => true,
            Phase::Failed(_) => true,
            _ => false,
        }
    }

    /// Applies one event.
    pub fn advance(self, event: Event) -> (step: Transition)
        ensures
            step == transition(self, event),
    {
        if self.is_final() {
            return Transition { next: self, release: false };
        }
        let next = match event {
            Event::Cancel => Phase::Failed(ServiceError::Canceled),
            Event::Failure(e) => Phase::Failed(e),
            Event::RequestEnded => match self {
                Phase::Ingesting => Phase::Processing,
                _ => Phase::Failed(ServiceError::Internal),
            },
            Event::EngineFinished => match self {
                Phase::Processing => Phase::Emitting,
                _ => Phase::Failed(ServiceError::Internal),
            },
            Event::ResponseEnded => match self {
                Phase::Emitting => Phase::Done,
                _ => Phase::Failed(ServiceError::Internal),
            },
        };
        Transition { next, release: next.is_final() }
    }
}

/// Once a call has ended, no event changes its phase or releases again.
pub proof fn lemma_final_phase_stays(phase: Phase, events: Seq<Event>)
    requires
        is_terminal(phase),
    ensures
        phase_after(phase, events) == phase,
        releases(phase, events) == 0,
    decreases events.len(),
{
    if events.len() > 0 {
        lemma_final_phase_stays(phase, events.drop_last());
    }
}

/// Whatever happens to a call, its files are released once if it has ended
/// and not at all before; in particular they are never released twice.
pub proof fn lemma_released_once_at_the_end(phase: Phase, events: Seq<Event>)
    requires
        !is_terminal(phase),
    ensures
        releases(phase, events) == if is_terminal(phase_after(phase, events)) {
            1nat
        } else {
            0nat
        },
    decreases events.len(),
{
    if events.len() > 0 {
        lemma_released_once_at_the_end(phase, events.drop_last());
    }
}

/// After a cancellation the call has failed as canceled, unless it had ended
/// before; its files are released, and the media engine is not started again
/// whatever follows.
pub proof fn lemma_cancel_ends_the_call(phase: Phase, later: Seq<Event>)
    ensures
        is_terminal(next_phase(phase, Event::Cancel)),
        !is_terminal(phase) ==> transition(phase, Event::Cancel) == (Transition {
            next: Phase::Failed(ServiceError::Canceled),
            release: true,
        }),
        !engine_may_run(phase_after(next_phase(phase, Event::Cancel), later)),
        releases(next_phase(phase, Event::Cancel), later) == 0,
{
    lemma_final_phase_stays(next_phase(phase, Event::Cancel), later);
}

/// The phases follow each other strictly: processing starts only when the
/// request stream has ended, emission only when the engine has finished, and
/// no call goes back to ingesting.
pub proof fn lemma_phases_in_sequence(phase: Phase, event: Event)
    ensures
        next_phase(phase, event) is Processing ==> phase is Ingesting && event is RequestEnded,
        next_phase(phase, event) is Emitting ==> phase is Processing && event is EngineFinished,
        next_phase(phase, event) is Done ==> phase is Done || (phase is Emitting
            && event is ResponseEnded),
        !(next_phase(phase, event) is Ingesting),
{
}

} // verus!
