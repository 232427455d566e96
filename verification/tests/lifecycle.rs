use ffservice::error::ServiceError;
use ffservice::pipeline::{Event, Phase, Transition};

fn run(events: &[Event]) -> (Phase, usize) {
    let mut phase = Phase::start();
    let mut releases = 0;
    for event in events {
        let step = phase.advance(*event);
        if step.release {
            releases += 1;
        }
        phase = step.next;
    }
    (phase, releases)
}

#[test]
fn call_starts_ingesting() {
    assert_eq!(Phase::start(), Phase::Ingesting);
    assert!(!Phase::start().is_final());
}

#[test]
fn successful_call_passes_the_three_phases_and_releases_once() {
    let mut phase = Phase::start();
    let step = phase.advance(Event::RequestEnded);
    assert_eq!(step, Transition { next: Phase::Processing, release: false });
    phase = step.next;
    let step = phase.advance(Event::EngineFinished);
    assert_eq!(step, Transition { next: Phase::Emitting, release: false });
    phase = step.next;
    let step = phase.advance(Event::ResponseEnded);
    assert_eq!(step, Transition { next: Phase::Done, release: true });
    assert!(step.next.is_final());
}

#[test]
fn cancel_during_ingestion_releases_the_files() {
    let step = Phase::Ingesting.advance(Event::Cancel);
    assert_eq!(step, Transition { next: Phase::Failed(ServiceError::Canceled), release: true });
}

#[test]
fn cancel_aborts_every_running_phase() {
    for phase in [Phase::Ingesting, Phase::Processing, Phase::Emitting] {
        let step = phase.advance(Event::Cancel);
        assert_eq!(step.next, Phase::Failed(ServiceError::Canceled));
        assert!(step.release);
    }
}

#[test]
fn failure_carries_its_status() {
    let step = Phase::Processing.advance(Event::Failure(ServiceError::InvalidArgument));
    assert_eq!(step, Transition { next: Phase::Failed(ServiceError::InvalidArgument), release: true });
    let step = Phase::Emitting.advance(Event::Failure(ServiceError::Internal));
    assert_eq!(step, Transition { next: Phase::Failed(ServiceError::Internal), release: true });
}

#[test]
fn ended_call_ignores_later_events() {
    for phase in [Phase::Done, Phase::Failed(ServiceError::Canceled)] {
        for event in [
            Event::RequestEnded,
            Event::EngineFinished,
            Event::ResponseEnded,
            Event::Failure(ServiceError::Internal),
            Event::Cancel,
        ] {
            assert_eq!(phase.advance(event), Transition { next: phase, release: false });
        }
    }
}

#[test]
fn event_out_of_turn_is_an_internal_failure() {
    let step = Phase::Ingesting.advance(Event::EngineFinished);
    assert_eq!(step, Transition { next: Phase::Failed(ServiceError::Internal), release: true });
    let step = Phase::Processing.advance(Event::RequestEnded);
    assert_eq!(step.next, Phase::Failed(ServiceError::Internal));
    let step = Phase::Emitting.advance(Event::EngineFinished);
    assert_eq!(step.next, Phase::Failed(ServiceError::Internal));
}

#[test]
fn files_are_never_released_twice() {
    let (phase, releases) = run(&[Event::RequestEnded, Event::Cancel, Event::Cancel, Event::ResponseEnded]);
    assert_eq!(phase, Phase::Failed(ServiceError::Canceled));
    assert_eq!(releases, 1);
    let (phase, releases) = run(&[Event::RequestEnded, Event::EngineFinished]);
    assert_eq!(phase, Phase::Emitting);
    assert_eq!(releases, 0);
}
