use parity_run::coordinator::{Cause, Coordinator, Event, State};

#[test]
fn coordinator_walks_from_running_to_stopped() {
    let mut c = Coordinator::new();
    assert_eq!(c.state(), State::Running);
    assert_eq!(c.cause(), None);
    assert!(c.accepting());
    assert!(c.request(Cause::Operator));
    assert_eq!(c.state(), State::TerminationRequested);
    assert!(c.accepting());
    assert!(c.begin_drain());
    assert_eq!(c.state(), State::Draining);
    assert!(!c.accepting());
    assert!(c.finish());
    assert_eq!(c.state(), State::Stopped);
    assert_eq!(c.cause(), Some(Cause::Operator));
}

#[test]
fn signal_and_failure_together_cause_one_teardown() {
    for first in [Cause::Operator, Cause::Failure] {
        let second = if first == Cause::Operator { Cause::Failure } else { Cause::Operator };
        let mut c = Coordinator::new();
        let mut drains = 0;
        assert!(c.request(first));
        assert!(!c.request(second));
        if c.begin_drain() {
            drains += 1;
        }
        assert!(!c.request(second));
        if c.begin_drain() {
            drains += 1;
        }
        assert!(!c.request(first));
        assert_eq!(drains, 1);
        assert_eq!(c.cause(), Some(first));
        assert_eq!(c.state(), State::Draining);
    }
}

#[test]
fn teardown_begins_at_most_once_in_any_order_of_events() {
    let kinds = [
        Event::Request(Cause::Operator),
        Event::Request(Cause::Failure),
        Event::BeginDrain,
        Event::Finish,
        Event::Tick,
    ];
    for code in 0..5usize.pow(6) {
        let mut c = Coordinator::new();
        let mut entered = 0;
        let mut rest = code;
        for _ in 0..6 {
            let event = kinds[rest % 5];
            rest /= 5;
            let before = c.state();
            c.apply(event);
            if before != State::Draining && c.state() == State::Draining {
                entered += 1;
            }
        }
        assert!(entered <= 1);
        let ended = c.state() == State::Draining || c.state() == State::Stopped;
        assert_eq!(entered == 1, ended);
    }
}

#[test]
fn no_cycle_is_scheduled_once_draining() {
    let mut c = Coordinator::new();
    assert!(c.schedule_cycle());
    assert!(c.schedule_cycle());
    assert_eq!(c.scheduled(), 2);
    c.request(Cause::Failure);
    assert!(c.schedule_cycle());
    assert_eq!(c.scheduled(), 3);
    c.begin_drain();
    for _ in 0..1000 {
        assert!(!c.schedule_cycle());
        assert!(!c.request(Cause::Operator));
    }
    assert_eq!(c.scheduled(), 3);
    c.finish();
    assert!(!c.schedule_cycle());
    assert_eq!(c.scheduled(), 3);
}

#[test]
fn events_out_of_turn_change_nothing() {
    let mut c = Coordinator::new();
    assert!(!c.begin_drain());
    assert!(!c.finish());
    assert_eq!(c.state(), State::Running);
    assert!(c.accepting());
    c.request(Cause::Operator);
    assert!(!c.finish());
    assert_eq!(c.state(), State::TerminationRequested);
    assert!(c.apply(Event::BeginDrain));
    assert!(!c.apply(Event::BeginDrain));
    assert!(!c.apply(Event::Tick));
    assert!(c.apply(Event::Finish));
    assert!(!c.apply(Event::Finish));
    assert_eq!(c.state(), State::Stopped);
}
