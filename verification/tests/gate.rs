use qst::gate::{AdmissionCounter, ConcurrencyGate, PollEvent, ServeAction};

#[test]
fn gate_respects_cap() {
    let mut gate = ConcurrencyGate::new(Some(2));
    assert_eq!(gate.current_in_flight(), 0);
    assert!(gate.has_capacity());
    gate.acquire();
    assert!(gate.has_capacity());
    gate.acquire();
    assert_eq!(gate.current_in_flight(), 2);
    assert!(!gate.has_capacity());
    gate.release();
    assert!(gate.has_capacity());
    assert_eq!(gate.current_in_flight(), 1);
    gate.release();
    assert_eq!(gate.current_in_flight(), 0);
}

#[test]
fn gate_without_cap_always_has_room() {
    let mut gate = ConcurrencyGate::new(None);
    assert!(gate.has_capacity());
    gate.acquire();
    gate.acquire();
    gate.acquire();
    assert!(gate.has_capacity());
    assert_eq!(gate.current_in_flight(), 3);
}

#[test]
fn zero_request_limit_admits_nothing() {
    let counter = AdmissionCounter::new(Some(0));
    assert!(!counter.may_admit());
}

#[test]
fn request_limit_admits_exactly_that_many() {
    let mut counter = AdmissionCounter::new(Some(3));
    let mut admitted: usize = 0;
    while counter.may_admit() {
        let action = counter.on_event(PollEvent::Connection);
        assert_eq!(action, ServeAction::Dispatch);
        admitted += 1;
        assert!(admitted <= 3);
    }
    assert_eq!(admitted, 3);
    assert!(!counter.may_admit());
}

#[test]
fn end_of_input_and_failure_stop_without_admitting() {
    let mut counter = AdmissionCounter::new(Some(5));
    assert_eq!(counter.on_event(PollEvent::EndOfInput), ServeAction::StopClean);
    assert_eq!(counter.on_event(PollEvent::Failure), ServeAction::StopFailed);
    let mut admitted: usize = 0;
    while counter.may_admit() {
        counter.on_event(PollEvent::Connection);
        admitted += 1;
    }
    assert_eq!(admitted, 5);
}

#[test]
fn unlimited_counter_keeps_admitting() {
    let mut counter = AdmissionCounter::new(None);
    for _ in 0..100 {
        assert!(counter.may_admit());
        assert_eq!(counter.on_event(PollEvent::Connection), ServeAction::Dispatch);
    }
    assert!(counter.may_admit());
}
