use brw::reader::{outcome_of_stop, ReaderAction, ReaderEvent, ReaderState};
use brw::Running;

type Ev = ReaderEvent<u8, String>;
type Act = ReaderAction<u8, String>;

fn step(state: &mut ReaderState, event: Ev) -> Act {
    assert!(state.accepts_event(&event));
    state.step(event)
}

#[test]
fn stop_outcomes() {
    assert_eq!(outcome_of_stop::<String>(None), Ok(()));
    assert_eq!(outcome_of_stop(Some("x".to_string())), Err("x".to_string()));
}

#[test]
fn reader_loops_until_stop_signal_and_signals_broker() {
    let mut s = ReaderState::new();
    for r in [10u8, 20] {
        assert!(matches!(step(&mut s, ReaderEvent::Operated(Running::Continue(r))), ReaderAction::Handle(x) if x == r));
        assert!(matches!(step(&mut s, ReaderEvent::Handled(Running::Continue(()))), ReaderAction::Race));
    }
    assert!(matches!(step(&mut s, ReaderEvent::StopSignal), ReaderAction::CheckBroker));
    assert!(matches!(step(&mut s, ReaderEvent::BrokerLink(false)), ReaderAction::SignalBroker));
    assert!(matches!(step(&mut s, ReaderEvent::BrokerSignalled), ReaderAction::Return(Ok(()))));
    assert_eq!(s, ReaderState::Finished);
}

#[test]
fn stop_signal_with_broker_gone_returns_ok() {
    let mut s = ReaderState::new();
    assert!(matches!(step(&mut s, ReaderEvent::StopSignal), ReaderAction::CheckBroker));
    assert!(matches!(step(&mut s, ReaderEvent::BrokerLink(true)), ReaderAction::Return(Ok(()))));
}

#[test]
fn op_stop_with_error_returns_it() {
    let mut s = ReaderState::new();
    let a = step(&mut s, ReaderEvent::Operated(Running::Stop(Some("io".to_string()))));
    match a {
        ReaderAction::Return(Err(e)) => assert_eq!(e, "io"),
        _ => panic!("the error must be returned"),
    }
    assert_eq!(s, ReaderState::Finished);
}

#[test]
fn op_stop_without_error_returns_ok() {
    let mut s = ReaderState::new();
    assert!(matches!(step(&mut s, ReaderEvent::Operated(Running::Stop(None))), ReaderAction::Return(Ok(()))));
}

#[test]
fn handler_stop_with_error_returns_it() {
    let mut s = ReaderState::new();
    let _ = step(&mut s, ReaderEvent::Operated(Running::Continue(1)));
    let a = step(&mut s, ReaderEvent::Handled(Running::Stop(Some("bad".to_string()))));
    match a {
        ReaderAction::Return(Err(e)) => assert_eq!(e, "bad"),
        _ => panic!("the error must be returned"),
    }
}

#[test]
fn finished_reader_takes_no_event() {
    let s = ReaderState::Finished;
    assert!(!s.accepts_event(&Ev::StopSignal));
    assert!(!s.accepts_event(&Ev::BrokerSignalled));
}
