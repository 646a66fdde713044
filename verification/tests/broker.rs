use brw::broker::{BrokerAction, BrokerEvent, BrokerState};
use brw::running::default_handle_result;
use brw::Running;

type Ev = BrokerEvent<u32, Result<u32, String>>;
type Act = BrokerAction<u32, Result<u32, String>>;

fn step(state: &mut BrokerState, event: Ev) -> Act {
    assert!(state.accepts_event(&event));
    state.step(event)
}

#[test]
fn broker_runs_op_on_each_item_then_stops_on_signal() {
    let mut s = BrokerState::new();
    assert_eq!(s, BrokerState::Racing);
    let mut doubled = Vec::new();
    for item in [1u32, 2, 3] {
        let a = step(&mut s, BrokerEvent::Received(Some(item)));
        let res = match a {
            BrokerAction::Operate(i) => Ok(i * 2),
            _ => panic!("an item must go to op"),
        };
        let a = step(&mut s, BrokerEvent::Operated(Running::Continue(res)));
        let handled = match a {
            BrokerAction::Handle(r) => {
                doubled.push(r.clone().unwrap());
                default_handle_result::<u32, String, ()>(r)
            }
            _ => panic!("the result of op must go to handle_result"),
        };
        let a = step(&mut s, BrokerEvent::Handled(handled));
        assert!(matches!(a, BrokerAction::Race));
    }
    assert_eq!(doubled, vec![2, 4, 6]);
    let a = step(&mut s, BrokerEvent::StopSignal);
    assert!(matches!(a, BrokerAction::CloseWriter));
    assert_eq!(s, BrokerState::ClosingWriter);
}

#[test]
fn empty_receive_waits_again() {
    let mut s = BrokerState::new();
    let a = step(&mut s, BrokerEvent::Received(None));
    assert!(matches!(a, BrokerAction::Race));
    assert_eq!(s, BrokerState::Racing);
}

#[test]
fn op_stop_begins_shutdown() {
    let mut s = BrokerState::new();
    let _ = step(&mut s, BrokerEvent::Received(Some(1)));
    let a = step(&mut s, BrokerEvent::Operated(Running::Stop(())));
    assert!(matches!(a, BrokerAction::CloseWriter));
}

#[test]
fn handler_stop_begins_shutdown() {
    let mut s = BrokerState::new();
    let _ = step(&mut s, BrokerEvent::Received(Some(1)));
    let _ = step(&mut s, BrokerEvent::Operated(Running::Continue(Err("e".to_string()))));
    let a = step(&mut s, BrokerEvent::Handled(Running::Stop(())));
    assert!(matches!(a, BrokerAction::CloseWriter));
}

#[test]
fn full_shutdown_with_reader_reachable() {
    let mut s = BrokerState::new();
    assert!(matches!(step(&mut s, BrokerEvent::StopSignal), BrokerAction::CloseWriter));
    assert!(matches!(step(&mut s, BrokerEvent::WriterClosed), BrokerAction::CheckReader));
    assert!(matches!(step(&mut s, BrokerEvent::ReaderLink(false)), BrokerAction::SignalReader));
    assert!(matches!(step(&mut s, BrokerEvent::ReaderSignalled(true)), BrokerAction::JoinReader));
    assert!(matches!(step(&mut s, BrokerEvent::ReaderJoined), BrokerAction::Exit));
    assert_eq!(s, BrokerState::Done);
    assert!(!s.accepts_event(&Ev::StopSignal));
}

#[test]
fn shutdown_with_reader_gone() {
    let mut s = BrokerState::ClosingWriter;
    assert!(matches!(step(&mut s, BrokerEvent::WriterClosed), BrokerAction::CheckReader));
    assert!(matches!(step(&mut s, BrokerEvent::ReaderLink(true)), BrokerAction::Exit));
    assert_eq!(s, BrokerState::Done);
}

#[test]
fn shutdown_when_signal_fails_does_not_join() {
    let mut s = BrokerState::SignallingReader;
    assert!(matches!(step(&mut s, BrokerEvent::ReaderSignalled(false)), BrokerAction::Exit));
    assert_eq!(s, BrokerState::Done);
}

#[test]
fn events_out_of_turn_are_refused() {
    let s = BrokerState::Racing;
    assert!(!s.accepts_event(&Ev::WriterClosed));
    assert!(!s.accepts_event(&Ev::Operated(Running::Stop(()))));
    let s = BrokerState::Operating;
    assert!(!s.accepts_event(&Ev::StopSignal));
    assert!(s.accepts_event(&Ev::Operated(Running::Stop(()))));
}
