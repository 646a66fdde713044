use brw::running::default_handle_result;
use brw::writer::{WriterAction, WriterEvent, WriterState};
use brw::Running;

#[derive(Debug, PartialEq)]
enum TestWriterItem {
    Foo(String),
    Bar(i32),
}

/// Drives the writer machine over `items`, with an `op` that records each
/// item and answers with `answer`, and the default `handle_result`.
fn drive(
    items: Vec<TestWriterItem>,
    answer: impl Fn(&TestWriterItem) -> Running<Result<(), String>, ()>,
) -> Vec<TestWriterItem> {
    let mut seen = Vec::new();
    let mut stream = items.into_iter();
    let mut state = WriterState::new();
    let mut action: WriterAction<TestWriterItem, Result<(), String>> = WriterAction::NextItem;
    loop {
        let event = match action {
            WriterAction::NextItem => WriterEvent::Received(stream.next()),
            WriterAction::Operate(item) => {
                let r = answer(&item);
                seen.push(item);
                WriterEvent::Operated(r)
            }
            WriterAction::Handle(res) => WriterEvent::Handled(default_handle_result(res)),
            WriterAction::Exit => break,
        };
        assert!(state.accepts_event(&event));
        action = state.step(event);
    }
    assert_eq!(state, WriterState::Exited);
    seen
}

#[test]
fn test_writer() {
    let bound = 100;
    let mut items = Vec::with_capacity(bound);
    for i in 0..10 {
        items.push(TestWriterItem::Foo(i.to_string()));
        items.push(TestWriterItem::Bar(i));
    }
    let seen = drive(items, |_| Running::Continue(Ok(())));
    assert_eq!(seen.len(), 20);
    assert_eq!(seen[0], TestWriterItem::Foo("0".to_string()));
    assert_eq!(seen[19], TestWriterItem::Bar(9));
}

#[test]
fn writer_keeps_going_on_errors() {
    let items = vec![TestWriterItem::Bar(1), TestWriterItem::Bar(2), TestWriterItem::Bar(3)];
    let seen = drive(items, |_| Running::Continue(Err("failed".to_string())));
    assert_eq!(seen.len(), 3);
}

#[test]
fn writer_stops_when_op_stops() {
    let items = vec![TestWriterItem::Bar(1), TestWriterItem::Bar(2), TestWriterItem::Bar(3)];
    let seen = drive(items, |it| {
        if *it == TestWriterItem::Bar(2) { Running::Stop(()) } else { Running::Continue(Ok(())) }
    });
    assert_eq!(seen, vec![TestWriterItem::Bar(1), TestWriterItem::Bar(2)]);
}

#[test]
fn writer_with_empty_stream_exits_at_once() {
    let seen = drive(Vec::new(), |_| Running::Continue(Ok(())));
    assert!(seen.is_empty());
}

#[test]
fn writer_stops_when_handler_stops() {
    let mut state = WriterState::new();
    let a = state.step(WriterEvent::<u8, u8>::Received(Some(4)));
    assert!(matches!(a, WriterAction::Operate(4)));
    let a = state.step(WriterEvent::<u8, u8>::Operated(Running::Continue(5)));
    assert!(matches!(a, WriterAction::Handle(5)));
    let a = state.step(WriterEvent::<u8, u8>::Handled(Running::Stop(())));
    assert!(matches!(a, WriterAction::Exit));
    assert_eq!(state, WriterState::Exited);
    assert!(!state.accepts_event(&WriterEvent::<u8, u8>::Received(None)));
}
