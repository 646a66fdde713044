use brw::running::default_handle_result;
use brw::Running;

#[test]
fn option_some_becomes_continue() {
    let r: Running<u32> = Running::from(Some(7u32));
    assert!(matches!(r, Running::Continue(7)));
}

#[test]
fn option_none_becomes_stop() {
    let r: Running<u32> = Running::from(None::<u32>);
    assert!(matches!(r, Running::Stop(())));
}

#[test]
fn running_back_to_option() {
    let some: Option<u32> = Option::from(Running::<u32>::Continue(3));
    assert_eq!(some, Some(3));
    let none: Option<u32> = Option::from(Running::<u32>::Stop(()));
    assert_eq!(none, None);
}

#[test]
fn option_round_trip() {
    for v in [Some(5i64), None] {
        let back: Option<i64> = Running::from(v).into();
        assert_eq!(back, v);
    }
}

#[test]
fn result_continues_with_itself() {
    let ok: Running<Result<u8, String>> = Running::from(Ok::<u8, String>(1));
    assert!(matches!(ok, Running::Continue(Ok(1))));
    let err: Running<Result<u8, String>> = Running::from(Err::<u8, String>("bad".to_string()));
    match err {
        Running::Continue(Err(e)) => assert_eq!(e, "bad"),
        _ => panic!("an error result must still continue"),
    }
}

#[test]
fn default_handler_continues_on_error() {
    let r: Running<(), Option<String>> = default_handle_result(Err::<(), String>("boom".to_string()));
    assert!(matches!(r, Running::Continue(())));
    let r: Running<()> = default_handle_result(Ok::<u8, ()>(9));
    assert!(matches!(r, Running::Continue(())));
}
