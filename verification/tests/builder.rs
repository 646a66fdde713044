use brw::Builder;

#[test]
fn empty_builder_has_no_parts() {
    let b: Builder<u8, u16, u32> = Builder::new();
    assert!(b.into_parts().is_none());
}

#[test]
fn all_parts_set_in_order() {
    let b = Builder::<(), (), ()>::new().set_broker(1u8).set_reader(2u16).set_writer(3u32);
    assert_eq!(b.into_parts(), Some((1u8, 2u16, 3u32)));
}

#[test]
fn all_parts_set_in_reverse_order() {
    let b = Builder::<(), (), ()>::new().set_writer("w").set_reader("r").set_broker("b");
    assert_eq!(b.into_parts(), Some(("b", "r", "w")));
}

#[test]
fn setting_again_replaces() {
    let b = Builder::<(), (), ()>::new().set_broker(1u8).set_reader(2u8).set_writer(3u8).set_broker(9u8);
    assert_eq!(b.into_parts(), Some((9u8, 2u8, 3u8)));
}

#[test]
fn missing_part_gives_none() {
    let no_writer = Builder::<(), (), ()>::new().set_broker(1u8).set_reader(2u8);
    assert!(no_writer.into_parts().is_none());
    let no_reader = Builder::<(), (), ()>::new().set_broker(1u8).set_writer(2u8);
    assert!(no_reader.into_parts().is_none());
    let no_broker = Builder::<(), (), ()>::new().set_reader(1u8).set_writer(2u8);
    assert!(no_broker.into_parts().is_none());
}
