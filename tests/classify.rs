use debounced_watch::activity::{
    classify, Event, State, UnrecognizedEventKind, IN_CLOSE_NOWRITE, IN_CLOSE_WRITE, IN_OPEN,
};

#[test]
fn mask_bits_match_inotify() {
    assert_eq!(inotify::EventMask::OPEN.bits(), IN_OPEN);
    assert_eq!(inotify::EventMask::CLOSE_WRITE.bits(), IN_CLOSE_WRITE);
    assert_eq!(inotify::EventMask::CLOSE_NOWRITE.bits(), IN_CLOSE_NOWRITE);
}

#[test]
fn event_new_keeps_state_and_path() {
    let p = String::from("/dev/video0");
    let e = Event::new(State::InUse, &p);
    assert_eq!(e.state, State::InUse);
    assert_eq!(e.path, "/dev/video0");
}

#[test]
fn open_is_in_use() {
    let p = String::from("/dev/video0");
    let e = classify(IN_OPEN, &p).unwrap();
    assert_eq!(e.state, State::InUse);
    assert_eq!(e.path, p);
}

#[test]
fn both_closes_are_not_in_use() {
    let p = String::from("/dev/video1");
    assert_eq!(classify(IN_CLOSE_WRITE, &p).unwrap().state, State::NotInUse);
    assert_eq!(classify(IN_CLOSE_NOWRITE, &p).unwrap().state, State::NotInUse);
}

#[test]
fn unknown_mask_is_rejected() {
    let p = String::from("/dev/video0");
    let modify = inotify::EventMask::MODIFY.bits();
    assert_eq!(classify(modify, &p).unwrap_err(), UnrecognizedEventKind { mask: modify });
    let open_dir = IN_OPEN | inotify::EventMask::ISDIR.bits();
    assert_eq!(classify(open_dir, &p).unwrap_err(), UnrecognizedEventKind { mask: open_dir });
    assert!(classify(0, &p).is_err());
}
