use debounced_watch::activity::State;
use debounced_watch::dispatch::Dispatcher;

fn dispatcher() -> Dispatcher {
    Dispatcher::new(String::from("notify"), String::from("on"), String::from("off"))
}

#[test]
fn starts_not_in_use() {
    let mut d = dispatcher();
    assert_eq!(d.current(), State::NotInUse);
    assert!(d.update(0).is_none());
}

#[test]
fn crossing_zero_invokes_with_matching_arg() {
    let mut d = dispatcher();
    let on = d.update(1).unwrap();
    assert_eq!(on.program, "notify");
    assert_eq!(on.arg, "on");
    assert_eq!(d.current(), State::InUse);
    let off = d.update(0).unwrap();
    assert_eq!(off.program, "notify");
    assert_eq!(off.arg, "off");
    assert_eq!(d.current(), State::NotInUse);
}

#[test]
fn same_state_is_not_dispatched_twice() {
    let mut d = dispatcher();
    let mut n = 0;
    for c in [1u64, 2, 5, 1, 3, 255] {
        if d.update(c).is_some() {
            n += 1;
        }
    }
    assert_eq!(n, 1);
    let mut args = Vec::new();
    for c in [0u64, 0, 4, 4, 0] {
        if let Some(inv) = d.update(c) {
            args.push(inv.arg);
        }
    }
    assert_eq!(args, vec!["off", "on", "off"]);
}

#[test]
fn failed_launch_does_not_block_later_transitions() {
    let mut d = Dispatcher::new(
        String::from("/nonexistent/command"),
        String::from("on"),
        String::from("off"),
    );
    let first = d.update(1).unwrap();
    assert_eq!(first.program, "/nonexistent/command");
    // The launch of `first` fails; the state stays transitioned.
    assert!(d.update(1).is_none());
    let later = d.update(0).unwrap();
    assert_eq!(later.program, "/nonexistent/command");
    assert_eq!(later.arg, "off");
}
