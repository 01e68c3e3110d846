use debounced_watch::activity::{Event, State};
use debounced_watch::monitor::Monitor;

fn monitor(ps: &[String]) -> Monitor {
    Monitor::new(
        &ps.to_vec(),
        500,
        String::from("cam"),
        String::from("on"),
        String::from("off"),
    )
}

#[test]
fn quick_open_close_open_gives_one_on() {
    let p = vec![String::from("/dev/video0")];
    let mut m = monitor(&p);
    assert_eq!(m.on_event(&Event::new(State::InUse, &p[0]), 0), 1);
    assert!(m.on_tick(10).is_none());
    assert_eq!(m.on_event(&Event::new(State::NotInUse, &p[0]), 50), 0);
    assert_eq!(m.on_event(&Event::new(State::InUse, &p[0]), 80), 1);
    assert_eq!(m.deadline(), Some(580));
    assert!(m.on_tick(500).is_none());
    let inv = m.on_tick(580).unwrap();
    assert_eq!(inv.program, "cam");
    assert_eq!(inv.arg, "on");
    assert!(m.on_tick(1200).is_none());
    assert_eq!(m.current(), State::InUse);
}

#[test]
fn two_paths_give_on_then_off() {
    let p = vec![String::from("/dev/a"), String::from("/dev/b")];
    let mut m = monitor(&p);
    let mut args = Vec::new();
    let steps = [
        (State::InUse, 0usize, 1u64),
        (State::InUse, 1, 2),
        (State::NotInUse, 0, 1),
        (State::NotInUse, 1, 0),
    ];
    let mut t = 0u64;
    for (s, i, agg) in steps {
        assert_eq!(m.on_event(&Event::new(s, &p[i]), t), agg);
        if let Some(inv) = m.on_tick(t + 600) {
            args.push(inv.arg);
        }
        t += 1000;
    }
    assert_eq!(args, vec!["on", "off"]);
    assert_eq!(m.current(), State::NotInUse);
}

#[test]
fn missing_command_still_attempted_on_later_transition() {
    let p = vec![String::from("/dev/video0")];
    let mut m = Monitor::new(
        &p,
        500,
        String::from("/no/such/command"),
        String::from("on"),
        String::from("off"),
    );
    m.on_event(&Event::new(State::InUse, &p[0]), 0);
    let first = m.on_tick(500).unwrap();
    assert_eq!(first.program, "/no/such/command");
    assert_eq!(first.arg, "on");
    m.on_event(&Event::new(State::NotInUse, &p[0]), 1000);
    let later = m.on_tick(1500).unwrap();
    assert_eq!(later.program, "/no/such/command");
    assert_eq!(later.arg, "off");
}

#[test]
fn watches_only_configured_paths() {
    let p = vec![String::from("/dev/video0")];
    let m = monitor(&p);
    assert!(m.watches(&p[0]));
    assert!(!m.watches(&String::from("/dev/video1")));
    assert_eq!(m.deadline(), None);
    assert_eq!(m.current(), State::NotInUse);
}
