use mio_wasi::error::IoError;
use mio_wasi::event::{Event, Interest, Token};
use mio_wasi::selector::{registration_event, Selector, EVENTS_CAPACITY};
use mio_wasi::sim::{self, SimPoller, EEXIST, ENOENT};

fn setup() -> (Selector, SimPoller) {
    (Selector::new(0).unwrap(), SimPoller::new())
}

fn both() -> Interest {
    Interest { readable: true, writable: true }
}

#[test]
fn new_fails_when_poller_creation_fails() {
    assert_eq!(Selector::new(5).err(), Some(IoError::Os(5)));
    assert!(Selector::new(0).is_ok());
}

#[test]
fn registration_event_carries_token_and_interests() {
    let e = registration_event(Token(9), Interest::writable_only());
    assert_eq!(e, Event { token: 9, readable: false, writable: true });
}

#[test]
fn notification_flags_stay_within_interests() {
    let (mut sel, mut p) = setup();
    sim::register(&mut sel, &mut p, 3, Token(7), Interest::readable_only()).unwrap();
    p.set_ready(3, true, true);
    let mut events = Vec::new();
    sim::select(&sel, &mut p, &mut events).unwrap();
    assert_eq!(events, vec![Event { token: 7, readable: true, writable: false }]);
}

#[test]
fn nothing_is_reported_before_readiness() {
    let (mut sel, mut p) = setup();
    sim::register(&mut sel, &mut p, 3, Token(7), both()).unwrap();
    let mut events = vec![Event { token: 1, readable: true, writable: true }];
    sim::select(&sel, &mut p, &mut events).unwrap();
    assert!(events.is_empty());
}

#[test]
fn readiness_is_reported_again_after_rearm() {
    let (mut sel, mut p) = setup();
    sim::register(&mut sel, &mut p, 3, Token(7), both()).unwrap();
    p.set_ready(3, false, true);
    let mut events = Vec::new();
    sim::select(&sel, &mut p, &mut events).unwrap();
    assert_eq!(events, vec![Event { token: 7, readable: false, writable: true }]);
    sim::select(&sel, &mut p, &mut events).unwrap();
    assert_eq!(events, vec![Event { token: 7, readable: false, writable: true }]);
}

#[test]
fn distinct_handles_report_their_own_tokens() {
    let (mut sel, mut p) = setup();
    sim::register(&mut sel, &mut p, 3, Token(1), both()).unwrap();
    sim::register(&mut sel, &mut p, 4, Token(2), both()).unwrap();
    p.set_ready(4, true, false);
    let mut events = Vec::new();
    sim::select(&sel, &mut p, &mut events).unwrap();
    assert_eq!(events, vec![Event { token: 2, readable: true, writable: false }]);
    p.set_ready(3, false, true);
    sim::select(&sel, &mut p, &mut events).unwrap();
    assert_eq!(
        events,
        vec![
            Event { token: 1, readable: false, writable: true },
            Event { token: 2, readable: true, writable: false },
        ]
    );
}

#[test]
fn deregistered_token_is_never_reported_again() {
    let (mut sel, mut p) = setup();
    sim::register(&mut sel, &mut p, 3, Token(7), both()).unwrap();
    p.set_ready(3, true, true);
    assert_eq!(sim::deregister(&mut sel, &mut p, 3), Ok(()));
    let mut events = Vec::new();
    sim::select(&sel, &mut p, &mut events).unwrap();
    assert!(events.is_empty());
    sim::select(&sel, &mut p, &mut events).unwrap();
    assert!(events.is_empty());
    assert_eq!(sel.lookup(7), None);
}

#[test]
fn deregister_of_unknown_handle_reports_the_host_error() {
    let (mut sel, mut p) = setup();
    assert_eq!(sim::deregister(&mut sel, &mut p, 3), Err(IoError::Os(ENOENT as i32)));
}

#[test]
fn deregister_cleans_the_registry_even_when_the_host_fails() {
    let mut sel = Selector::new(0).unwrap();
    sel.register(3, Token(7), both(), 0).unwrap();
    assert_eq!(sel.deregister(3, 8), Err(IoError::Os(8)));
    assert_eq!(sel.lookup(7), None);
}

#[test]
fn deregister_removes_the_greatest_token_of_a_duplicated_handle() {
    let mut sel = Selector::new(0).unwrap();
    sel.register(3, Token(5), both(), 0).unwrap();
    sel.register(3, Token(9), both(), 0).unwrap();
    sel.register(3, Token(2), both(), 0).unwrap();
    sel.deregister(3, 0).unwrap();
    assert!(sel.lookup(5).is_some());
    assert!(sel.lookup(2).is_some());
    assert_eq!(sel.lookup(9), None);
}

#[test]
fn reregister_with_writable_never_reports_readable() {
    let (mut sel, mut p) = setup();
    sim::register(&mut sel, &mut p, 3, Token(7), Interest::readable_only()).unwrap();
    sim::reregister(&mut sel, &mut p, 3, Token(7), Interest::writable_only()).unwrap();
    p.set_ready(3, true, true);
    let mut events = Vec::new();
    sim::select(&sel, &mut p, &mut events).unwrap();
    assert_eq!(events, vec![Event { token: 7, readable: false, writable: true }]);
    p.set_ready(3, true, false);
    sim::select(&sel, &mut p, &mut events).unwrap();
    assert!(events.is_empty());
}

#[test]
fn reregister_of_unknown_handle_fails_without_registering() {
    let (mut sel, mut p) = setup();
    assert_eq!(
        sim::reregister(&mut sel, &mut p, 3, Token(7), both()),
        Err(IoError::Os(ENOENT as i32))
    );
    assert_eq!(sel.lookup(7), None);
}

#[test]
fn registering_a_handle_twice_is_refused() {
    let (mut sel, mut p) = setup();
    sim::register(&mut sel, &mut p, 3, Token(7), both()).unwrap();
    assert_eq!(
        sim::register(&mut sel, &mut p, 3, Token(8), both()),
        Err(IoError::Os(EEXIST as i32))
    );
    assert_eq!(sel.lookup(8), None);
    assert!(sel.lookup(7).is_some());
}

#[test]
fn failed_register_leaves_registry_unchanged() {
    let mut sel = Selector::new(0).unwrap();
    assert_eq!(sel.register(3, Token(7), both(), 20), Err(IoError::Os(20)));
    assert_eq!(sel.lookup(7), None);
}

#[test]
fn register_records_handle_and_interests() {
    let mut sel = Selector::new(0).unwrap();
    sel.register(3, Token(7), Interest::writable_only(), 0).unwrap();
    let sub = sel.lookup(7).unwrap();
    assert_eq!((sub.fd, sub.readable, sub.writable), (3, false, true));
    sel.register(4, Token(7), Interest::readable_only(), 0).unwrap();
    let sub = sel.lookup(7).unwrap();
    assert_eq!((sub.fd, sub.readable, sub.writable), (4, true, false));
}

#[test]
fn select_step_reports_wait_failure_and_clears_events() {
    let sel = Selector::new(0).unwrap();
    let mut events = vec![Event { token: 1, readable: true, writable: false }];
    let delivered = vec![Event { token: 1, readable: true, writable: false }];
    assert_eq!(sel.select(9, &delivered, &mut events).err(), Some(IoError::Os(9)));
    assert!(events.is_empty());
}

#[test]
fn select_step_keeps_unknown_tokens_without_rearming_them() {
    let mut sel = Selector::new(0).unwrap();
    sel.register(3, Token(7), Interest::readable_only(), 0).unwrap();
    let delivered = vec![
        Event { token: 4, readable: true, writable: false },
        Event { token: 7, readable: true, writable: false },
    ];
    let mut events = Vec::new();
    let rearms = sel.select(0, &delivered, &mut events).unwrap();
    assert_eq!(events, delivered);
    assert_eq!(rearms.len(), 1);
    assert_eq!(rearms[0].fd, 3);
    assert_eq!(rearms[0].event, Event { token: 7, readable: true, writable: false });
}

#[test]
fn one_wait_delivers_at_most_the_capacity() {
    let (mut sel, mut p) = setup();
    let n: u32 = EVENTS_CAPACITY + 2;
    for fd in 0..n {
        sim::register(&mut sel, &mut p, fd, Token(fd), both()).unwrap();
        p.set_ready(fd, true, false);
    }
    let mut events = Vec::new();
    sim::select(&sel, &mut p, &mut events).unwrap();
    assert_eq!(events.len(), 128);
    assert_eq!(events[0].token, 0);
    sim::select(&sel, &mut p, &mut events).unwrap();
    assert_eq!(events.len(), 128);
    assert_eq!(events[0].token, 0);
}

#[test]
fn waker_registration_is_not_tracked() {
    let sel = Selector::new(0).unwrap();
    assert!(!sel.register_waker());
}
