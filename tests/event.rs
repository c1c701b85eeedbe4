use mio_wasi::event::{
    is_aio, is_error, is_lio, is_priority, is_read_closed, is_readable, is_writable,
    is_write_closed, token, Event, Interest, Token,
};

#[test]
fn accessors_report_the_real_flags() {
    let e = Event { token: 42, readable: true, writable: false };
    assert_eq!(token(&e), Token(42));
    assert!(is_readable(&e));
    assert!(!is_writable(&e));
}

#[test]
fn unsupported_signals_are_always_false() {
    for &(r, w) in &[(false, false), (true, false), (false, true), (true, true)] {
        let e = Event { token: 3, readable: r, writable: w };
        assert!(!is_error(&e));
        assert!(!is_priority(&e));
        assert!(!is_aio(&e));
        assert!(!is_lio(&e));
        assert!(!is_read_closed(&e));
        assert!(!is_write_closed(&e));
    }
}

#[test]
fn interest_constructors() {
    assert!(Interest::readable_only().is_readable());
    assert!(!Interest::readable_only().is_writable());
    assert!(Interest::writable_only().is_writable());
    assert!(!Interest::writable_only().is_readable());
}
