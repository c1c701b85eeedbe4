use mio_wasi::error::IoError;
use mio_wasi::event::Token;
use mio_wasi::selector::Selector;
use mio_wasi::sim::{self, SimCounter};
use mio_wasi::waker::{WakeStep, Waker};

fn waker(fd: u32) -> Waker {
    let mut sel = Selector::new(0).unwrap();
    Waker::new(&mut sel, fd, Token(99), 0).unwrap()
}

#[test]
fn new_registers_the_counter_readable() {
    let mut sel = Selector::new(0).unwrap();
    let w = Waker::new(&mut sel, 6, Token(99), 0).unwrap();
    assert_eq!(w.fd(), 6);
    let sub = sel.lookup(99).unwrap();
    assert_eq!((sub.fd, sub.readable, sub.writable), (6, true, false));
}

#[test]
fn new_fails_with_the_registration_error() {
    let mut sel = Selector::new(0).unwrap();
    assert_eq!(Waker::new(&mut sel, 6, Token(99), 20).err(), Some(IoError::Os(20)));
    assert_eq!(sel.lookup(99), None);
}

#[test]
fn wake_twice_succeeds_and_collapses() {
    let w = waker(6);
    let mut counter = SimCounter::new();
    assert_eq!(sim::wake(&w, &mut counter), Ok(()));
    assert!(counter.signalled);
    assert_eq!(sim::wake(&w, &mut counter), Ok(()));
    assert!(counter.signalled);
    assert_eq!(counter.read(), 0);
    assert_eq!(counter.read(), 1);
}

#[test]
fn wake_step_decisions() {
    let w = waker(6);
    assert_eq!(w.wake(0), WakeStep::Woken);
    assert_eq!(w.wake(1), WakeStep::DrainAndRetry);
    assert_eq!(w.wake(5), WakeStep::Failed(IoError::Os(5)));
}

#[test]
fn reset_treats_an_empty_counter_as_success() {
    let w = waker(6);
    assert_eq!(w.reset(0), Ok(()));
    assert_eq!(w.reset(1), Ok(()));
    assert_eq!(w.reset(7), Err(IoError::Os(7)));
}

#[test]
fn retry_does_not_retry_again() {
    let w = waker(6);
    assert_eq!(w.retry(0), Ok(()));
    assert_eq!(w.retry(1), Err(IoError::Os(1)));
    assert_eq!(w.retry(3), Err(IoError::Os(3)));
}
