use vstd::prelude::*;
use crate::error::{from_status, IoError};
use crate::event::{Interest, Token};
use crate::selector::{subscription_of, Selector};

verus! {

/// Counter status: the operation went through.
pub const COUNTER_OK: i32 = 0;

/// Counter status: writing would overflow the counter, or reading found it
/// empty.
pub const COUNTER_WOULD_BLOCK: i32 = 1;

/// What a wake-up does after the first write to the counter.
#[derive(Clone, Copy, Debug, PartialEq, Eq, Structural)]
pub enum WakeStep {
    /// The wake-up went through.
    Woken,
    /// The wake-up failed with this error.
    Failed(IoError),
    /// The counter is full: drain it with `reset`, then write once more and
    /// finish with `retry`.
    DrainAndRetry,
}

/// Forces a blocked wait to return, through a counter resource registered
/// with readable interest.
#[derive(Debug)]
pub struct Waker {
    fd: u32,
}

impl Waker {
    pub closed spec fn spec_fd(&self) -> u32 {
        self.fd
    }

    /// A waker on the counter `fd`, registered under `token` with readable
    /// interest; `add_status` is what adding
    /// `registration_event(token, Interest::readable_only())` for `fd` to the
    /// host poller returned.
    pub fn new(selector: &mut Selector, fd: u32, token: Token, add_status: u16) -> (r: Result<
        Waker,
        IoError,
    >)
        requires
            old(selector).wf(),
        ensures
            final(selector).wf(),
            add_status == 0 <==> r is Ok,
            r matches Ok(w) ==> w.spec_fd() == fd,
            add_status == 0 ==> final(selector)@ == old(selector)@.insert(
                token.0,
                subscription_of(fd, Interest { readable: true, writable: false }),
            ),
            add_status != 0 ==> r == Err::<Waker, IoError>(IoError::Os(add_status as i32)),
            add_status != 0 ==> final(selector)@ == old(selector)@,
    {
        match selector.register(fd, token, Interest::readable_only(), add_status) {
            Ok(()) => Ok(Waker { fd }),
            Err(e) => Err(e),
        }
    }

    /// The counter handle to write to and drain.
    pub fn fd(&self) -> (r: u32)
        ensures
            r == self.spec_fd(),
    {
        self.fd
    }

    /// Decides on the status of the first unit write to the counter.
    pub fn wake(&self, write_status: i32) -> (r: WakeStep)
        ensures
            write_status == COUNTER_OK ==> r == WakeStep::Woken,
            write_status == COUNTER_WOULD_BLOCK ==> r == WakeStep::DrainAndRetry,
            write_status != COUNTER_OK && write_status != COUNTER_WOULD_BLOCK ==> r
                == WakeStep::Failed(IoError::Os(write_status)),
    {
        if write_status == COUNTER_OK {
            WakeStep::Woken
        } else if write_status == COUNTER_WOULD_BLOCK {
            WakeStep::DrainAndRetry
        } else {
            WakeStep::Failed(IoError::Os(write_status))
        }
    }

    /// Decides on the status of draining the counter: an empty counter is no
    /// error.
    pub fn reset(&self, read_status: i32) -> (r: Result<(), IoError>)
        ensures
            read_status == COUNTER_OK || read_status == COUNTER_WOULD_BLOCK ==> r == Ok::<
                (),
                IoError,
            >(()),
            read_status != COUNTER_OK && read_status != COUNTER_WOULD_BLOCK ==> r == Err::<
                (),
                IoError,
            >(IoError::Os(read_status)),
    {
        if read_status == COUNTER_OK || read_status == COUNTER_WOULD_BLOCK {
            Ok(())
        } else {
            Err(IoError::Os(read_status))
        }
    }

    /// Decides on the status of the one write after a drain: there is no
    /// further retry, so a counter that is still full is an error.
    pub fn retry(&self, write_status: i32) -> (r: Result<(), IoError>)
        ensures
            write_status == COUNTER_OK ==> r == Ok::<(), IoError>(()),
            write_status != COUNTER_OK ==> r == Err::<(), IoError>(IoError::Os(write_status)),
    {
        if write_status == COUNTER_OK {
            Ok(())
        } else {
            Err(IoError::Os(write_status))
        }
    }
}

} // verus!
