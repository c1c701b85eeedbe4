use vstd::prelude::*;

verus! {

/// Caller-chosen identifier of a registration, as the host poller carries it.
#[derive(Clone, Copy, Debug, PartialEq, Eq, Structural)]
pub struct Token(pub u32);

/// Readiness conditions that a registration cares about.
#[derive(Clone, Copy, Debug, PartialEq, Eq, Structural)]
pub struct Interest {
    pub readable: bool,
    pub writable: bool,
}

impl Interest {
    /// Interest in readability alone.
    pub fn readable_only() -> (r: Interest)
        ensures
            r.readable && !r.writable,
    {
        Interest { readable: true, writable: false }
    }

    /// Interest in writability alone.
    pub fn writable_only() -> (r: Interest)
        ensures
            !r.readable && r.writable,
    {
        Interest { readable: false, writable: true }
    }

    pub fn is_readable(&self) -> (r: bool)
        ensures
            r == self.readable,
    {
        self.readable
    }

    pub fn is_writable(&self) -> (r: bool)
        ensures
            r == self.writable,
    {
        self.writable
    }
}

/// A readiness notification, laid out as the host poller delivers it; the
/// same record is handed to the poller to state an interest.
#[derive(Clone, Copy, Debug, PartialEq, Eq, Structural)]
pub struct Event {
    pub token: u32,
    pub readable: bool,
    pub writable: bool,
}

pub fn token(event: &Event) -> (r: Token)
    ensures
        r == Token(event.token),
{
    Token(event.token)
}

pub fn is_readable(event: &Event) -> (r: bool)
    ensures
        r == event.readable,
{
    event.readable
}

pub fn is_writable(event: &Event) -> (r: bool)
    ensures
        r == event.writable,
{
    event.writable
}

/// The host poller reports no error condition.
pub fn is_error(event: &Event) -> (r: bool)
    ensures
        !r,
{
    false
}

/// The host poller reports no hang-up on the read side.
pub fn is_read_closed(event: &Event) -> (r: bool)
    ensures
        !r,
{
    false
}

/// The host poller reports no hang-up on the write side.
pub fn is_write_closed(event: &Event) -> (r: bool)
    ensures
        !r,
{
    false
}

/// The host poller has no priority readiness.
pub fn is_priority(event: &Event) -> (r: bool)
    ensures
        !r,
{
    false
}

/// The host poller has no asynchronous I/O readiness.
pub fn is_aio(event: &Event) -> (r: bool)
    ensures
        !r,
{
    false
}

/// The host poller has no list I/O readiness.
pub fn is_lio(event: &Event) -> (r: bool)
    ensures
        !r,
{
    false
}

} // verus!
