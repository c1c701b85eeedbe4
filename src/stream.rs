use vstd::prelude::*;
use crate::addr::{spec_unspecified_v4, unspecified_v4, InetAddr};
use crate::error::{check_status, from_status, IoError, ESUCCESS};

verus! {

/// Host shutdown flag: no more receiving.
pub const SHUT_RD: u8 = 1;

/// Host shutdown flag: no more sending.
pub const SHUT_WR: u8 = 2;

/// Host shutdown flag: neither.
pub const SHUT_RDWR: u8 = 3;

/// Which halves of a connection to shut down.
#[derive(Clone, Copy, Debug, PartialEq, Eq, Structural)]
pub enum Shutdown {
    Read,
    Write,
    Both,
}

/// The host flag for a shutdown direction.
pub open spec fn spec_shutdown_flag(how: Shutdown) -> u8 {
    match how {
        Shutdown::Both => SHUT_RDWR,
        Shutdown::Read => SHUT_RD,
        Shutdown::Write => SHUT_WR,
    }
}

/// The number of bytes a receive or send moved, or its error.
pub open spec fn spec_transfer(status: u16, transferred: u32) -> Result<usize, IoError> {
    if status == ESUCCESS {
        Ok(transferred as usize)
    } else {
        Err(IoError::Os(status as i32))
    }
}

fn transfer(status: u16, transferred: u32) -> (r: Result<usize, IoError>)
    ensures
        r == spec_transfer(status, transferred),
{
    if status != ESUCCESS {
        return Err(from_status(status));
    }
    Ok(transferred as usize)
}

/// A connected TCP stream of the host, owned by its raw handle. Every
/// operation is one host call made by the caller; the methods here take
/// what the call answered.
#[derive(Debug)]
pub struct TcpStreamWasi {
    pub raw_fd: i32,
}

impl TcpStreamWasi {
    /// A receive into one buffer moved `transferred` bytes, with `status`.
    pub fn read(&self, status: u16, transferred: u32) -> (r: Result<usize, IoError>)
        ensures
            r == spec_transfer(status, transferred),
    {
        transfer(status, transferred)
    }

    /// A receive into several buffers moved `transferred` bytes, with `status`.
    pub fn read_vectored(&self, status: u16, transferred: u32) -> (r: Result<usize, IoError>)
        ensures
            r == spec_transfer(status, transferred),
    {
        transfer(status, transferred)
    }

    /// A send from one buffer moved `transferred` bytes, with `status`.
    pub fn write(&self, status: u16, transferred: u32) -> (r: Result<usize, IoError>)
        ensures
            r == spec_transfer(status, transferred),
    {
        transfer(status, transferred)
    }

    /// A send from several buffers moved `transferred` bytes, with `status`.
    pub fn write_vectored(&self, status: u16, transferred: u32) -> (r: Result<usize, IoError>)
        ensures
            r == spec_transfer(status, transferred),
    {
        transfer(status, transferred)
    }

    /// The time-to-live query answered `value`, with `status`.
    pub fn ttl(&self, status: u16, value: u32) -> (r: Result<u32, IoError>)
        ensures
            status == ESUCCESS ==> r == Ok::<u32, IoError>(value),
            status != ESUCCESS ==> r == Err::<u32, IoError>(IoError::Os(status as i32)),
    {
        if status != ESUCCESS {
            return Err(from_status(status));
        }
        Ok(value)
    }

    /// Setting the time-to-live answered `status`.
    pub fn set_ttl(&self, status: u16) -> (r: Result<(), IoError>)
        ensures
            r == (if status == ESUCCESS {
                Ok::<(), IoError>(())
            } else {
                Err::<(), IoError>(IoError::Os(status as i32))
            }),
    {
        check_status(status)
    }

    /// The no-delay query answered `value`, with `status`; any nonzero value
    /// means the option is on.
    pub fn nodelay(&self, status: u16, value: u32) -> (r: Result<bool, IoError>)
        ensures
            status == ESUCCESS ==> r == Ok::<bool, IoError>(value != 0),
            status != ESUCCESS ==> r == Err::<bool, IoError>(IoError::Os(status as i32)),
    {
        if status != ESUCCESS {
            return Err(from_status(status));
        }
        Ok(value != 0)
    }

    /// The value to hand to the host when setting the no-delay option.
    pub fn nodelay_value(nodelay: bool) -> (r: u32)
        ensures
            r == (if nodelay { 1u32 } else { 0u32 }),
    {
        if nodelay {
            1
        } else {
            0
        }
    }

    /// Setting the no-delay option answered `status`.
    pub fn set_nodelay(&self, status: u16) -> (r: Result<(), IoError>)
        ensures
            r == (if status == ESUCCESS {
                Ok::<(), IoError>(())
            } else {
                Err::<(), IoError>(IoError::Os(status as i32))
            }),
    {
        check_status(status)
    }

    /// Flushing answered `status`.
    pub fn flush(&self, status: u16) -> (r: Result<(), IoError>)
        ensures
            r == (if status == ESUCCESS {
                Ok::<(), IoError>(())
            } else {
                Err::<(), IoError>(IoError::Os(status as i32))
            }),
    {
        check_status(status)
    }

    /// The remote endpoint. The host offers no way to learn it: this is the
    /// fixed placeholder `0.0.0.0:0`, not the real peer.
    pub fn peer_addr(&self) -> (r: Result<InetAddr, IoError>)
        ensures
            r == Ok::<InetAddr, IoError>(spec_unspecified_v4()),
    {
        Ok(unspecified_v4())
    }

    /// The local endpoint. The host offers no way to learn it: this is the
    /// fixed placeholder `0.0.0.0:0`, not the real address.
    pub fn local_addr(&self) -> (r: Result<InetAddr, IoError>)
        ensures
            r == Ok::<InetAddr, IoError>(spec_unspecified_v4()),
    {
        Ok(unspecified_v4())
    }

    /// The host flag that shuts down `how`.
    pub fn shutdown_flag(how: Shutdown) -> (r: u8)
        ensures
            r == spec_shutdown_flag(how),
    {
        match how {
            Shutdown::Both => SHUT_RDWR,
            Shutdown::Read => SHUT_RD,
            Shutdown::Write => SHUT_WR,
        }
    }

    /// The shutdown call answered `status`.
    pub fn shutdown(&self, status: u16) -> (r: Result<(), IoError>)
        ensures
            r == (if status == ESUCCESS {
                Ok::<(), IoError>(())
            } else {
                Err::<(), IoError>(IoError::Os(status as i32))
            }),
    {
        check_status(status)
    }

    /// Peeking has no implementation on this backend: it always fails, and
    /// leaves `buf` untouched.
    pub fn peek(&self, buf: &mut [u8]) -> (r: Result<usize, IoError>)
        ensures
            r == Err::<usize, IoError>(IoError::Unimplemented),
            final(buf)@ == old(buf)@,
    {
        Err(IoError::Unimplemented)
    }

    /// The pending-error query answered `socket_error`, with `status`. A
    /// failed query is an error of its own; a zero code means no error.
    pub fn take_error(&self, status: u16, socket_error: u32) -> (r: Result<Option<IoError>, IoError>)
        ensures
            status != ESUCCESS ==> r == Err::<Option<IoError>, IoError>(
                IoError::Os(status as i32),
            ),
            status == ESUCCESS && socket_error == 0 ==> r == Ok::<Option<IoError>, IoError>(None),
            status == ESUCCESS && socket_error != 0 ==> r == Ok::<Option<IoError>, IoError>(
                Some(IoError::Os(socket_error as i32)),
            ),
    {
        if status != ESUCCESS {
            return Err(from_status(status));
        }
        if socket_error == 0 {
            Ok(None)
        } else {
            Ok(Some(IoError::Os(socket_error as i32)))
        }
    }

    pub fn as_raw_fd(&self) -> (r: i32)
        ensures
            r == self.raw_fd,
    {
        self.raw_fd
    }

    /// Takes ownership of `fd`, which the caller has put in non-blocking mode.
    pub fn from_handle(fd: i32) -> (r: TcpStreamWasi)
        ensures
            r.raw_fd == fd,
    {
        TcpStreamWasi { raw_fd: fd }
    }

    pub fn into_raw_fd(self) -> (r: i32)
        ensures
            r == self.raw_fd,
    {
        self.raw_fd
    }
}

} // verus!
