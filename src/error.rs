use vstd::prelude::*;

verus! {

/// Status that the host returns on success.
pub const ESUCCESS: u16 = 0;

/// Errors reported by this layer.
#[derive(Clone, Copy, Debug, PartialEq, Eq, Structural)]
pub enum IoError {
    /// The host answered with a nonzero status; the raw code is kept.
    Os(i32),
    /// The operation does not exist on this backend.
    Unsupported,
    /// The operation exists but has no implementation here.
    Unimplemented,
}

/// The error for a nonzero host status.
pub fn from_status(status: u16) -> (r: IoError)
    ensures
        r == IoError::Os(status as i32),
{
    IoError::Os(status as i32)
}

/// `Ok(())` on a zero status, the matching error otherwise.
pub fn check_status(status: u16) -> (r: Result<(), IoError>)
    ensures
        status == ESUCCESS ==> r == Ok::<(), IoError>(()),
        status != ESUCCESS ==> r == Err::<(), IoError>(IoError::Os(status as i32)),
{
    if status != ESUCCESS {
        Err(from_status(status))
    } else {
        Ok(())
    }
}

/// The single error that every operation missing on this backend returns.
pub fn unsupported() -> (r: IoError)
    ensures
        r == IoError::Unsupported,
{
    IoError::Unsupported
}

} // verus!
