use vstd::prelude::*;
use crate::addr::InetAddr;
use crate::error::{unsupported, IoError};

verus! {

/// A UDP socket of the host, by its raw handle.
pub type UdpSocket = u32;

/// Binding a UDP socket. Not supported on this backend.
pub fn bind(_addr: InetAddr) -> (r: Result<UdpSocket, IoError>)
    ensures
        r == Err::<UdpSocket, IoError>(IoError::Unsupported),
{
    Err(unsupported())
}

/// Whether a UDP socket is restricted to IPv6. Not supported on this backend.
pub fn only_v6(_socket: &UdpSocket) -> (r: Result<bool, IoError>)
    ensures
        r == Err::<bool, IoError>(IoError::Unsupported),
{
    Err(unsupported())
}

} // verus!
