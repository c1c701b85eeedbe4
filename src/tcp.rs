use vstd::prelude::*;
use crate::addr::{InetAddr, InetV4};
use crate::error::{unsupported, IoError};
use crate::stream::TcpStreamWasi;

verus! {

/// A TCP socket of the host, by its raw handle.
pub type TcpSocket = u32;

/// Keep-alive parameters, each in seconds where given.
#[derive(Clone, Copy, Debug, PartialEq, Eq, Structural)]
pub struct TcpKeepalive {
    pub time: Option<u64>,
    pub interval: Option<u64>,
    pub retries: Option<u32>,
}

/// Creating an IPv4 TCP socket answered `status`, and the handle `fd`.
pub fn new_v4_socket(status: u16, fd: u32) -> (r: Result<TcpSocket, IoError>)
    ensures
        status == 0 ==> r == Ok::<TcpSocket, IoError>(fd),
        status != 0 ==> r == Err::<TcpSocket, IoError>(IoError::Os(status as i32)),
{
    if status == 0 {
        Ok(fd)
    } else {
        Err(IoError::Os(status as i32))
    }
}

/// The IPv4 endpoint to hand to the host for a connection; connecting to an
/// IPv6 endpoint has no implementation here.
pub fn connect_target(addr: InetAddr) -> (r: Result<InetV4, IoError>)
    ensures
        addr matches InetAddr::V4(v4) ==> r == Ok::<InetV4, IoError>(v4),
        addr is V6 ==> r == Err::<InetV4, IoError>(IoError::Unimplemented),
{
    match addr {
        InetAddr::V4(v4) => Ok(v4),
        InetAddr::V6(_) => Err(IoError::Unimplemented),
    }
}

/// Connecting `socket` answered `status`; on success the socket becomes
/// the stream.
pub fn connect(socket: TcpSocket, status: u32) -> (r: Result<TcpStreamWasi, IoError>)
    ensures
        status == 0 <==> r is Ok,
        r matches Ok(s) ==> s.raw_fd == socket as i32,
        r matches Err(e) ==> e == IoError::Os(status as i32),
{
    if status == 0 {
        Ok(TcpStreamWasi::from_handle(socket as i32))
    } else {
        Err(IoError::Os(status as i32))
    }
}

/// A new IPv6 TCP socket: the host has none. Not supported on this backend.
pub fn new_v6_socket() -> (r: Result<TcpSocket, IoError>)
    ensures
        r == Err::<TcpSocket, IoError>(IoError::Unsupported),
{
    Err(unsupported())
}

/// Binding a TCP socket. Not supported on this backend.
pub fn bind(_socket: TcpSocket, _addr: InetAddr) -> (r: Result<(), IoError>)
    ensures
        r == Err::<(), IoError>(IoError::Unsupported),
{
    Err(unsupported())
}

/// Listening on a TCP socket. Not supported on this backend.
pub fn listen(_socket: TcpSocket, _backlog: u32) -> (r: Result<TcpSocket, IoError>)
    ensures
        r == Err::<TcpSocket, IoError>(IoError::Unsupported),
{
    Err(unsupported())
}

/// Setting the reuse-address option. Not supported on this backend.
pub fn set_reuseaddr(_socket: TcpSocket, _reuseaddr: bool) -> (r: Result<(), IoError>)
    ensures
        r == Err::<(), IoError>(IoError::Unsupported),
{
    Err(unsupported())
}

/// Reading the reuse-address option. Not supported on this backend.
pub fn get_reuseaddr(_socket: TcpSocket) -> (r: Result<bool, IoError>)
    ensures
        r == Err::<bool, IoError>(IoError::Unsupported),
{
    Err(unsupported())
}

/// Reading the local address of a socket. Not supported on this backend.
pub fn get_localaddr(_socket: TcpSocket) -> (r: Result<InetAddr, IoError>)
    ensures
        r == Err::<InetAddr, IoError>(IoError::Unsupported),
{
    Err(unsupported())
}

/// Setting the linger time, in seconds. Not supported on this backend.
pub fn set_linger(_socket: TcpSocket, _linger_secs: Option<u64>) -> (r: Result<(), IoError>)
    ensures
        r == Err::<(), IoError>(IoError::Unsupported),
{
    Err(unsupported())
}

/// Reading the linger time. Not supported on this backend.
pub fn get_linger(_socket: TcpSocket) -> (r: Result<Option<u64>, IoError>)
    ensures
        r == Err::<Option<u64>, IoError>(IoError::Unsupported),
{
    Err(unsupported())
}

/// Setting the keep-alive parameters. Not supported on this backend.
pub fn set_keepalive_params(_socket: TcpSocket, _keepalive: TcpKeepalive) -> (r: Result<(), IoError>)
    ensures
        r == Err::<(), IoError>(IoError::Unsupported),
{
    Err(unsupported())
}

/// Reading the keep-alive idle time. Not supported on this backend.
pub fn get_keepalive_time(_socket: TcpSocket) -> (r: Result<Option<u64>, IoError>)
    ensures
        r == Err::<Option<u64>, IoError>(IoError::Unsupported),
{
    Err(unsupported())
}

/// Switching keep-alive. Not supported on this backend.
pub fn set_keepalive(_socket: TcpSocket, _keepalive: bool) -> (r: Result<(), IoError>)
    ensures
        r == Err::<(), IoError>(IoError::Unsupported),
{
    Err(unsupported())
}

/// Reading whether keep-alive is on. Not supported on this backend.
pub fn get_keepalive(_socket: TcpSocket) -> (r: Result<bool, IoError>)
    ensures
        r == Err::<bool, IoError>(IoError::Unsupported),
{
    Err(unsupported())
}

/// Setting the receive buffer size. Not supported on this backend.
pub fn set_recv_buffer_size(_socket: TcpSocket, _size: u32) -> (r: Result<(), IoError>)
    ensures
        r == Err::<(), IoError>(IoError::Unsupported),
{
    Err(unsupported())
}

/// Reading the receive buffer size. Not supported on this backend.
pub fn get_recv_buffer_size(_socket: TcpSocket) -> (r: Result<u32, IoError>)
    ensures
        r == Err::<u32, IoError>(IoError::Unsupported),
{
    Err(unsupported())
}

/// Setting the send buffer size. Not supported on this backend.
pub fn set_send_buffer_size(_socket: TcpSocket, _size: u32) -> (r: Result<(), IoError>)
    ensures
        r == Err::<(), IoError>(IoError::Unsupported),
{
    Err(unsupported())
}

/// Reading the send buffer size. Not supported on this backend.
pub fn get_send_buffer_size(_socket: TcpSocket) -> (r: Result<u32, IoError>)
    ensures
        r == Err::<u32, IoError>(IoError::Unsupported),
{
    Err(unsupported())
}

/// Accepting a connection. Not supported on this backend.
pub fn accept(_listener: TcpSocket) -> (r: Result<(TcpStreamWasi, InetAddr), IoError>)
    ensures
        r == Err::<(TcpStreamWasi, InetAddr), IoError>(IoError::Unsupported),
{
    Err(unsupported())
}

} // verus!
