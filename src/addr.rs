use vstd::prelude::*;

verus! {

/// An address associated with a Unix socket of this backend; the host gives
/// no way to read one, so it holds nothing.
#[derive(Clone, Copy, Debug, PartialEq, Eq, Structural)]
pub struct SocketAddr {}

/// An IPv4 endpoint; `ip` holds the four octets, the first one highest.
#[derive(Clone, Copy, Debug, PartialEq, Eq, Structural)]
pub struct InetV4 {
    pub ip: u32,
    pub port: u16,
}

/// An IPv6 endpoint; `ip` holds the sixteen octets, the first one highest.
#[derive(Clone, Copy, Debug, PartialEq, Eq, Structural)]
pub struct InetV6 {
    pub ip: u128,
    pub port: u16,
}

/// An internet endpoint.
#[derive(Clone, Copy, Debug, PartialEq, Eq, Structural)]
pub enum InetAddr {
    V4(InetV4),
    V6(InetV6),
}

/// The endpoint `0.0.0.0:0`.
pub open spec fn spec_unspecified_v4() -> InetAddr {
    InetAddr::V4(InetV4 { ip: 0, port: 0 })
}

pub fn unspecified_v4() -> (r: InetAddr)
    ensures
        r == spec_unspecified_v4(),
{
    InetAddr::V4(InetV4 { ip: 0, port: 0 })
}

} // verus!
