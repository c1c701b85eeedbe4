use mio_wasi::addr::{InetAddr, InetV4, InetV6, SocketAddr};
use mio_wasi::error::{unsupported, IoError};
use mio_wasi::tcp::{self, TcpKeepalive};
use mio_wasi::udp;

fn v4() -> InetAddr {
    InetAddr::V4(InetV4 { ip: 0x7f00_0001, port: 8080 })
}

fn v6() -> InetAddr {
    InetAddr::V6(InetV6 { ip: 1, port: 443 })
}

#[test]
fn excluded_tcp_surface_is_unsupported() {
    let u = Some(IoError::Unsupported);
    assert_eq!(unsupported(), IoError::Unsupported);
    assert_eq!(tcp::new_v6_socket().err(), u);
    assert_eq!(tcp::bind(3, v4()).err(), u);
    assert_eq!(tcp::bind(3, v6()).err(), u);
    assert_eq!(tcp::listen(3, 128).err(), u);
    assert_eq!(tcp::set_reuseaddr(3, true).err(), u);
    assert_eq!(tcp::get_reuseaddr(3).err(), u);
    assert_eq!(tcp::get_localaddr(3).err(), u);
    assert_eq!(tcp::set_linger(3, Some(5)).err(), u);
    assert_eq!(tcp::get_linger(3).err(), u);
    let k = TcpKeepalive { time: Some(1), interval: None, retries: Some(3) };
    assert_eq!(tcp::set_keepalive_params(3, k).err(), u);
    assert_eq!(tcp::get_keepalive_time(3).err(), u);
    assert_eq!(tcp::set_keepalive(3, false).err(), u);
    assert_eq!(tcp::get_keepalive(3).err(), u);
    assert_eq!(tcp::set_recv_buffer_size(3, 4096).err(), u);
    assert_eq!(tcp::get_recv_buffer_size(3).err(), u);
    assert_eq!(tcp::set_send_buffer_size(3, 4096).err(), u);
    assert_eq!(tcp::get_send_buffer_size(3).err(), u);
    assert!(matches!(tcp::accept(3), Err(IoError::Unsupported)));
}

#[test]
fn excluded_udp_surface_is_unsupported() {
    assert_eq!(udp::bind(v4()), Err(IoError::Unsupported));
    assert_eq!(udp::only_v6(&4), Err(IoError::Unsupported));
}

#[test]
fn ipv4_socket_creation() {
    assert_eq!(tcp::new_v4_socket(0, 9), Ok(9));
    assert_eq!(tcp::new_v4_socket(23, 9), Err(IoError::Os(23)));
}

#[test]
fn connect_target_is_ipv4_only() {
    assert_eq!(tcp::connect_target(v4()), Ok(InetV4 { ip: 0x7f00_0001, port: 8080 }));
    assert_eq!(tcp::connect_target(v6()), Err(IoError::Unimplemented));
}

#[test]
fn connect_turns_the_socket_into_a_stream() {
    assert_eq!(tcp::connect(9, 0).unwrap().as_raw_fd(), 9);
    assert!(matches!(tcp::connect(9, 61), Err(IoError::Os(61))));
}

#[test]
fn unix_socket_address_is_empty() {
    assert_eq!(SocketAddr {}, SocketAddr {});
}
