use mio_wasi::addr::{InetAddr, InetV4};
use mio_wasi::error::{check_status, IoError};
use mio_wasi::sim::{self, SimSocket};
use mio_wasi::stream::{Shutdown, TcpStreamWasi, SHUT_RD, SHUT_RDWR, SHUT_WR};

fn stream() -> TcpStreamWasi {
    TcpStreamWasi::from_handle(5)
}

#[test]
fn transfers_report_the_byte_count_or_the_error() {
    let s = stream();
    assert_eq!(s.read(0, 17), Ok(17));
    assert_eq!(s.read(6, 17), Err(IoError::Os(6)));
    assert_eq!(s.read_vectored(0, 0), Ok(0));
    assert_eq!(s.write(0, 4), Ok(4));
    assert_eq!(s.write_vectored(29, 4), Err(IoError::Os(29)));
}

#[test]
fn options_map_status_and_value() {
    let s = stream();
    assert_eq!(s.ttl(0, 64), Ok(64));
    assert_eq!(s.ttl(2, 64), Err(IoError::Os(2)));
    assert_eq!(s.set_ttl(0), Ok(()));
    assert_eq!(s.nodelay(0, 7), Ok(true));
    assert_eq!(s.nodelay(0, 0), Ok(false));
    assert_eq!(TcpStreamWasi::nodelay_value(true), 1);
    assert_eq!(TcpStreamWasi::nodelay_value(false), 0);
    assert_eq!(s.set_nodelay(3), Err(IoError::Os(3)));
    assert_eq!(s.flush(0), Ok(()));
}

#[test]
fn shutdown_maps_each_direction() {
    assert_eq!(TcpStreamWasi::shutdown_flag(Shutdown::Read), SHUT_RD);
    assert_eq!(TcpStreamWasi::shutdown_flag(Shutdown::Write), SHUT_WR);
    assert_eq!(TcpStreamWasi::shutdown_flag(Shutdown::Both), SHUT_RDWR);
    assert_eq!(stream().shutdown(0), Ok(()));
    assert_eq!(stream().shutdown(8), Err(IoError::Os(8)));
}

#[test]
fn addresses_are_the_fixed_placeholder() {
    let zero = InetAddr::V4(InetV4 { ip: 0, port: 0 });
    assert_eq!(stream().peer_addr(), Ok(zero));
    assert_eq!(stream().local_addr(), Ok(zero));
}

#[test]
fn peek_is_unimplemented() {
    let mut buf = [1u8, 2, 3];
    assert_eq!(stream().peek(&mut buf), Err(IoError::Unimplemented));
    assert_eq!(buf, [1, 2, 3]);
}

#[test]
fn take_error_without_and_with_an_injected_fault() {
    let s = stream();
    let mut sock = SimSocket::new();
    assert_eq!(sim::take_error(&s, &mut sock), Ok(None));
    sock.inject_error(61);
    assert_eq!(sim::take_error(&s, &mut sock), Ok(Some(IoError::Os(61))));
    assert_eq!(sim::take_error(&s, &mut sock), Ok(None));
}

#[test]
fn take_error_query_failure_is_its_own_error() {
    assert_eq!(stream().take_error(8, 61), Err(IoError::Os(8)));
    assert_eq!(stream().take_error(0, 0), Ok(None));
}

#[test]
fn raw_handle_round_trip() {
    let s = TcpStreamWasi::from_handle(12);
    assert_eq!(s.as_raw_fd(), 12);
    assert_eq!(s.into_raw_fd(), 12);
}

#[test]
fn status_check() {
    assert_eq!(check_status(0), Ok(()));
    assert_eq!(check_status(65535), Err(IoError::Os(65535)));
}
