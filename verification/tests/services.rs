use async_runtime::blockers::{IoBlocker, Registration, Registrator};
use async_runtime::error::{ErrorKind, IoError};
use async_runtime::services::{AddressFamily, PollStep, TcpStream};

const WOULD_BLOCK: IoError = IoError {
    kind: ErrorKind::WouldBlock,
    raw_os_error: Some(libc::EAGAIN),
};
const REFUSED: IoError = IoError {
    kind: ErrorKind::Other,
    raw_os_error: Some(libc::ECONNREFUSED),
};

fn registrator(fd: i32) -> Registrator {
    IoBlocker::new(Ok(fd)).unwrap().registrator()
}

fn stream() -> TcpStream {
    TcpStream::connect(8, Ok(()), registrator(5), 42).unwrap()
}

fn registration() -> Registration {
    registrator(5).register(8, 42)
}

#[test]
fn socket_is_a_nonblocking_tcp_stream() {
    for (family, domain) in [
        (AddressFamily::V4, libc::AF_INET),
        (AddressFamily::V6, libc::AF_INET6),
    ] {
        let request = TcpStream::socket_request(family);
        assert_eq!(request.domain, domain);
        assert_eq!(request.socket_type, libc::SOCK_STREAM | libc::SOCK_NONBLOCK);
        assert!([0x801, 0x82, 0x4001].contains(&request.socket_type));
        assert_eq!(request.protocol, libc::IPPROTO_TCP);
    }
}

#[test]
fn socket_domain_follows_the_address() {
    assert_eq!(TcpStream::socket_request(AddressFamily::V4).domain, 2);
    assert_eq!(TcpStream::socket_request(AddressFamily::V6).domain, 10);
    assert_eq!(TcpStream::socket_request(AddressFamily::V6).protocol, 6);
}

#[test]
fn connection_is_ready_when_made() {
    let future = TcpStream::sock_connect(8, registrator(5), 42);
    assert_eq!(future.poll(Ok(())), PollStep::Ready(Ok(())));
}

#[test]
fn connection_in_progress_registers_the_socket() {
    let future = TcpStream::sock_connect(8, registrator(5), 42);
    let in_progress = IoError { kind: ErrorKind::Other, raw_os_error: Some(libc::EINPROGRESS) };
    assert_eq!(future.poll(Err(in_progress)), PollStep::Register(registration()));
    assert_eq!(future.poll(Err(WOULD_BLOCK)), PollStep::Register(registration()));
}

#[test]
fn failed_connection_is_ready_with_the_error() {
    let future = TcpStream::sock_connect(8, registrator(5), 42);
    assert_eq!(future.poll(Err(REFUSED)), PollStep::Ready(Err(REFUSED)));
    let other = IoError { kind: ErrorKind::Other, raw_os_error: None };
    assert_eq!(future.poll(Err(other)), PollStep::Ready(Err(other)));
    let exists = IoError { kind: ErrorKind::AlreadyExists, raw_os_error: None };
    assert_eq!(future.poll(Err(exists)), PollStep::Ready(Err(exists)));
}

#[test]
fn number_of_a_connection_in_progress_decides() {
    let future = TcpStream::sock_connect(8, registrator(5), 42);
    let error = IoError { kind: ErrorKind::Other, raw_os_error: Some(150) };
    assert_eq!(future.poll_numbered(Err(error), 150), PollStep::Register(registration()));
    assert_eq!(future.poll_numbered(Err(error), 115), PollStep::Ready(Err(error)));
    assert_eq!(future.poll_numbered(Err(WOULD_BLOCK), 115), PollStep::Register(registration()));
}

#[test]
fn stream_exists_once_connected() {
    assert_eq!(stream().as_raw_fd(), 8);
    assert_eq!(
        TcpStream::connect(8, Err(REFUSED), registrator(5), 42).unwrap_err(),
        REFUSED
    );
}

#[test]
fn finished_operations_are_ready() {
    assert_eq!(stream().poll_read(Ok(0)), PollStep::Ready(Ok(0)));
    assert_eq!(stream().poll_read(Ok(12)), PollStep::Ready(Ok(12)));
    assert_eq!(stream().poll_write(Ok(3)), PollStep::Ready(Ok(3)));
    assert_eq!(stream().poll_flush(Ok(())), PollStep::Ready(Ok(())));
    assert_eq!(stream().poll_close(Ok(())), PollStep::Ready(Ok(())));
}

#[test]
fn blocked_operations_register_the_stream() {
    assert_eq!(stream().poll_read(Err(WOULD_BLOCK)), PollStep::Register(registration()));
    assert_eq!(stream().poll_write(Err(WOULD_BLOCK)), PollStep::Register(registration()));
    assert_eq!(stream().poll_flush(Err(WOULD_BLOCK)), PollStep::Register(registration()));
    assert_eq!(stream().poll_close(Err(WOULD_BLOCK)), PollStep::Register(registration()));
}

#[test]
fn failed_operations_are_ready_with_the_error() {
    assert_eq!(stream().poll_read(Err(REFUSED)), PollStep::Ready(Err(REFUSED)));
    assert_eq!(stream().poll_write(Err(REFUSED)), PollStep::Ready(Err(REFUSED)));
    assert_eq!(stream().poll_flush(Err(REFUSED)), PollStep::Ready(Err(REFUSED)));
    assert_eq!(stream().poll_close(Err(REFUSED)), PollStep::Ready(Err(REFUSED)));
    // Only a connection waits for an operation in progress.
    let in_progress = IoError { kind: ErrorKind::Other, raw_os_error: Some(libc::EINPROGRESS) };
    assert_eq!(stream().poll_read(Err(in_progress)), PollStep::Ready(Err(in_progress)));
}
