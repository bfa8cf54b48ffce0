//! Awaitable services. The one provided is a TCP stream.
//!
//! An operation on a non-blocking socket is attempted first; the functions here
//! take what the attempt gave and say whether the poll is ready or whether the
//! socket has to be registered and the task to wait.
use vstd::prelude::*;

use crate::blockers::{add_request, Registration, Registrator};
use crate::error::{ErrorKind, IoError};
use crate::platform::{
    domain_ipv4, domain_ipv6, in_progress_number, is_in_progress_number, is_machine_in_progress,
    is_machine_nonblocking_stream, is_nonblocking_stream, nonblocking_stream_type, protocol_tcp,
};

verus! {

/// A socket, the epoll instance that watches it, and the token of the task that
/// waits for it.
pub struct Endpoint {
    pub epfd: i32,
    pub fd: i32,
    pub token: usize,
}

/// What a poll comes to after an operation was attempted.
#[derive(Debug, PartialEq, Eq)]
pub enum PollStep<T> {
    /// The operation is over, with this result.
    Ready(Result<T, IoError>),
    /// The operation has to wait. The poll is pending once this registration
    /// has gone through, and cannot go on if it fails.
    Register(Registration),
}

/// The address families that a socket address can belong to.
#[derive(Debug, Clone, Copy, PartialEq, Eq, Structural)]
pub enum AddressFamily {
    V4,
    V6,
}

/// The arguments of the `socket` call.
#[derive(Debug, Clone, Copy, PartialEq, Eq)]
pub struct SocketRequest {
    pub domain: i32,
    pub socket_type: i32,
    pub protocol: i32,
}

/// The domain of the addresses of a family: `AF_INET` or `AF_INET6`.
pub open spec fn domain_of(family: AddressFamily) -> int {
    match family {
        AddressFamily::V4 => 2,
        AddressFamily::V6 => 10,
    }
}

/// The poll of an operation on `endpoint`: an operation that has to wait
/// registers the socket, and every other outcome is final.
pub open spec fn poll_step<T>(
    endpoint: Endpoint,
    outcome: Result<T, IoError>,
    waits: bool,
) -> PollStep<T> {
    if waits {
        PollStep::Register(
            Registration::Adding(add_request(endpoint.epfd, endpoint.fd, endpoint.token)),
        )
    } else {
        PollStep::Ready(outcome)
    }
}

/// Whether an operation failed because it would have had to wait.
pub open spec fn would_block<T>(outcome: Result<T, IoError>) -> bool {
    outcome matches Err(e) && e.kind == ErrorKind::WouldBlock
}

/// Whether a connection is still being made, where the machine numbers that
/// error `in_progress`.
pub open spec fn still_connecting(outcome: Result<(), IoError>, in_progress: i32) -> bool {
    outcome matches Err(e) && (e.raw_os_error == Some(in_progress) || e.kind
        == ErrorKind::WouldBlock)
}

/// The poll of an operation that waits where it would have blocked.
fn poll_operation<T>(
    registrator: &Registrator,
    fd: i32,
    token: usize,
    outcome: Result<T, IoError>,
) -> (step: PollStep<T>)
    ensures
        step == poll_step(Endpoint { epfd: registrator@, fd, token }, outcome, would_block(outcome)),
{
    match outcome {
        Ok(n) => PollStep::Ready(Ok(n)),
        Err(e) => match e.kind {
            ErrorKind::WouldBlock => PollStep::Register(registrator.register(fd, token)),
            _ => PollStep::Ready(Err(e)),
        },
    }
}

/// A connection that is being made.
#[derive(Debug)]
pub struct ConnectStreamFuture {
    socket: i32,
    registrator: Registrator,
    token: usize,
}

impl View for ConnectStreamFuture {
    type V = Endpoint;

    closed spec fn view(&self) -> Endpoint {
        Endpoint { epfd: self.registrator@, fd: self.socket, token: self.token }
    }
}

impl ConnectStreamFuture {
    /// Polls with what an attempt to connect gave.
    ///
    /// The connection waits where the attempt would have blocked, or failed
    /// with the error number `EINPROGRESS` of the machine.
    pub fn poll(&self, outcome: Result<(), IoError>) -> (step: PollStep<()>)
        ensures
            exists|in_progress: i32|
                {
                    &&& #[trigger] is_machine_in_progress(in_progress)
                    &&& is_in_progress_number(in_progress)
                    &&& step == poll_step(self@, outcome, still_connecting(outcome, in_progress))
                },
    {
        self.poll_numbered(outcome, in_progress_number())
    }

    /// Polls with what an attempt to connect gave, where `in_progress` is the
    /// error number of a connection that is still being made.
    pub fn poll_numbered(&self, outcome: Result<(), IoError>, in_progress: i32) -> (step: PollStep<
        (),
    >)
        ensures
            step == poll_step(self@, outcome, still_connecting(outcome, in_progress)),
    {
        match outcome {
            Ok(done) => PollStep::Ready(Ok(done)),
            Err(e) => {
                let numbered: bool = match e.raw_os_error {
                    Some(number) => number == in_progress,
                    None => false,
                };
                if numbered || e.kind == ErrorKind::WouldBlock {
                    PollStep::Register(self.registrator.register(self.socket, self.token))
                } else {
                    PollStep::Ready(Err(e))
                }
            },
        }
    }
}

/// A connected, non-blocking TCP stream.
#[derive(Debug)]
pub struct TcpStream {
    inner: i32,
    registrator: Registrator,
    token: usize,
}

impl View for TcpStream {
    type V = Endpoint;

    closed spec fn view(&self) -> Endpoint {
        Endpoint { epfd: self.registrator@, fd: self.inner, token: self.token }
    }
}

impl TcpStream {
    /// The socket to create for a stream to an address of `family`: a
    /// non-blocking TCP socket of its domain.
    pub fn socket_request(family: AddressFamily) -> (request: SocketRequest)
        ensures
            request.domain == domain_of(family),
            is_machine_nonblocking_stream(request.socket_type),
            is_nonblocking_stream(request.socket_type),
            request.protocol == 6,
    {
        let domain: i32 = match family {
            AddressFamily::V4 => domain_ipv4(),
            AddressFamily::V6 => domain_ipv6(),
        };
        SocketRequest {
            domain,
            socket_type: nonblocking_stream_type(),
            protocol: protocol_tcp(),
        }
    }

    /// The connection of `socket` that is to be awaited.
    pub fn sock_connect(socket: i32, registrator: Registrator, token: usize) -> (future:
        ConnectStreamFuture)
        ensures
            future@ == (Endpoint { epfd: registrator@, fd: socket, token }),
    {
        ConnectStreamFuture { socket, registrator, token }
    }

    /// The stream over `socket`, once the connection was made, or the reason
    /// why it was not.
    pub fn connect(
        socket: i32,
        connected: Result<(), IoError>,
        registrator: Registrator,
        token: usize,
    ) -> (r: Result<TcpStream, IoError>)
        ensures
            match connected {
                Ok(_) => r matches Ok(stream) && stream@ == (Endpoint {
                    epfd: registrator@,
                    fd: socket,
                    token,
                }),
                Err(e) => r matches Err(error) && error == e,
            },
    {
        match connected {
            Ok(_) => Ok(TcpStream { inner: socket, registrator, token }),
            Err(e) => Err(e),
        }
    }

    /// Polls with what an attempt to read gave.
    pub fn poll_read(&self, outcome: Result<usize, IoError>) -> (step: PollStep<usize>)
        ensures
            step == poll_step(self@, outcome, would_block(outcome)),
    {
        poll_operation(&self.registrator, self.inner, self.token, outcome)
    }

    /// Polls with what an attempt to write gave.
    pub fn poll_write(&self, outcome: Result<usize, IoError>) -> (step: PollStep<usize>)
        ensures
            step == poll_step(self@, outcome, would_block(outcome)),
    {
        poll_operation(&self.registrator, self.inner, self.token, outcome)
    }

    /// Polls with what an attempt to flush gave.
    pub fn poll_flush(&self, outcome: Result<(), IoError>) -> (step: PollStep<()>)
        ensures
            step == poll_step(self@, outcome, would_block(outcome)),
    {
        poll_operation(&self.registrator, self.inner, self.token, outcome)
    }

    /// Polls with what an attempt to close the write end gave.
    pub fn poll_close(&self, outcome: Result<(), IoError>) -> (step: PollStep<()>)
        ensures
            step == poll_step(self@, outcome, would_block(outcome)),
    {
        poll_operation(&self.registrator, self.inner, self.token, outcome)
    }

    /// The file descriptor of the stream.
    pub fn as_raw_fd(&self) -> (fd: i32)
        ensures
            fd == self@.fd,
    {
        self.inner
    }
}

} // verus!
