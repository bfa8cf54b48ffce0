//! What the operations of a TCP stream come to.
//!
//! Each law speaks of the arguments and results of the functions alone, from the
//! epoll instance that was created to the call that is asked for.
use vstd::prelude::*;

use crate::blockers::{CtlRequest, IoBlocker, Registration, Registrator};
use crate::epoll::Event;
use crate::error::{ErrorKind, IoError};
use crate::platform::{
    is_in_progress_number, is_machine_in_progress, is_machine_nonblocking_stream,
    is_nonblocking_stream,
};
use crate::services::{AddressFamily, ConnectStreamFuture, PollStep, SocketRequest, TcpStream};

verus! {

/// The socket of a stream is a non-blocking TCP socket of the domain of the
/// address: 2 for IPv4 and 10 for IPv6, protocol 6, and the type that the machine
/// gives to non-blocking streams, one of 0x801, 0x82 and 0x4001.
pub proof fn law_socket_is_nonblocking_tcp(family: AddressFamily, request: SocketRequest)
    requires
        call_ensures(TcpStream::socket_request, (family,), request),
    ensures
        family == AddressFamily::V4 ==> request.domain == 2,
        family == AddressFamily::V6 ==> request.domain == 10,
        request.protocol == 6,
        is_machine_nonblocking_stream(request.socket_type),
        request.socket_type == 0x801 || request.socket_type == 0x82 || request.socket_type
            == 0x4001,
{
}

/// The numbers that stand for a connection in progress are 36, 115 and 150, and
/// the types that stand for a non-blocking stream are 0x801, 0x82 and 0x4001.
pub proof fn law_machines_use_three_numbers_each(number: i32)
    ensures
        is_in_progress_number(number) <==> number == 36 || number == 115 || number == 150,
        is_nonblocking_stream(number) <==> number == 0x801 || number == 0x82 || number == 0x4001,
{
}

/// A connection attempt that failed with the number of a connection in progress,
/// or that would have blocked, registers the socket: it is added to the epoll
/// instance that the registrator is of, with the token of the task. Every other
/// attempt is over, with the very outcome that it had.
pub proof fn law_connecting_waits_while_in_progress(
    epfd: i32,
    blocker: IoBlocker,
    registrator: Registrator,
    socket: i32,
    token: usize,
    future: ConnectStreamFuture,
    outcome: Result<(), IoError>,
    in_progress: i32,
    step: PollStep<()>,
)
    requires
        call_ensures(IoBlocker::new, (Ok(epfd),), Ok(blocker)),
        call_ensures(IoBlocker::registrator, (&blocker,), registrator),
        call_ensures(TcpStream::sock_connect, (socket, registrator, token), future),
        call_ensures(ConnectStreamFuture::poll_numbered, (&future, outcome, in_progress), step),
    ensures
        outcome matches Err(e) && (e.raw_os_error == Some(in_progress) || e.kind
            == ErrorKind::WouldBlock) ==> step == PollStep::<()>::Register(
            Registration::Adding(
                CtlRequest {
                    epfd,
                    op: 1,
                    fd: socket,
                    event: Event { events: 0x4000_0001, token },
                },
            ),
        ),
        outcome matches Err(e) && e.raw_os_error != Some(in_progress) && e.kind
            != ErrorKind::WouldBlock ==> step == PollStep::<()>::Ready(outcome),
        outcome is Ok ==> step == PollStep::<()>::Ready(outcome),
{
}

/// The poll of a connection goes by a number that the machine gives to a
/// connection in progress: an attempt that failed with it, or that would have
/// blocked, adds the socket of the connection with its token to its epoll
/// instance, and every other attempt is over, with the very outcome that it had.
pub proof fn law_connecting_goes_by_the_number_of_the_machine(
    epfd: i32,
    blocker: IoBlocker,
    registrator: Registrator,
    socket: i32,
    token: usize,
    future: ConnectStreamFuture,
    outcome: Result<(), IoError>,
    step: PollStep<()>,
)
    requires
        call_ensures(IoBlocker::new, (Ok(epfd),), Ok(blocker)),
        call_ensures(IoBlocker::registrator, (&blocker,), registrator),
        call_ensures(TcpStream::sock_connect, (socket, registrator, token), future),
        call_ensures(ConnectStreamFuture::poll, (&future, outcome), step),
    ensures
        exists|in_progress: i32|
            {
                &&& #[trigger] is_machine_in_progress(in_progress)
                &&& in_progress == 36 || in_progress == 115 || in_progress == 150
                &&& (outcome matches Err(e) ==> if e.raw_os_error == Some(in_progress) || e.kind
                    == ErrorKind::WouldBlock {
                    step == PollStep::<()>::Register(
                        Registration::Adding(
                            CtlRequest {
                                epfd,
                                op: 1,
                                fd: socket,
                                event: Event { events: 0x4000_0001, token },
                            },
                        ),
                    )
                } else {
                    step == PollStep::<()>::Ready(outcome)
                })
                &&& outcome is Ok ==> step == PollStep::<()>::Ready(outcome)
            },
{
}

/// On every machine, a connection that is made is over, one that would have
/// blocked waits, and one that failed with a number other than 36, 115 and 150 is
/// over, with its error.
pub proof fn law_connecting_is_the_same_on_every_machine(
    future: ConnectStreamFuture,
    outcome: Result<(), IoError>,
    step: PollStep<()>,
)
    requires
        call_ensures(ConnectStreamFuture::poll, (&future, outcome), step),
    ensures
        outcome is Ok ==> step == PollStep::<()>::Ready(outcome),
        outcome matches Err(e) && e.kind == ErrorKind::WouldBlock ==> step
            == PollStep::<()>::Register(
            Registration::Adding(
                CtlRequest {
                    epfd: future@.epfd,
                    op: 1,
                    fd: future@.fd,
                    event: Event { events: 0x4000_0001, token: future@.token },
                },
            ),
        ),
        outcome matches Err(e) && e.kind != ErrorKind::WouldBlock && e.raw_os_error != Some(36i32)
            && e.raw_os_error != Some(115i32) && e.raw_os_error != Some(150i32) ==> step
            == PollStep::<()>::Ready(outcome),
{
}

/// There is a stream exactly if the connection was made, and otherwise the reason
/// why it was not. The stream is over the socket that was connected, watched by
/// the instance that the registrator is of, for the task with the token.
pub proof fn law_stream_is_over_the_connected_socket(
    socket: i32,
    connected: Result<(), IoError>,
    registrator: Registrator,
    token: usize,
    made: Result<TcpStream, IoError>,
    future: ConnectStreamFuture,
)
    requires
        call_ensures(TcpStream::connect, (socket, connected, registrator, token), made),
        call_ensures(TcpStream::sock_connect, (socket, registrator, token), future),
    ensures
        made is Ok <==> connected is Ok,
        connected matches Err(e) ==> made == Err::<TcpStream, IoError>(e),
        made matches Ok(stream) ==> {
            &&& stream@.fd == socket
            &&& stream@.epfd == registrator@
            &&& stream@.token == token
            &&& stream@ == future@
            &&& forall|fd: i32|
                call_ensures(TcpStream::as_raw_fd, (&stream,), fd) ==> fd == socket
        },
{
}

/// A read that would have blocked adds the socket of the stream, with its token,
/// to its epoll instance. Every other one is over, with the very outcome that it
/// had.
pub proof fn law_reading_waits_where_it_would_block(
    epfd: i32,
    blocker: IoBlocker,
    registrator: Registrator,
    socket: i32,
    token: usize,
    stream: TcpStream,
    outcome: Result<usize, IoError>,
    step: PollStep<usize>,
)
    requires
        call_ensures(IoBlocker::new, (Ok(epfd),), Ok(blocker)),
        call_ensures(IoBlocker::registrator, (&blocker,), registrator),
        call_ensures(TcpStream::connect, (socket, Ok(()), registrator, token), Ok(stream)),
        call_ensures(TcpStream::poll_read, (&stream, outcome), step),
    ensures
        outcome matches Err(e) && e.kind == ErrorKind::WouldBlock ==> step == PollStep::<
            usize,
        >::Register(
            Registration::Adding(
                CtlRequest {
                    epfd,
                    op: 1,
                    fd: socket,
                    event: Event { events: 0x4000_0001, token },
                },
            ),
        ),
        outcome matches Err(e) && e.kind != ErrorKind::WouldBlock ==> step == PollStep::<
            usize,
        >::Ready(outcome),
        outcome is Ok ==> step == PollStep::<usize>::Ready(outcome),
{
}

/// A write that would have blocked adds the socket of the stream, with its token,
/// to its epoll instance. Every other one is over, with the very outcome that it
/// had.
pub proof fn law_writing_waits_where_it_would_block(
    epfd: i32,
    blocker: IoBlocker,
    registrator: Registrator,
    socket: i32,
    token: usize,
    stream: TcpStream,
    outcome: Result<usize, IoError>,
    step: PollStep<usize>,
)
    requires
        call_ensures(IoBlocker::new, (Ok(epfd),), Ok(blocker)),
        call_ensures(IoBlocker::registrator, (&blocker,), registrator),
        call_ensures(TcpStream::connect, (socket, Ok(()), registrator, token), Ok(stream)),
        call_ensures(TcpStream::poll_write, (&stream, outcome), step),
    ensures
        outcome matches Err(e) && e.kind == ErrorKind::WouldBlock ==> step == PollStep::<
            usize,
        >::Register(
            Registration::Adding(
                CtlRequest {
                    epfd,
                    op: 1,
                    fd: socket,
                    event: Event { events: 0x4000_0001, token },
                },
            ),
        ),
        outcome matches Err(e) && e.kind != ErrorKind::WouldBlock ==> step == PollStep::<
            usize,
        >::Ready(outcome),
        outcome is Ok ==> step == PollStep::<usize>::Ready(outcome),
{
}

/// A flush that would have blocked adds the socket of the stream, with its token,
/// to its epoll instance. Every other one is over, with the very outcome that it
/// had.
pub proof fn law_flushing_waits_where_it_would_block(
    epfd: i32,
    blocker: IoBlocker,
    registrator: Registrator,
    socket: i32,
    token: usize,
    stream: TcpStream,
    outcome: Result<(), IoError>,
    step: PollStep<()>,
)
    requires
        call_ensures(IoBlocker::new, (Ok(epfd),), Ok(blocker)),
        call_ensures(IoBlocker::registrator, (&blocker,), registrator),
        call_ensures(TcpStream::connect, (socket, Ok(()), registrator, token), Ok(stream)),
        call_ensures(TcpStream::poll_flush, (&stream, outcome), step),
    ensures
        outcome matches Err(e) && e.kind == ErrorKind::WouldBlock ==> step == PollStep::<
            (),
        >::Register(
            Registration::Adding(
                CtlRequest {
                    epfd,
                    op: 1,
                    fd: socket,
                    event: Event { events: 0x4000_0001, token },
                },
            ),
        ),
        outcome matches Err(e) && e.kind != ErrorKind::WouldBlock ==> step == PollStep::<
            (),
        >::Ready(outcome),
        outcome is Ok ==> step == PollStep::<()>::Ready(outcome),
{
}

/// A close that would have blocked adds the socket of the stream, with its token,
/// to its epoll instance. Every other one is over, with the very outcome that it
/// had.
pub proof fn law_closing_waits_where_it_would_block(
    epfd: i32,
    blocker: IoBlocker,
    registrator: Registrator,
    socket: i32,
    token: usize,
    stream: TcpStream,
    outcome: Result<(), IoError>,
    step: PollStep<()>,
)
    requires
        call_ensures(IoBlocker::new, (Ok(epfd),), Ok(blocker)),
        call_ensures(IoBlocker::registrator, (&blocker,), registrator),
        call_ensures(TcpStream::connect, (socket, Ok(()), registrator, token), Ok(stream)),
        call_ensures(TcpStream::poll_close, (&stream, outcome), step),
    ensures
        outcome matches Err(e) && e.kind == ErrorKind::WouldBlock ==> step == PollStep::<
            (),
        >::Register(
            Registration::Adding(
                CtlRequest {
                    epfd,
                    op: 1,
                    fd: socket,
                    event: Event { events: 0x4000_0001, token },
                },
            ),
        ),
        outcome matches Err(e) && e.kind != ErrorKind::WouldBlock ==> step == PollStep::<
            (),
        >::Ready(outcome),
        outcome is Ok ==> step == PollStep::<()>::Ready(outcome),
{
}

/// A poll is open to every caller, with every outcome of the attempt.
pub proof fn law_polling_asks_nothing_of_its_caller(
    future: ConnectStreamFuture,
    stream: TcpStream,
    moved: Result<usize, IoError>,
    done: Result<(), IoError>,
    in_progress: i32,
)
    ensures
        call_requires(ConnectStreamFuture::poll, (&future, done)),
        call_requires(ConnectStreamFuture::poll_numbered, (&future, done, in_progress)),
        call_requires(TcpStream::poll_read, (&stream, moved)),
        call_requires(TcpStream::poll_write, (&stream, moved)),
        call_requires(TcpStream::poll_flush, (&stream, done)),
        call_requires(TcpStream::poll_close, (&stream, done)),
{
}

} // verus!
