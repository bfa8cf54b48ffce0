//! Numbers of the operating system, taken from the crates that know them.
use socket2::{Domain, Protocol, Type};
use vstd::prelude::*;

verus! {

/// `libc::EPOLLIN`, the event of a readable file: bit 0 on Linux.
#[verifier::external_body]
pub(crate) fn epollin() -> (bits: i32)
    ensures
        bits == 0x1i32,
{
    libc::EPOLLIN
}

/// `libc::EPOLLONESHOT`, which disarms an interest once it has been reported:
/// bit 30 on Linux.
#[verifier::external_body]
pub(crate) fn epolloneshot() -> (bits: i32)
    ensures
        bits == 0x4000_0000i32,
{
    libc::EPOLLONESHOT
}

/// `libc::EPOLLET`, edge-triggered reporting: bit 31 on Linux, which makes the
/// signed constant the least `i32`.
#[verifier::external_body]
pub(crate) fn epollet() -> (bits: i32)
    ensures
        bits == i32::MIN,
{
    libc::EPOLLET
}

/// `libc::EPOLL_CTL_ADD`, the operation that adds an interest: 1 on Linux.
#[verifier::external_body]
pub(crate) fn epoll_ctl_add() -> (op: i32)
    ensures
        op == 1,
{
    libc::EPOLL_CTL_ADD
}

/// `libc::EPOLL_CTL_DEL`, the operation that removes an interest: 2 on Linux.
#[verifier::external_body]
pub(crate) fn epoll_ctl_del() -> (op: i32)
    ensures
        op == 2,
{
    libc::EPOLL_CTL_DEL
}

/// `libc::EPOLL_CTL_MOD`, the operation that changes an interest: 3 on Linux.
#[verifier::external_body]
pub(crate) fn epoll_ctl_mod() -> (op: i32)
    ensures
        op == 3,
{
    libc::EPOLL_CTL_MOD
}

/// The error numbers that Linux gives, on one machine or another, to a
/// connection that is still being made: 36 on SPARC, 150 on MIPS, 115 elsewhere.
pub open spec fn is_in_progress_number(number: i32) -> bool {
    number == 115 || number == 150 || number == 36
}

/// `libc::EINPROGRESS`, the error number of a connection that is still being
/// made. Which of the three numbers it is rests on the machine.
#[verifier::external_body]
fn einprogress() -> (number: i32)
    ensures
        is_in_progress_number(number),
{
    libc::EINPROGRESS
}

/// `number` is what the machine gives for `libc::EINPROGRESS`.
pub closed spec fn is_machine_in_progress(number: i32) -> bool {
    call_ensures(einprogress, (), number)
}

/// The error number that the machine gives to a connection that is still being
/// made.
pub(crate) fn in_progress_number() -> (number: i32)
    ensures
        is_machine_in_progress(number),
        is_in_progress_number(number),
{
    einprogress()
}

/// The types that Linux gives, on one machine or another, to a non-blocking
/// stream socket: `SOCK_STREAM | SOCK_NONBLOCK`, which is 0x82 on MIPS, 0x4001
/// on SPARC and 0x801 elsewhere.
pub open spec fn is_nonblocking_stream(socket_type: i32) -> bool {
    socket_type == 0x801 || socket_type == 0x82 || socket_type == 0x4001
}

/// `socket2::Domain::IPV4`, the domain of IPv4 sockets: 2 on Linux.
#[verifier::external_body]
pub(crate) fn domain_ipv4() -> (domain: i32)
    ensures
        domain == 2,
{
    Domain::IPV4.into()
}

/// `socket2::Domain::IPV6`, the domain of IPv6 sockets: 10 on Linux.
#[verifier::external_body]
pub(crate) fn domain_ipv6() -> (domain: i32)
    ensures
        domain == 10,
{
    Domain::IPV6.into()
}

/// `socket2::Type::nonblocking` on `socket2::Type::STREAM`, the type of
/// non-blocking stream sockets. Which of the three numbers it is rests on the
/// machine.
#[verifier::external_body]
fn type_stream_nonblocking() -> (socket_type: i32)
    ensures
        is_nonblocking_stream(socket_type),
{
    Type::STREAM.nonblocking().into()
}

/// `socket_type` is what the machine gives for the type of non-blocking stream
/// sockets.
pub closed spec fn is_machine_nonblocking_stream(socket_type: i32) -> bool {
    call_ensures(type_stream_nonblocking, (), socket_type)
}

/// The type that the machine gives to a non-blocking stream socket.
pub(crate) fn nonblocking_stream_type() -> (socket_type: i32)
    ensures
        is_machine_nonblocking_stream(socket_type),
        is_nonblocking_stream(socket_type),
{
    type_stream_nonblocking()
}

/// The numbers of the machine are those that `libc::EINPROGRESS` and the
/// non-blocking `socket2::Type::STREAM` have on it, and no others.
proof fn law_numbers_are_those_of_the_machine(number: i32)
    ensures
        is_machine_in_progress(number) <==> call_ensures(einprogress, (), number),
        is_machine_nonblocking_stream(number) <==> call_ensures(
            type_stream_nonblocking,
            (),
            number,
        ),
{
}

/// `socket2::Protocol::TCP`, the protocol number of TCP: 6.
#[verifier::external_body]
pub(crate) fn protocol_tcp() -> (protocol: i32)
    ensures
        protocol == 6,
{
    Protocol::TCP.into()
}

} // verus!
