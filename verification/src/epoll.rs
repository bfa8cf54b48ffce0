//! The values that pass between the runtime and the epoll system calls.
use vstd::prelude::*;

use crate::error::IoError;

verus! {

/// The size handed to `epoll_create`. The kernel ignores it, but it must be
/// positive.
pub const CREATE_SIZE: i32 = 1;

/// The 32 bits of `events`, as an unsigned number.
pub open spec fn bits(events: i32) -> int {
    if events >= 0 {
        events as int
    } else {
        events + 0x1_0000_0000
    }
}

/// An epoll event: a mask of the states of interest, and the token that the
/// kernel hands back when one of them is reached.
#[derive(Debug, Clone, Copy, PartialEq, Eq)]
pub struct Event {
    pub events: u32,
    pub token: usize,
}

impl Event {
    /// An event with the bits of `events` as its mask.
    pub fn new(events: i32, token: usize) -> (event: Event)
        ensures
            event.events == bits(events),
            event.token == token,
    {
        assert(events >= 0 ==> events as u32 == events) by (bit_vector);
        assert(events < 0 ==> events as u32 == events + 0x1_0000_0000) by (bit_vector);
        Event { events: events as u32, token }
    }

    /// The token that the event carries.
    pub fn token(&self) -> (token: usize)
        ensures
            token == self.token,
    {
        self.token
    }
}

/// What the return value of a system call stands for: a negative one for a
/// failure, whose reason is the last error of the operating system.
pub open spec fn outcome(res: i32, last_os_error: IoError) -> Result<i32, IoError> {
    if res < 0 {
        Err(last_os_error)
    } else {
        Ok(res)
    }
}

/// The same for a system call whose return value carries nothing on success.
pub open spec fn outcome_unit(res: i32, last_os_error: IoError) -> Result<(), IoError> {
    if res < 0 {
        Err(last_os_error)
    } else {
        Ok(())
    }
}

/// Reads what `epoll_create` returned: the new file descriptor, or the error.
pub fn create(res: i32, last_os_error: IoError) -> (r: Result<i32, IoError>)
    ensures
        r == outcome(res, last_os_error),
{
    if res < 0 {
        Err(last_os_error)
    } else {
        Ok(res)
    }
}

/// Reads what `close` returned.
pub fn close(res: i32, last_os_error: IoError) -> (r: Result<(), IoError>)
    ensures
        r == outcome_unit(res, last_os_error),
{
    if res < 0 {
        Err(last_os_error)
    } else {
        Ok(())
    }
}

/// Reads what `epoll_ctl` returned.
pub fn ctl(res: i32, last_os_error: IoError) -> (r: Result<(), IoError>)
    ensures
        r == outcome_unit(res, last_os_error),
{
    if res < 0 {
        Err(last_os_error)
    } else {
        Ok(())
    }
}

/// Reads what `epoll_wait` returned: the number of events, or the error.
pub fn wait(res: i32, last_os_error: IoError) -> (r: Result<i32, IoError>)
    ensures
        r == outcome(res, last_os_error),
{
    if res < 0 {
        Err(last_os_error)
    } else {
        Ok(res)
    }
}

} // verus!
