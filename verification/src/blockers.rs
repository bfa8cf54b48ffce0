//! Blocking until a file descriptor becomes readable, by way of epoll.
//!
//! An [`IoBlocker`] owns an epoll instance. A [`Registrator`] is a handle that
//! each task can keep a copy of, and that asks the same instance to watch a
//! file descriptor on the task's behalf.
use vstd::prelude::*;

use crate::epoll::Event;
use crate::error::{ErrorKind, IoError};
use crate::platform::{
    epoll_ctl_add, epoll_ctl_del, epoll_ctl_mod, epollet, epollin, epolloneshot,
};

verus! {

/// The most events that one wait takes from the kernel.
pub const MAX_EVENTS: i32 = 1024;

/// The timeout of a wait that only an event ends.
pub const WAIT_FOREVER: i32 = -1;

/// The arguments of an `epoll_ctl` call: operation `op` of the epoll instance
/// `epfd` on the file descriptor `fd`.
#[derive(Debug, Clone, Copy, PartialEq, Eq)]
pub struct CtlRequest {
    pub epfd: i32,
    pub op: i32,
    pub fd: i32,
    pub event: Event,
}

/// The arguments of an `epoll_wait` call, but for the buffer.
#[derive(Debug, Clone, Copy, PartialEq, Eq)]
pub struct WaitRequest {
    pub epfd: i32,
    pub max_events: i32,
    pub timeout: i32,
}

/// The event of a file that is to be reported once, when it becomes readable:
/// `EPOLLIN | EPOLLONESHOT`.
pub open spec fn read_once(token: usize) -> Event {
    Event { events: 0x4000_0001, token }
}

/// The event that an interest is removed with: `EPOLLIN | EPOLLET`. The kernel
/// does not look at it.
pub open spec fn read_edge(token: usize) -> Event {
    Event { events: 0x8000_0001, token }
}

/// The request that adds a one-shot interest: `EPOLL_CTL_ADD`.
pub open spec fn add_request(epfd: i32, fd: i32, token: usize) -> CtlRequest {
    CtlRequest { epfd, op: 1, fd, event: read_once(token) }
}

/// The request that removes an interest: `EPOLL_CTL_DEL`.
pub open spec fn remove_request(epfd: i32, fd: i32, token: usize) -> CtlRequest {
    CtlRequest { epfd, op: 2, fd, event: read_edge(token) }
}

/// The owner of an epoll instance.
#[derive(Debug)]
pub struct IoBlocker {
    fd: i32,
}

impl View for IoBlocker {
    type V = i32;

    /// The file descriptor of the epoll instance.
    closed spec fn view(&self) -> i32 {
        self.fd
    }
}

impl IoBlocker {
    /// Takes over the epoll instance that was created, or passes on why there
    /// is none.
    pub fn new(created: Result<i32, IoError>) -> (r: Result<IoBlocker, IoError>)
        ensures
            match created {
                Ok(fd) => r matches Ok(blocker) && blocker@ == fd,
                Err(e) => r matches Err(error) && error == e,
            },
    {
        match created {
            Ok(fd) => Ok(IoBlocker { fd }),
            Err(e) => Err(e),
        }
    }

    /// A registrator for this instance.
    pub fn registrator(&self) -> (registrator: Registrator)
        ensures
            registrator@ == self@,
    {
        Registrator { fd: self.fd }
    }

    /// The file descriptor to close when the blocker is given up.
    pub fn close_request(&self) -> (fd: i32)
        ensures
            fd == self@,
    {
        self.fd
    }

    /// The wait that blocks until an event is available.
    pub fn wait_request(&self) -> (request: WaitRequest)
        ensures
            request == (WaitRequest { epfd: self@, max_events: 1024, timeout: -1i32 }),
    {
        WaitRequest { epfd: self.fd, max_events: MAX_EVENTS, timeout: WAIT_FOREVER }
    }

    /// Ends a wait: `events` becomes what the wait put at the front of
    /// `buffer`, and is left empty where the wait failed.
    ///
    /// The number of events that a wait gives fits in the buffer that it was
    /// given.
    pub fn block(
        &self,
        events: &mut Vec<Event>,
        buffer: &Vec<Event>,
        waited: Result<i32, IoError>,
    ) -> (r: Result<i32, IoError>)
        requires
            waited matches Ok(n) ==> 0 <= n <= buffer@.len(),
        ensures
            r == waited,
            match waited {
                Ok(n) => final(events)@ == buffer@.take(n as int),
                Err(_) => final(events)@ == Seq::<Event>::empty(),
            },
    {
        events.clear();
        match waited {
            Ok(n_events) => {
                let count: usize = n_events as usize;
                let mut i: usize = 0;
                while i < count
                    invariant
                        i <= count <= buffer@.len(),
                        events@ == buffer@.take(i as int),
                    decreases count - i,
                {
                    events.push(buffer[i]);
                    i = i + 1;
                }
                Ok(n_events)
            },
            Err(e) => Err(e),
        }
    }
}

/// A handle that registers interests with an epoll instance.
#[derive(Debug, Clone, Copy)]
pub struct Registrator {
    fd: i32,
}

impl View for Registrator {
    type V = i32;

    /// The file descriptor of the epoll instance.
    closed spec fn view(&self) -> i32 {
        self.fd
    }
}

/// A registration that waits for the outcome of an `epoll_ctl` call.
#[derive(Debug, Clone, Copy, PartialEq, Eq)]
pub enum Registration {
    /// The interest is being added.
    Adding(CtlRequest),
    /// The interest was there already, disarmed, and is being re-armed.
    Rearming(CtlRequest),
}

/// How a registration goes on after an `epoll_ctl` call.
#[derive(Debug, Clone, Copy, PartialEq, Eq)]
pub enum RegisterStep {
    /// Another call is due.
    Again(Registration),
    /// The registration has ended.
    Done(Result<(), IoError>),
}

/// How a registration goes on: an interest that is in the list already is
/// re-armed with the same event (`EPOLL_CTL_MOD`), and every other outcome is final.
pub open spec fn register_step(
    registration: Registration,
    outcome: Result<(), IoError>,
) -> RegisterStep {
    match (registration, outcome) {
        (Registration::Adding(request), Err(e)) => if e.kind == ErrorKind::AlreadyExists {
            RegisterStep::Again(
                Registration::Rearming(CtlRequest { op: 3, ..request }),
            )
        } else {
            RegisterStep::Done(outcome)
        },
        _ => RegisterStep::Done(outcome),
    }
}

impl Registrator {
    /// Starts to register interest in `interest` becoming readable, to be
    /// reported once and with `token`.
    pub fn register(&self, interest: i32, token: usize) -> (registration: Registration)
        ensures
            registration == Registration::Adding(add_request(self@, interest, token)),
    {
        let events: i32 = epollin() | epolloneshot();
        assert(0x1i32 | 0x4000_0000i32 == 0x4000_0001i32) by (bit_vector);
        Registration::Adding(
            CtlRequest {
                epfd: self.fd,
                op: epoll_ctl_add(),
                fd: interest,
                event: Event::new(events, token),
            },
        )
    }

    /// The request that removes the interest in `interest`. Its outcome is the
    /// outcome of the removal.
    pub fn unregister(&self, interest: i32, token: usize) -> (request: CtlRequest)
        ensures
            request == remove_request(self@, interest, token),
    {
        let events: i32 = epollin() | epollet();
        assert(0x1i32 | (-0x8000_0000i32) == -0x7fff_ffffi32) by (bit_vector);
        CtlRequest {
            epfd: self.fd,
            op: epoll_ctl_del(),
            fd: interest,
            event: Event::new(events, token),
        }
    }
}

impl Registration {
    /// The arguments of the pending call.
    pub open spec fn spec_request(self) -> CtlRequest {
        match self {
            Registration::Adding(request) => request,
            Registration::Rearming(request) => request,
        }
    }

    /// The call that the registration waits for.
    pub fn request(&self) -> (request: CtlRequest)
        ensures
            request == self.spec_request(),
    {
        match self {
            Registration::Adding(request) => *request,
            Registration::Rearming(request) => *request,
        }
    }

    /// Goes on with the outcome of that call.
    pub fn resume(self, outcome: Result<(), IoError>) -> (step: RegisterStep)
        ensures
            step == register_step(self, outcome),
    {
        match (self, outcome) {
            (Registration::Adding(request), Err(e)) => match e.kind {
                // The one-shot interest was consumed, so it needs to be re-armed.
                ErrorKind::AlreadyExists => RegisterStep::Again(
                    Registration::Rearming(CtlRequest { op: epoll_ctl_mod(), ..request }),
                ),
                _ => RegisterStep::Done(Err(e)),
            },
            (_, outcome) => RegisterStep::Done(outcome),
        }
    }
}

} // verus!
