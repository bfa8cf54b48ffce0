//! What the epoll calls are made with, and how their results are read.
//!
//! Each law speaks of the arguments and results of the functions alone.
use vstd::prelude::*;

use crate::blockers::{
    CtlRequest, IoBlocker, RegisterStep, Registration, Registrator, WaitRequest,
};
use crate::epoll;
use crate::epoll::Event;
use crate::error::{ErrorKind, IoError};

verus! {

/// A system call failed exactly if it returned a negative number, and the reason
/// is the last error; otherwise it gave what it returned.
pub proof fn law_negative_return_value_is_the_error(
    res: i32,
    e: IoError,
    created: Result<i32, IoError>,
    closed: Result<(), IoError>,
    controlled: Result<(), IoError>,
    waited: Result<i32, IoError>,
)
    requires
        call_ensures(epoll::create, (res, e), created),
        call_ensures(epoll::close, (res, e), closed),
        call_ensures(epoll::ctl, (res, e), controlled),
        call_ensures(epoll::wait, (res, e), waited),
    ensures
        res < 0 ==> created == Err::<i32, IoError>(e) && closed == Err::<(), IoError>(e)
            && controlled == Err::<(), IoError>(e) && waited == Err::<i32, IoError>(e),
        res >= 0 ==> created == Ok::<i32, IoError>(res) && closed == Ok::<(), IoError>(())
            && controlled == Ok::<(), IoError>(()) && waited == Ok::<i32, IoError>(res),
{
}

/// An event carries the token that it was made with, and its mask differs from
/// the number that it was made of by a multiple of 2 to the 32nd at most.
pub proof fn law_event_keeps_mask_and_token(
    events: i32,
    token: usize,
    event: Event,
    carried: usize,
)
    requires
        call_ensures(Event::new, (events, token), event),
        call_ensures(Event::token, (&event,), carried),
    ensures
        (event.events - events) % 0x1_0000_0000 == 0,
        event.token == token,
        carried == token,
{
}

/// There is a blocker exactly if the epoll instance was created, and otherwise
/// the reason why there is none.
pub proof fn law_blocker_needs_an_instance(
    created: Result<i32, IoError>,
    made: Result<IoBlocker, IoError>,
)
    requires
        call_ensures(IoBlocker::new, (created,), made),
    ensures
        made is Ok <==> created is Ok,
        created matches Err(e) ==> made == Err::<IoBlocker, IoError>(e),
{
}

/// Everything that a blocker asks for is asked of the instance that it was made
/// of: waiting (for up to 1024 events, without a timeout), and closing.
pub proof fn law_blocker_uses_its_instance(
    epfd: i32,
    blocker: IoBlocker,
    wait: WaitRequest,
    close: i32,
)
    requires
        call_ensures(IoBlocker::new, (Ok(epfd),), Ok(blocker)),
        call_ensures(IoBlocker::wait_request, (&blocker,), wait),
        call_ensures(IoBlocker::close_request, (&blocker,), close),
    ensures
        wait.epfd == epfd,
        wait.max_events == 1024,
        wait.timeout == -1,
        close == epfd,
        blocker@ == epfd,
{
}

/// After a wait that gave `n` events, the events are the first `n` of the buffer,
/// one by one; after one that failed there are none. The outcome is passed on.
pub proof fn law_block_gives_the_events_of_the_wait(
    blocker: IoBlocker,
    events: &mut Vec<Event>,
    buffer: Vec<Event>,
    waited: Result<i32, IoError>,
    r: Result<i32, IoError>,
)
    requires
        waited matches Ok(n) ==> 0 <= n <= buffer@.len(),
        call_ensures(IoBlocker::block, (&blocker, events, &buffer, waited), r),
    ensures
        r == waited,
        waited matches Ok(n) ==> {
            &&& final(events)@.len() == n
            &&& forall|i: int| 0 <= i < n ==> #[trigger] final(events)@[i] == buffer@[i]
        },
        waited is Err ==> final(events)@.len() == 0,
{
}

/// A wait that gave no more events than its buffer holds can be ended, whatever
/// events there were before.
pub proof fn law_every_wait_can_be_ended(
    blocker: IoBlocker,
    events: &mut Vec<Event>,
    buffer: Vec<Event>,
    waited: Result<i32, IoError>,
)
    requires
        waited matches Ok(n) ==> 0 <= n <= buffer@.len(),
    ensures
        call_requires(IoBlocker::block, (&blocker, events, &buffer, waited)),
{
}

/// Registering asks the instance of the registrator to add a one-shot interest
/// in reading: operation 1 on the file descriptor, with the mask 0x40000001 and
/// the token.
pub proof fn law_register_adds_one_shot_read_interest(
    epfd: i32,
    blocker: IoBlocker,
    registrator: Registrator,
    fd: i32,
    token: usize,
    registration: Registration,
    request: CtlRequest,
)
    requires
        call_ensures(IoBlocker::new, (Ok(epfd),), Ok(blocker)),
        call_ensures(IoBlocker::registrator, (&blocker,), registrator),
        call_ensures(Registrator::register, (&registrator, fd, token), registration),
        call_ensures(Registration::request, (&registration,), request),
    ensures
        registrator@ == epfd,
        request.epfd == epfd,
        request.op == 1,
        request.fd == fd,
        request.event.events == 0x4000_0001,
        request.event.token == token,
{
}

/// A registration goes on after its first call exactly if the interest was in
/// the list already. The second call is the first but for the operation, which
/// is 3 in place of 1: same instance, file descriptor, mask and token.
pub proof fn law_rearming_differs_in_the_operation_only(
    registrator: Registrator,
    fd: i32,
    token: usize,
    registration: Registration,
    added: CtlRequest,
    outcome: Result<(), IoError>,
    step: RegisterStep,
)
    requires
        call_ensures(Registrator::register, (&registrator, fd, token), registration),
        call_ensures(Registration::request, (&registration,), added),
        call_ensures(Registration::resume, (registration, outcome), step),
    ensures
        !(outcome matches Err(e) && e.kind == ErrorKind::AlreadyExists) ==> step
            == RegisterStep::Done(outcome),
        outcome matches Err(e) && e.kind == ErrorKind::AlreadyExists ==> (step matches RegisterStep::Again(
            next,
        ) && forall|rearmed: CtlRequest|
            call_ensures(Registration::request, (&next,), rearmed) ==> {
                &&& rearmed.epfd == registrator@
                &&& rearmed.op == 3
                &&& rearmed.fd == fd
                &&& rearmed.event.events == 0x4000_0001
                &&& rearmed.event.token == token
                &&& added == CtlRequest { op: 1, ..rearmed }
            }),
{
}

/// Whatever the second call of a registration gives is what the registration
/// gives.
pub proof fn law_second_call_decides(
    registration: Registration,
    first: IoError,
    next: Registration,
    outcome: Result<(), IoError>,
    step: RegisterStep,
)
    requires
        call_ensures(Registration::resume, (registration, Err(first)), RegisterStep::Again(next)),
        call_ensures(Registration::resume, (next, outcome), step),
    ensures
        step == RegisterStep::Done(outcome),
{
}

/// The pending call of a registration is the one that it holds. The registration
/// goes on only from adding, only where the interest exists already, and then
/// with the same call but for the operation.
pub proof fn law_registration_holds_its_call(
    registration: Registration,
    held: CtlRequest,
    request: CtlRequest,
    outcome: Result<(), IoError>,
    step: RegisterStep,
)
    requires
        registration == Registration::Adding(held) || registration == Registration::Rearming(held),
        call_ensures(Registration::request, (&registration,), request),
        call_ensures(Registration::resume, (registration, outcome), step),
    ensures
        request == held,
        registration == Registration::Rearming(held) ==> step == RegisterStep::Done(outcome),
        registration == Registration::Adding(held) ==> match step {
            RegisterStep::Done(done) => done == outcome && !(outcome matches Err(e) && e.kind
                == ErrorKind::AlreadyExists),
            RegisterStep::Again(next) => {
                &&& outcome matches Err(e) && e.kind == ErrorKind::AlreadyExists
                &&& next == Registration::Rearming(
                    CtlRequest { epfd: held.epfd, op: 3, fd: held.fd, event: held.event },
                )
            },
        },
{
}

/// Removing asks the same instance for operation 2 on the same file descriptor
/// as registering, with the mask 0x80000001 and the token.
pub proof fn law_unregister_removes_what_register_added(
    registrator: Registrator,
    fd: i32,
    token: usize,
    registration: Registration,
    added: CtlRequest,
    removed: CtlRequest,
)
    requires
        call_ensures(Registrator::register, (&registrator, fd, token), registration),
        call_ensures(Registration::request, (&registration,), added),
        call_ensures(Registrator::unregister, (&registrator, fd, token), removed),
    ensures
        removed.epfd == registrator@,
        removed.epfd == added.epfd,
        removed.op == 2,
        removed.fd == fd,
        removed.fd == added.fd,
        removed.event.events == 0x8000_0001,
        removed.event.token == token,
{
}

/// Registering, removing, and going on with a registration are open to every
/// caller.
pub proof fn law_registering_asks_nothing_of_its_caller(
    registrator: Registrator,
    fd: i32,
    token: usize,
    registration: Registration,
    outcome: Result<(), IoError>,
)
    ensures
        call_requires(Registrator::register, (&registrator, fd, token)),
        call_requires(Registrator::unregister, (&registrator, fd, token)),
        call_requires(Registration::request, (&registration,)),
        call_requires(Registration::resume, (registration, outcome)),
{
}

} // verus!
