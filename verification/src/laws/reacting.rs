//! What the reactor does.
//!
//! Each law speaks of the arguments and results of the functions alone: of the
//! buffers that the waits filled, and of the messages that were sent.
use vstd::prelude::*;

use crate::blockers::{CtlRequest, IoBlocker, Registration, Registrator, WaitRequest};
use crate::epoll::Event;
use crate::error::IoError;
use crate::hooks::{fits, ReactorCall, ReactorHooks};
use crate::runtime::{batch, reactor_ends, round_calls, tokens_of, waits, Reactor, Round};

verus! {

/// What is registered through a reactor is registered with the epoll instance of
/// the blocker that the reactor was made of.
pub proof fn law_reactor_registers_with_its_blocker(
    epfd: i32,
    blocker: IoBlocker,
    reactor: Reactor,
    registrator: Registrator,
    fd: i32,
    token: usize,
    registration: Registration,
    request: CtlRequest,
)
    requires
        call_ensures(IoBlocker::new, (Ok(epfd),), Ok(blocker)),
        call_ensures(Reactor::new, (&blocker,), reactor),
        call_ensures(Reactor::registrator, (&reactor,), registrator),
        call_ensures(Registrator::register, (&registrator, fd, token), registration),
        call_ensures(Registration::request, (&registration,), request),
    ensures
        reactor@ == epfd,
        registrator@ == epfd,
        request == (CtlRequest {
            epfd,
            op: 1,
            fd,
            event: Event { events: 0x4000_0001, token },
        }),
{
}

/// There is a message for each event, and the `i`-th is the token of the `i`-th
/// event. Where blocking failed there is none, and the error is passed on.
pub proof fn law_dispatch_gives_the_token_of_each_event(
    blocked: Result<i32, IoError>,
    events: Vec<Event>,
    dispatched: Result<Vec<usize>, IoError>,
)
    requires
        call_ensures(Reactor::dispatch, (blocked, &events), dispatched),
    ensures
        blocked is Ok ==> (dispatched matches Ok(tokens) && tokens@.len() == events@.len()
            && forall|i: int|
            0 <= i < events@.len() ==> #[trigger] tokens@[i] == events@[i].token),
        blocked matches Err(e) ==> (dispatched matches Err(error) && error == e),
{
}

/// The tokens that are sent are those of the first events of the buffer, as many
/// as the wait gave: all of them, in order, and no others.
pub proof fn law_blocking_and_dispatching_loses_no_event(
    blocker: IoBlocker,
    events: &mut Vec<Event>,
    taken: Vec<Event>,
    buffer: Vec<Event>,
    n: i32,
    blocked: Result<i32, IoError>,
    dispatched: Result<Vec<usize>, IoError>,
)
    requires
        0 <= n <= buffer@.len(),
        call_ensures(IoBlocker::block, (&blocker, events, &buffer, Ok(n)), blocked),
        taken@ == final(events)@,
        call_ensures(Reactor::dispatch, (blocked, &taken), dispatched),
    ensures
        dispatched matches Ok(tokens) && tokens@.len() == n && forall|i: int|
            0 <= i < n ==> #[trigger] tokens@[i] == buffer@[i].token,
{
}

/// Hooks call the functions that they were made with, and begin without a call.
pub proof fn law_reactor_hooks_keep_their_functions<
    W: Fn(WaitRequest) -> (Result<i32, IoError>, Vec<Event>),
    S: Fn(usize),
>(wait: W, send: S, hooks: ReactorHooks<W, S>)
    requires
        call_ensures(ReactorHooks::<W, S>::new, (wait, send), hooks),
    ensures
        hooks.calls().len() == 0,
        hooks.spec_wait() == wait,
        hooks.spec_send() == send,
{
}

/// Waiting through hooks gives what the function that waits gave, and is put on
/// record behind what was there.
pub proof fn law_waiting_is_recorded<
    W: Fn(WaitRequest) -> (Result<i32, IoError>, Vec<Event>),
    S: Fn(usize),
>(
    hooks: &mut ReactorHooks<W, S>,
    request: WaitRequest,
    waited: Result<i32, IoError>,
    buffer: Vec<Event>,
)
    requires
        call_ensures(ReactorHooks::<W, S>::wait, (hooks, request), (waited, buffer)),
    ensures
        call_ensures(old(hooks).spec_wait(), (request,), (waited, buffer)),
        final(hooks).calls() == old(hooks).calls().push(
            ReactorCall::Wait { request, waited, buffer: buffer@ },
        ),
        final(hooks).spec_wait() == old(hooks).spec_wait(),
        final(hooks).spec_send() == old(hooks).spec_send(),
{
}

/// Sending through hooks is a call of the function that sends, with the same
/// token, and is put on record behind what was there.
pub proof fn law_messages_are_recorded<
    W: Fn(WaitRequest) -> (Result<i32, IoError>, Vec<Event>),
    S: Fn(usize),
>(hooks: &mut ReactorHooks<W, S>, token: usize)
    requires
        call_ensures(ReactorHooks::<W, S>::send, (hooks, token), ()),
    ensures
        call_ensures(old(hooks).spec_send(), (token,), ()),
        final(hooks).calls() == old(hooks).calls().push(ReactorCall::Send(token)),
        final(hooks).spec_wait() == old(hooks).spec_wait(),
        final(hooks).spec_send() == old(hooks).spec_send(),
{
}

/// Where the rounds of a reactor begin among its calls.
proof fn lemma_rounds_begin(epfd: i32, rounds: Seq<Round>) -> (starts: Seq<int>)
    requires
        forall|r: int|
            0 <= r < rounds.len() ==> fits((#[trigger] rounds[r]).waited, rounds[r].buffer),
        forall|r: int|
            0 <= r < rounds.len() - 1 ==> (#[trigger] rounds[r]).waited is Ok,
    ensures
        starts.len() == rounds.len(),
        rounds.len() == 0 ==> round_calls(epfd, rounds).len() == 0,
        rounds.len() > 0 ==> starts[0] == 0,
        forall|r: int|
            0 <= r < starts.len() ==> {
                let start = #[trigger] starts[r];
                let next = if r + 1 < starts.len() {
                    starts[r + 1]
                } else {
                    round_calls(epfd, rounds).len() as int
                };
                &&& 0 <= start < round_calls(epfd, rounds).len()
                &&& round_calls(epfd, rounds)[start] == (ReactorCall::Wait {
                    request: WaitRequest { epfd, max_events: 1024, timeout: -1i32 },
                    waited: rounds[r].waited,
                    buffer: rounds[r].buffer,
                })
                &&& rounds[r].waited matches Ok(n) ==> next == start + 1 + n && forall|i: int|
                    0 <= i < n ==> #[trigger] round_calls(epfd, rounds)[start + 1 + i]
                        == ReactorCall::Send(rounds[r].buffer[i].token)
                &&& rounds[r].waited is Err ==> next == start + 1
            },
    decreases rounds.len(),
{
    if rounds.len() == 0 {
        Seq::empty()
    } else {
        let before = rounds.drop_last();
        let made = round_calls(epfd, before);
        let all = round_calls(epfd, rounds);
        let earlier = lemma_rounds_begin(epfd, before);
        let starts = earlier.push(made.len() as int);
        let tokens = tokens_of(batch(rounds.last()));
        assert(all.len() == made.len() + 1 + tokens.len());
        assert forall|k: int| 0 <= k < made.len() implies #[trigger] all[k] == made[k] by {}
        assert forall|r: int| 0 <= r < starts.len() implies {
            let start = #[trigger] starts[r];
            let next = if r + 1 < starts.len() {
                starts[r + 1]
            } else {
                all.len() as int
            };
            &&& 0 <= start < all.len()
            &&& all[start] == (ReactorCall::Wait {
                request: WaitRequest { epfd, max_events: 1024, timeout: -1i32 },
                waited: rounds[r].waited,
                buffer: rounds[r].buffer,
            })
            &&& rounds[r].waited matches Ok(n) ==> next == start + 1 + n && forall|i: int|
                0 <= i < n ==> #[trigger] all[start + 1 + i] == ReactorCall::Send(
                    rounds[r].buffer[i].token,
                )
            &&& rounds[r].waited is Err ==> next == start + 1
        } by {
            if r < earlier.len() {
                let start = earlier[r];
                assert(before[r] == rounds[r]);
                if r + 1 < earlier.len() {
                    assert(0 <= earlier[r + 1] < made.len());
                }
                if let Ok(n) = rounds[r].waited {
                    assert forall|i: int| 0 <= i < n implies #[trigger] all[start + 1 + i]
                        == ReactorCall::Send(rounds[r].buffer[i].token) by {
                        assert(made[start + 1 + i] == ReactorCall::Send(rounds[r].buffer[i].token));
                    }
                }
            } else {
                assert(rounds[r] == rounds.last());
            }
        }
        starts
    }
}

/// The calls of a reactor are made of rounds. Each begins with one wait, on its
/// epoll instance, for up to 1024 events and without a timeout. For a wait that
/// gave `n` events the messages of the round are exactly `n`, and the `i`-th of
/// them is the token of the `i`-th event of the buffer. A wait that failed sends
/// nothing, and ends the reactor with its error; otherwise there are as many
/// rounds as were asked for.
pub proof fn law_forward_sends_the_token_of_every_event<
    W: Fn(WaitRequest) -> (Result<i32, IoError>, Vec<Event>),
    S: Fn(usize),
>(
    blocker: IoBlocker,
    limit: usize,
    hooks: &mut ReactorHooks<W, S>,
    end: Result<(), IoError>,
    calls: Seq<ReactorCall>,
)
    requires
        call_ensures(Reactor::forward::<W, S>, (&blocker, limit, hooks), end),
        final(hooks).calls() == old(hooks).calls() + calls,
    ensures
        exists|starts: Seq<int>|
            {
                &&& #[trigger] starts.len() <= limit
                &&& starts.len() == 0 ==> calls.len() == 0
                &&& starts.len() > 0 ==> starts[0] == 0
                &&& end is Ok ==> starts.len() == limit
                &&& end is Err ==> starts.len() > 0
                &&& forall|r: int|
                    0 <= r < starts.len() ==> {
                        let start = #[trigger] starts[r];
                        let next = if r + 1 < starts.len() {
                            starts[r + 1]
                        } else {
                            calls.len() as int
                        };
                        &&& 0 <= start < calls.len()
                        &&& calls[start] matches ReactorCall::Wait { request, waited, buffer } && {
                            &&& request.epfd == blocker@
                            &&& request.max_events == 1024
                            &&& request.timeout == -1
                            &&& match waited {
                                Ok(n) => {
                                    &&& 0 <= n <= buffer.len()
                                    &&& next == start + 1 + n
                                    &&& forall|i: int|
                                        0 <= i < n ==> #[trigger] calls[start + 1 + i]
                                            == ReactorCall::Send(buffer[i].token)
                                    &&& end is Ok || r + 1 < starts.len()
                                },
                                Err(e) => {
                                    &&& r + 1 == starts.len()
                                    &&& next == start + 1
                                    &&& end matches Err(error) && error == e
                                },
                            }
                        }
                    }
            },
{
    let before = old(hooks).calls();
    let rounds = choose|rounds: Seq<Round>|
        {
            &&& #[trigger] reactor_ends(rounds, limit, end)
            &&& forall|i: int|
                0 <= i < rounds.len() ==> fits((#[trigger] rounds[i]).waited, rounds[i].buffer)
                    && waits(old(hooks).spec_wait(), blocker@, rounds[i])
            &&& final(hooks).calls() == before + round_calls(blocker@, rounds)
        };
    let made = round_calls(blocker@, rounds);
    assert(calls =~= final(hooks).calls().skip(before.len() as int));
    assert(made =~= final(hooks).calls().skip(before.len() as int));
    let starts = lemma_rounds_begin(blocker@, rounds);
    assert forall|r: int| 0 <= r < starts.len() implies {
        let start = #[trigger] starts[r];
        calls[start] == (ReactorCall::Wait {
            request: WaitRequest { epfd: blocker@, max_events: 1024, timeout: -1i32 },
            waited: rounds[r].waited,
            buffer: rounds[r].buffer,
        }) && fits(rounds[r].waited, rounds[r].buffer)
    } by {}
    assert(starts.len() <= limit);
}

/// Every wait of a reactor is one that its function can have answered, and what
/// was on record before stays, as do the functions.
pub proof fn law_forward_goes_by_the_answers_it_got<
    W: Fn(WaitRequest) -> (Result<i32, IoError>, Vec<Event>),
    S: Fn(usize),
>(
    blocker: IoBlocker,
    limit: usize,
    hooks: &mut ReactorHooks<W, S>,
    end: Result<(), IoError>,
)
    requires
        call_ensures(Reactor::forward::<W, S>, (&blocker, limit, hooks), end),
    ensures
        final(hooks).calls().len() >= old(hooks).calls().len(),
        final(hooks).calls().take(old(hooks).calls().len() as int) == old(hooks).calls(),
        forall|k: int|
            old(hooks).calls().len() <= k < final(hooks).calls().len() ==> (#[trigger]
            final(hooks).calls()[k] matches ReactorCall::Wait {
                request,
                waited,
                buffer,
            } ==> exists|filled: Vec<Event>|
                #![trigger filled@]
                filled@ == buffer && call_ensures(
                    old(hooks).spec_wait(),
                    (request,),
                    (waited, filled),
                )),
        final(hooks).spec_wait() == old(hooks).spec_wait(),
        final(hooks).spec_send() == old(hooks).spec_send(),
{
    let before = old(hooks).calls();
    let rounds = choose|rounds: Seq<Round>|
        {
            &&& #[trigger] reactor_ends(rounds, limit, end)
            &&& forall|i: int|
                0 <= i < rounds.len() ==> fits((#[trigger] rounds[i]).waited, rounds[i].buffer)
                    && waits(old(hooks).spec_wait(), blocker@, rounds[i])
            &&& final(hooks).calls() == before + round_calls(blocker@, rounds)
        };
    assert(final(hooks).calls().take(before.len() as int) =~= before);
    assert forall|k: int| before.len() <= k < final(hooks).calls().len() implies (#[trigger]
    final(hooks).calls()[k] matches ReactorCall::Wait {
        request,
        waited,
        buffer,
    } ==> exists|filled: Vec<Event>|
        #![trigger filled@]
        filled@ == buffer && call_ensures(old(hooks).spec_wait(), (request,), (waited, filled))) by {
        lemma_waits_are_those_of_rounds(blocker@, rounds, k - before.len());
    }
}

/// Every wait among the calls of `rounds` is that of one of them.
proof fn lemma_waits_are_those_of_rounds(epfd: i32, rounds: Seq<Round>, k: int)
    requires
        0 <= k < round_calls(epfd, rounds).len(),
    ensures
        round_calls(epfd, rounds)[k] is Wait ==> exists|r: int|
            0 <= r < rounds.len() && round_calls(epfd, rounds)[k] == (ReactorCall::Wait {
                request: WaitRequest { epfd, max_events: 1024, timeout: -1i32 },
                waited: (#[trigger] rounds[r]).waited,
                buffer: rounds[r].buffer,
            }),
    decreases rounds.len(),
{
    let before = rounds.drop_last();
    let made = round_calls(epfd, before);
    let last = rounds[rounds.len() - 1];
    if k < made.len() {
        lemma_waits_are_those_of_rounds(epfd, before, k);
        if made[k] is Wait {
            let r = choose|r: int|
                0 <= r < before.len() && made[k] == (ReactorCall::Wait {
                    request: WaitRequest { epfd, max_events: 1024, timeout: -1i32 },
                    waited: (#[trigger] before[r]).waited,
                    buffer: before[r].buffer,
                });
            assert(rounds[r] == before[r]);
        }
    }
}

/// A reactor asks for no more than that its functions can be called and that a
/// wait gives no more events than its buffer holds.
pub proof fn law_forward_asks_for_its_functions_only<
    W: Fn(WaitRequest) -> (Result<i32, IoError>, Vec<Event>),
    S: Fn(usize),
>(blocker: IoBlocker, limit: usize, hooks: &mut ReactorHooks<W, S>)
    requires
        forall|request: WaitRequest| call_requires(old(hooks).spec_wait(), (request,)),
        forall|token: usize| call_requires(old(hooks).spec_send(), (token,)),
        forall|request: WaitRequest, r: (Result<i32, IoError>, Vec<Event>)|
            call_ensures(old(hooks).spec_wait(), (request,), r) ==> (r.0 matches Ok(n) ==> 0 <= n
                <= r.1@.len()),
    ensures
        call_requires(Reactor::forward::<W, S>, (&blocker, limit, hooks)),
{
}

} // verus!
