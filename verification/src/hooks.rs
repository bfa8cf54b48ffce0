//! The outside work of the runtime's loops, with a record of it.
//!
//! The executor and the reactor do what only their caller can do through the
//! functions that are held here. Each method makes one call of one function and
//! adds it to a ghost record, and nothing else can reach the functions. What a
//! loop states of the record is therefore what it did: which calls, how often,
//! and in what order.
use std::sync::mpsc::{Receiver, SyncSender};
use std::sync::Arc;
use vstd::prelude::*;

use crate::blockers::WaitRequest;
use crate::epoll::Event;
use crate::error::IoError;
use crate::runtime::Task;

verus! {

/// A call that an executor made.
pub enum Call<F> {
    /// A token was sent into a ready queue.
    Send(SyncSender<usize>, usize),
    /// The ready queue was received from. It gave a token, or `None` as nothing
    /// can be sent into it any more.
    Receive(Receiver<usize>, Option<usize>),
    /// A task was polled, and was ready or not.
    Poll(Arc<Task<F>>, bool),
}

/// What an executor does through its caller: send a token into a ready queue,
/// receive from one, and poll a task.
pub struct Hooks<F, S, R, P> {
    send: S,
    receive: R,
    poll: P,
    calls: Ghost<Seq<Call<F>>>,
}

impl<F, S, R, P> Hooks<F, S, R, P> {
    /// The calls that were made, in order.
    pub closed spec fn calls(&self) -> Seq<Call<F>> {
        self.calls@
    }

    /// The function that sends.
    pub closed spec fn spec_send(&self) -> S {
        self.send
    }

    /// The function that receives.
    pub closed spec fn spec_receive(&self) -> R {
        self.receive
    }

    /// The function that polls.
    pub closed spec fn spec_poll(&self) -> P {
        self.poll
    }

    /// `self` calls the same functions as `other`.
    pub open spec fn same_functions(&self, other: &Self) -> bool {
        &&& self.spec_send() == other.spec_send()
        &&& self.spec_receive() == other.spec_receive()
        &&& self.spec_poll() == other.spec_poll()
    }
}

impl<
    F,
    S: Fn(&SyncSender<usize>, usize),
    R: Fn(&Receiver<usize>) -> Option<usize>,
    P: Fn(&Arc<Task<F>>) -> bool,
> Hooks<F, S, R, P> {
    /// The functions can be called with every argument.
    pub open spec fn callable(&self) -> bool {
        &&& forall|queue: &SyncSender<usize>, token: usize|
            call_requires(self.spec_send(), (queue, token))
        &&& forall|receiver: &Receiver<usize>| call_requires(self.spec_receive(), (receiver,))
        &&& forall|task: &Arc<Task<F>>| call_requires(self.spec_poll(), (task,))
    }

    /// Hooks that have made no call yet.
    pub fn new(send: S, receive: R, poll: P) -> (hooks: Hooks<F, S, R, P>)
        ensures
            hooks.calls() == Seq::<Call<F>>::empty(),
            hooks.spec_send() == send,
            hooks.spec_receive() == receive,
            hooks.spec_poll() == poll,
    {
        Hooks { send, receive, poll, calls: Ghost(Seq::empty()) }
    }

    /// Sends `token` into `queue`.
    pub fn send(&mut self, queue: &SyncSender<usize>, token: usize)
        requires
            old(self).callable(),
        ensures
            final(self).calls() == old(self).calls().push(Call::Send(*queue, token)),
            final(self).same_functions(old(self)),
            call_ensures(old(self).spec_send(), (queue, token), ()),
    {
        assert(call_requires(self.spec_send(), (queue, token)));
        (self.send)(queue, token);
        self.calls = Ghost(self.calls@.push(Call::Send(*queue, token)));
    }

    /// Receives from `receiver`.
    pub fn receive(&mut self, receiver: &Receiver<usize>) -> (received: Option<usize>)
        requires
            old(self).callable(),
        ensures
            final(self).calls() == old(self).calls().push(Call::Receive(*receiver, received)),
            final(self).same_functions(old(self)),
            call_ensures(old(self).spec_receive(), (receiver,), received),
    {
        assert(call_requires(self.spec_receive(), (receiver,)));
        let received: Option<usize> = (self.receive)(receiver);
        self.calls = Ghost(self.calls@.push(Call::Receive(*receiver, received)));
        received
    }

    /// Polls `task`.
    pub fn poll(&mut self, task: &Arc<Task<F>>) -> (ready: bool)
        requires
            old(self).callable(),
        ensures
            final(self).calls() == old(self).calls().push(Call::Poll(*task, ready)),
            final(self).same_functions(old(self)),
            call_ensures(old(self).spec_poll(), (task,), ready),
    {
        assert(call_requires(self.spec_poll(), (task,)));
        let ready: bool = (self.poll)(task);
        self.calls = Ghost(self.calls@.push(Call::Poll(*task, ready)));
        ready
    }
}

/// A call that a reactor made.
pub enum ReactorCall {
    /// Events were waited for. The wait had an outcome, and left events in its
    /// buffer.
    Wait { request: WaitRequest, waited: Result<i32, IoError>, buffer: Seq<Event> },
    /// A token was sent into the ready queue.
    Send(usize),
}

/// What a reactor does through its caller: wait for events, and send a token
/// into the ready queue.
pub struct ReactorHooks<W, S> {
    wait: W,
    send: S,
    calls: Ghost<Seq<ReactorCall>>,
}

impl<W, S> ReactorHooks<W, S> {
    /// The calls that were made, in order.
    pub closed spec fn calls(&self) -> Seq<ReactorCall> {
        self.calls@
    }

    /// The function that waits.
    pub closed spec fn spec_wait(&self) -> W {
        self.wait
    }

    /// The function that sends.
    pub closed spec fn spec_send(&self) -> S {
        self.send
    }

    /// `self` calls the same functions as `other`.
    pub open spec fn same_functions(&self, other: &Self) -> bool {
        &&& self.spec_wait() == other.spec_wait()
        &&& self.spec_send() == other.spec_send()
    }
}

/// The number of events that a wait gives fits in the buffer.
pub open spec fn fits(waited: Result<i32, IoError>, buffer: Seq<Event>) -> bool {
    waited matches Ok(n) ==> 0 <= n <= buffer.len()
}

impl<
    W: Fn(WaitRequest) -> (Result<i32, IoError>, Vec<Event>),
    S: Fn(usize),
> ReactorHooks<W, S> {
    /// The functions can be called with every argument, and a wait gives no
    /// more events than its buffer holds.
    pub open spec fn callable(&self) -> bool {
        &&& forall|request: WaitRequest| call_requires(self.spec_wait(), (request,))
        &&& forall|token: usize| call_requires(self.spec_send(), (token,))
        &&& forall|request: WaitRequest, r: (Result<i32, IoError>, Vec<Event>)|
            call_ensures(self.spec_wait(), (request,), r) ==> fits(r.0, r.1@)
    }

    /// Hooks that have made no call yet.
    pub fn new(wait: W, send: S) -> (hooks: ReactorHooks<W, S>)
        ensures
            hooks.calls() == Seq::<ReactorCall>::empty(),
            hooks.spec_wait() == wait,
            hooks.spec_send() == send,
    {
        ReactorHooks { wait, send, calls: Ghost(Seq::empty()) }
    }

    /// Waits as `request` says. Gives the outcome and the buffer.
    pub fn wait(&mut self, request: WaitRequest) -> (r: (Result<i32, IoError>, Vec<Event>))
        requires
            old(self).callable(),
        ensures
            final(self).calls() == old(self).calls().push(
                ReactorCall::Wait { request, waited: r.0, buffer: r.1@ },
            ),
            final(self).same_functions(old(self)),
            fits(r.0, r.1@),
            call_ensures(old(self).spec_wait(), (request,), r),
    {
        assert(call_requires(self.spec_wait(), (request,)));
        let r: (Result<i32, IoError>, Vec<Event>) = (self.wait)(request);
        self.calls = Ghost(
            self.calls@.push(ReactorCall::Wait { request, waited: r.0, buffer: r.1@ }),
        );
        r
    }

    /// Sends `token` into the ready queue.
    pub fn send(&mut self, token: usize)
        requires
            old(self).callable(),
        ensures
            final(self).calls() == old(self).calls().push(ReactorCall::Send(token)),
            final(self).same_functions(old(self)),
            call_ensures(old(self).spec_send(), (token,), ()),
    {
        assert(call_requires(self.spec_send(), (token,)));
        (self.send)(token);
        self.calls = Ghost(self.calls@.push(ReactorCall::Send(token)));
    }
}

} // verus!
