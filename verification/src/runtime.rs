//! Tasks, the reactor that learns which of them can go on, and the executor
//! that runs them.
use std::collections::HashMap;
use std::sync::mpsc::{Receiver, SyncSender};
use std::sync::Arc;
use vstd::prelude::*;

use crate::blockers::{IoBlocker, Registrator, WaitRequest};
use crate::epoll::Event;
use crate::error::IoError;
use crate::hooks::{fits, Call, Hooks, ReactorCall, ReactorHooks};

verus! {

broadcast use vstd::std_specs::hash::group_hash_axioms;

/// The receiving half of a channel of the standard library. The executor
/// carries it along; nothing is claimed of it.
#[verifier::external_type_specification]
#[verifier::external_body]
#[verifier::reject_recursive_types(T)]
pub struct ExReceiver<T>(std::sync::mpsc::Receiver<T>);

/// The sending half of a bounded channel of the standard library. A task
/// carries it along; nothing is claimed of it.
#[verifier::external_type_specification]
#[verifier::external_body]
#[verifier::reject_recursive_types(T)]
pub struct ExSyncSender<T>(std::sync::mpsc::SyncSender<T>);

/// A future, and how to report that it can go on: by its token, through the
/// ready queue.
pub struct Task<F> {
    future: F,
    ready_queue: SyncSender<usize>,
    token: usize,
}

impl<F> Task<F> {
    /// The future.
    pub closed spec fn spec_future(&self) -> F {
        self.future
    }

    /// The queue that the token is sent through.
    pub closed spec fn spec_ready_queue(&self) -> SyncSender<usize> {
        self.ready_queue
    }

    /// The token that the task is known by.
    pub closed spec fn spec_token(&self) -> usize {
        self.token
    }

    /// A task that can be shared.
    pub fn new(future: F, ready_queue: SyncSender<usize>, token: usize) -> (task: Arc<Task<F>>)
        ensures
            task.spec_future() == future,
            task.spec_ready_queue() == ready_queue,
            task.spec_token() == token,
    {
        Arc::new(Task { future, ready_queue, token })
    }

    /// What waking the task sends, and the queue that it is sent through.
    pub fn wake(&self) -> (message: (&SyncSender<usize>, usize))
        ensures
            *message.0 == self.spec_ready_queue(),
            message.1 == self.spec_token(),
    {
        (&self.ready_queue, self.token)
    }

    /// The future of the task.
    pub fn future(&self) -> (future: &F)
        ensures
            *future == self.spec_future(),
    {
        &self.future
    }
}

/// Runs tasks to completion, each when its token comes out of the ready queue.
pub struct Executor<F> {
    receiver: Receiver<usize>,
    task_map: HashMap<usize, Arc<Task<F>>>,
}

impl<F> View for Executor<F> {
    type V = Map<usize, Arc<Task<F>>>;

    /// The suspended tasks by token.
    closed spec fn view(&self) -> Map<usize, Arc<Task<F>>> {
        self.task_map@
    }
}

/// What happened to a running executor.
#[derive(Debug, Clone, Copy, PartialEq, Eq)]
pub enum RunEvent {
    /// A token came out of the ready queue.
    Received(usize),
    /// The task with the token was polled.
    Polled { token: usize, ready: bool },
}

/// What the executor asks for.
pub enum RunAction<F> {
    /// Receive from the ready queue.
    Receive,
    /// Poll a task.
    Poll(Arc<Task<F>>),
    /// Stop.
    Finish,
    /// Give up: no suspended task has this token.
    InvalidToken(usize),
}

/// Every task is kept under its own token.
pub open spec fn keyed_by_token<F>(tasks: Map<usize, Arc<Task<F>>>) -> bool {
    forall|token: usize| #[trigger]
        tasks.contains_key(token) ==> tasks[token].spec_token() == token
}

/// `list` holds each of `tasks` once, in some order.
pub open spec fn lists<F>(list: Seq<Arc<Task<F>>>, tasks: Map<usize, Arc<Task<F>>>) -> bool {
    &&& list.len() == tasks.len()
    &&& forall|token: usize| #[trigger]
        tasks.contains_key(token) ==> list.contains(tasks[token])
    &&& forall|i: int|
        0 <= i < list.len() ==> tasks.contains_key(#[trigger] list[i].spec_token())
            && tasks[list[i].spec_token()] == list[i]
    &&& forall|i: int, j: int|
        0 <= i < j < list.len() ==> #[trigger] list[i].spec_token() != #[trigger]
            list[j].spec_token()
}

/// The tasks that are left once `event` has happened: a task that was found
/// ready is forgotten.
pub open spec fn tasks_after<F>(tasks: Map<usize, Arc<Task<F>>>, event: RunEvent) -> Map<
    usize,
    Arc<Task<F>>,
> {
    match event {
        RunEvent::Polled { token, ready } => if ready {
            tasks.remove(token)
        } else {
            tasks
        },
        RunEvent::Received(_) => tasks,
    }
}

/// What `event` makes an executor with `tasks` ask for.
pub open spec fn asks<F>(
    tasks: Map<usize, Arc<Task<F>>>,
    event: RunEvent,
    action: RunAction<F>,
) -> bool {
    match event {
        RunEvent::Received(token) => action == if tasks.contains_key(token) {
            RunAction::Poll(tasks[token])
        } else {
            RunAction::InvalidToken(token)
        },
        RunEvent::Polled { token, ready } => action == if !ready {
            RunAction::<F>::Receive
        } else if !tasks.contains_key(token) {
            RunAction::InvalidToken(token)
        } else if tasks.remove(token).is_empty() {
            RunAction::Finish
        } else {
            RunAction::Receive
        },
    }
}

/// One turn of a running executor: a token came out of the ready queue, the
/// task with it was polled, and the poll found it ready or not.
pub struct Turn {
    pub token: usize,
    pub ready: bool,
}

/// The tasks that are left of `tasks` after `turns`.
pub open spec fn tasks_over<F>(tasks: Map<usize, Arc<Task<F>>>, turns: Seq<Turn>) -> Map<
    usize,
    Arc<Task<F>>,
>
    decreases turns.len(),
{
    if turns.len() == 0 {
        tasks
    } else {
        tasks_after(
            tasks_over(tasks, turns.drop_last()),
            RunEvent::Polled { token: turns.last().token, ready: turns.last().ready },
        )
    }
}

/// The executor asks for `action` after the last of `turns`.
pub open spec fn asks_after<F>(
    tasks: Map<usize, Arc<Task<F>>>,
    turns: Seq<Turn>,
    action: RunAction<F>,
) -> bool
    recommends
        turns.len() > 0,
{
    asks(
        tasks_over(tasks, turns.drop_last()),
        RunEvent::Polled { token: turns.last().token, ready: turns.last().ready },
        action,
    )
}

/// An executor that begins with `tasks` can go through `turns`: each token that
/// it receives makes it poll a task, and it asks for another token after every
/// turn but the last.
pub open spec fn is_run<F>(tasks: Map<usize, Arc<Task<F>>>, turns: Seq<Turn>) -> bool
    decreases turns.len(),
{
    turns.len() > 0 ==> {
        let before = turns.drop_last();
        let left = tasks_over(tasks, before);
        let token = turns.last().token;
        &&& is_run(tasks, before)
        &&& before.len() > 0 ==> asks_after(tasks, before, RunAction::Receive)
        &&& asks(left, RunEvent::Received(token), RunAction::Poll(left[token]))
    }
}

/// The executor has not stopped with the last of `turns`.
pub open spec fn goes_on<F>(tasks: Map<usize, Arc<Task<F>>>, turns: Seq<Turn>) -> bool {
    turns.len() > 0 ==> asks_after(tasks, turns, RunAction::Receive)
}

/// How running the tasks came to an end.
#[derive(Debug, Clone, Copy, PartialEq, Eq)]
pub enum RunEnd {
    /// No task is left.
    Completed,
    /// The ready queue is empty and nothing can be sent into it any more.
    Disconnected,
    /// A token came out of the ready queue that no suspended task has.
    InvalidToken(usize),
    /// As many tokens as were asked for have been received.
    OutOfTurns,
}

/// A run of `tasks` that has gone through `taken`, out of at most `turns`, comes
/// to `end`.
pub open spec fn ends<F>(
    tasks: Map<usize, Arc<Task<F>>>,
    taken: Seq<Turn>,
    turns: usize,
    end: RunEnd,
) -> bool {
    &&& taken.len() <= turns
    &&& match end {
        RunEnd::Completed => taken.len() > 0 && asks_after(tasks, taken, RunAction::Finish),
        RunEnd::Disconnected => goes_on(tasks, taken) && taken.len() < turns,
        RunEnd::InvalidToken(token) => goes_on(tasks, taken) && taken.len() < turns && asks(
            tasks_over(tasks, taken),
            RunEvent::Received(token),
            RunAction::InvalidToken(token),
        ),
        RunEnd::OutOfTurns => goes_on(tasks, taken) && taken.len() == turns,
    }
}

/// The calls that `turns` are made of: for each turn, a token is received from
/// `receiver`, and then the task with it is polled, once.
pub open spec fn calls_of<F>(
    receiver: Receiver<usize>,
    tasks: Map<usize, Arc<Task<F>>>,
    turns: Seq<Turn>,
) -> Seq<Call<F>>
    decreases turns.len(),
{
    if turns.len() == 0 {
        Seq::empty()
    } else {
        calls_of(receiver, tasks, turns.drop_last()).push(
            Call::Receive(receiver, Some(turns.last().token)),
        ).push(Call::Poll(tasks[turns.last().token], turns.last().ready))
    }
}

/// The call that brings a run to its end after the last turn, where there is
/// one.
pub open spec fn last_call<F>(receiver: Receiver<usize>, end: RunEnd) -> Seq<Call<F>> {
    match end {
        RunEnd::Disconnected => seq![Call::Receive(receiver, None)],
        RunEnd::InvalidToken(token) => seq![Call::Receive(receiver, Some(token))],
        RunEnd::Completed => Seq::empty(),
        RunEnd::OutOfTurns => Seq::empty(),
    }
}

/// The calls of a run of tasks that were woken: those of its turns, and the one
/// that ends it, where there is one.
pub open spec fn run_calls<F>(
    receiver: Receiver<usize>,
    tasks: Map<usize, Arc<Task<F>>>,
    turns: Seq<Turn>,
    end: RunEnd,
) -> Seq<Call<F>> {
    calls_of(receiver, tasks, turns) + last_call(receiver, end)
}

/// The calls that wake the tasks of `list`: the token of each is sent into its
/// own ready queue, once.
pub open spec fn wake_calls<F>(list: Seq<Arc<Task<F>>>) -> Seq<Call<F>> {
    list.map_values(
        |task: Arc<Task<F>>| Call::Send(task.spec_ready_queue(), task.spec_token()),
    )
}

/// `turn` is what `receive` and `poll` can give: the token, and whether the task
/// with it was ready.
pub open spec fn answers<F, R: Fn(&Receiver<usize>) -> Option<usize>, P: Fn(&Arc<Task<F>>) -> bool>(
    tasks: Map<usize, Arc<Task<F>>>,
    turn: Turn,
    receiver: Receiver<usize>,
    receive: R,
    poll: P,
) -> bool {
    &&& call_ensures(receive, (&receiver,), Some(turn.token))
    &&& call_ensures(poll, (&tasks[turn.token],), turn.ready)
}

/// `taken` and `end` are what `receive` and `poll` can give.
pub open spec fn answered<
    F,
    R: Fn(&Receiver<usize>) -> Option<usize>,
    P: Fn(&Arc<Task<F>>) -> bool,
>(
    tasks: Map<usize, Arc<Task<F>>>,
    taken: Seq<Turn>,
    end: RunEnd,
    receiver: Receiver<usize>,
    receive: R,
    poll: P,
) -> bool {
    &&& forall|i: int|
        0 <= i < taken.len() ==> answers(tasks, #[trigger] taken[i], receiver, receive, poll)
    &&& match end {
        RunEnd::Disconnected => call_ensures(receive, (&receiver,), None),
        RunEnd::InvalidToken(token) => call_ensures(receive, (&receiver,), Some(token)),
        _ => true,
    }
}

impl<F> Executor<F> {
    /// Every task is kept under its own token.
    pub open spec fn wf(&self) -> bool {
        keyed_by_token(self@)
    }

    /// The queue that tokens come out of.
    pub closed spec fn spec_receiver(&self) -> Receiver<usize> {
        self.receiver
    }

    /// An executor without tasks.
    pub fn new(receiver: Receiver<usize>) -> (executor: Executor<F>)
        ensures
            executor.wf(),
            executor@ == Map::<usize, Arc<Task<F>>>::empty(),
            executor.spec_receiver() == receiver,
    {
        Executor { receiver, task_map: HashMap::new() }
    }

    /// Keeps a task until its token is received. A task that was kept under
    /// the same token is dropped.
    pub fn suspend(&mut self, task: Arc<Task<F>>)
        requires
            old(self).wf(),
        ensures
            final(self).wf(),
            final(self)@ == old(self)@.insert(task.spec_token(), task),
            final(self).spec_receiver() == old(self).spec_receiver(),
    {
        self.task_map.insert(task.token, task);
    }

    /// The suspended tasks, which a run wakes: each once, in some order.
    pub fn tasks(&self) -> (list: Vec<Arc<Task<F>>>)
        requires
            self.wf(),
        ensures
            lists(list@, self@),
    {
        let mut list: Vec<Arc<Task<F>>> = Vec::new();
        for pair in it: self.task_map.iter()
            invariant
                list.len() == it.index(),
                forall|i: int| 0 <= i < list.len() ==> list@[i] == *it.seq()[i].1,
        {
            list.push(Arc::clone(pair.1));
        }
        proof {
            let pairs = vstd::std_specs::iter::IteratorSpec::remaining(
                &vstd::std_specs::hash::spec_hash_map_iter(&self.task_map),
            );
            assert forall|i: int| 0 <= i < list.len() implies self@.contains_key(
                #[trigger] list@[i].spec_token(),
            ) && self@[list@[i].spec_token()] == list@[i] && list@[i].spec_token()
                == *pairs[i].0 by {
                assert(self@.contains_key(*pairs[i].0));
            }
            assert forall|token: usize| #[trigger] self@.contains_key(token) implies list@.contains(
                self@[token],
            ) by {
                let i = pairs.index_of((&token, &self@[token]));
                assert(list@[i] == self@[token]);
            }
        }
        list
    }

    /// Wakes all tasks and runs them to completion: receives tokens, and polls
    /// the task with each of them, until none is left, the ready queue is
    /// disconnected, or a token belongs to no task. After `turns` tokens it
    /// pauses, and [`Executor::resume`] goes on.
    ///
    /// The calls of `hooks` are exactly these: every task is woken once, in some
    /// order; then each turn receives one token and polls its task once; then
    /// comes the call that ends the run, if any.
    pub fn run<
        S: Fn(&SyncSender<usize>, usize),
        R: Fn(&Receiver<usize>) -> Option<usize>,
        P: Fn(&Arc<Task<F>>) -> bool,
    >(&mut self, turns: usize, hooks: &mut Hooks<F, S, R, P>) -> (end: RunEnd)
        requires
            old(self).wf(),
            old(hooks).callable(),
        ensures
            exists|list: Seq<Arc<Task<F>>>, taken: Seq<Turn>|
                {
                    &&& #[trigger] lists(list, old(self)@)
                    &&& #[trigger] is_run(old(self)@, taken)
                    &&& ends(old(self)@, taken, turns, end)
                    &&& answered(
                        old(self)@,
                        taken,
                        end,
                        old(self).spec_receiver(),
                        old(hooks).spec_receive(),
                        old(hooks).spec_poll(),
                    )
                    &&& final(self)@ == tasks_over(old(self)@, taken)
                    &&& final(hooks).calls() == old(hooks).calls() + wake_calls(list) + run_calls(
                        old(self).spec_receiver(),
                        old(self)@,
                        taken,
                        end,
                    )
                },
            forall|token: usize| #[trigger]
                old(self)@.contains_key(token) ==> call_ensures(
                    old(hooks).spec_send(),
                    (&old(self)@[token].spec_ready_queue(), token),
                    (),
                ),
            end is Completed ==> final(self)@ == Map::<usize, Arc<Task<F>>>::empty(),
            final(self).wf(),
            final(self).spec_receiver() == old(self).spec_receiver(),
            final(hooks).same_functions(old(hooks)),
    {
        let list: Vec<Arc<Task<F>>> = self.tasks();
        let ghost woken = wake_calls(list@);
        let mut i: usize = 0;
        assert(woken.take(0) =~= Seq::<Call<F>>::empty());
        while i < list.len()
            invariant
                i <= list@.len(),
                woken == wake_calls(list@),
                hooks.callable(),
                hooks.same_functions(old(hooks)),
                hooks.calls() == old(hooks).calls() + woken.take(i as int),
                forall|j: int|
                    0 <= j < i ==> call_ensures(
                        old(hooks).spec_send(),
                        (&(#[trigger] list@[j]).spec_ready_queue(), list@[j].spec_token()),
                        (),
                    ),
            decreases list@.len() - i,
        {
            let (queue, token) = list[i].wake();
            hooks.send(queue, token);
            assert(woken.take(i + 1) =~= woken.take(i as int).push(woken[i as int]));
            i = i + 1;
        }
        assert(woken.take(i as int) =~= woken);
        assert(lists(list@, old(self)@));
        assert forall|token: usize| #[trigger] old(self)@.contains_key(token) implies call_ensures(
            old(hooks).spec_send(),
            (&old(self)@[token].spec_ready_queue(), token),
            (),
        ) by {
            let j = list@.index_of(old(self)@[token]);
            assert(list@[j] == old(self)@[token]);
        }
        self.resume(turns, hooks)
    }

    /// Runs tasks that were woken before, as [`Executor::run`] does, without
    /// waking any. A run and its resumptions are one run; see
    /// [`crate::laws::law_resumed_run_ends_as_one_run`].
    pub fn resume<
        S: Fn(&SyncSender<usize>, usize),
        R: Fn(&Receiver<usize>) -> Option<usize>,
        P: Fn(&Arc<Task<F>>) -> bool,
    >(&mut self, turns: usize, hooks: &mut Hooks<F, S, R, P>) -> (end: RunEnd)
        requires
            old(self).wf(),
            old(hooks).callable(),
        ensures
            exists|taken: Seq<Turn>|
                {
                    &&& #[trigger] is_run(old(self)@, taken)
                    &&& ends(old(self)@, taken, turns, end)
                    &&& answered(
                        old(self)@,
                        taken,
                        end,
                        old(self).spec_receiver(),
                        old(hooks).spec_receive(),
                        old(hooks).spec_poll(),
                    )
                    &&& final(self)@ == tasks_over(old(self)@, taken)
                    &&& final(hooks).calls() == old(hooks).calls() + run_calls(
                        old(self).spec_receiver(),
                        old(self)@,
                        taken,
                        end,
                    )
                },
            end is Completed ==> final(self)@ == Map::<usize, Arc<Task<F>>>::empty(),
            final(self).wf(),
            final(self).spec_receiver() == old(self).spec_receiver(),
            final(hooks).same_functions(old(hooks)),
    {
        let ghost tasks = self@;
        let ghost receiver = self.spec_receiver();
        let ghost mut taken: Seq<Turn> = Seq::empty();
        let mut turn: usize = 0;
        while turn < turns
            invariant
                turn <= turns,
                taken.len() == turn,
                self.wf(),
                self@ == tasks_over(tasks, taken),
                self.spec_receiver() == receiver,
                receiver == old(self).spec_receiver(),
                tasks == old(self)@,
                is_run(tasks, taken),
                goes_on(tasks, taken),
                forall|i: int| 0 <= i < taken.len() ==> answers(
                    tasks,
                    #[trigger] taken[i],
                    receiver,
                    old(hooks).spec_receive(),
                    old(hooks).spec_poll(),
                ),
                hooks.callable(),
                hooks.same_functions(old(hooks)),
                hooks.calls() == old(hooks).calls() + calls_of(receiver, tasks, taken),
            decreases turns - turn,
        {
            let token: usize = match hooks.receive(&self.receiver) {
                Some(token) => token,
                None => {
                    return RunEnd::Disconnected;
                },
            };
            let ready: bool = match self.step(RunEvent::Received(token)) {
                RunAction::Poll(task) => hooks.poll(&task),
                _ => {
                    return RunEnd::InvalidToken(token);
                },
            };
            let ghost next = taken.push(Turn { token, ready });
            proof {
                assert(next.drop_last() =~= taken);
                crate::laws::law_tasks_stay_until_ready(tasks, taken, token);
            }
            let action: RunAction<F> = self.step(RunEvent::Polled { token, ready });
            proof {
                assert(is_run(tasks, next));
                assert(answers(
                    tasks,
                    next.last(),
                    receiver,
                    old(hooks).spec_receive(),
                    old(hooks).spec_poll(),
                ));
                taken = next;
            }
            if let RunAction::Finish = action {
                return RunEnd::Completed;
            }
            turn = turn + 1;
        }
        RunEnd::OutOfTurns
    }

    /// Takes what happened, and says what is to be done next: a task is polled
    /// whenever its token is received, and forgotten once a poll finds it ready;
    /// with the last task the executor stops. It gives up on a token that no
    /// suspended task has.
    pub fn step(&mut self, event: RunEvent) -> (action: RunAction<F>)
        requires
            old(self).wf(),
        ensures
            final(self).wf(),
            final(self)@ == tasks_after(old(self)@, event),
            asks(old(self)@, event, action),
            final(self).spec_receiver() == old(self).spec_receiver(),
    {
        match event {
            RunEvent::Received(token) => match self.task_map.get(&token) {
                Some(task) => RunAction::Poll(Arc::clone(task)),
                None => RunAction::InvalidToken(token),
            },
            RunEvent::Polled { token, ready } => if ready {
                match self.task_map.remove(&token) {
                    Some(_) => if self.task_map.is_empty() {
                        RunAction::Finish
                    } else {
                        RunAction::Receive
                    },
                    None => RunAction::InvalidToken(token),
                }
            } else {
                RunAction::Receive
            },
        }
    }
}

/// Learns from epoll which tasks can go on.
#[derive(Debug)]
pub struct Reactor {
    registrator: Registrator,
}

impl View for Reactor {
    type V = i32;

    /// The file descriptor of the epoll instance.
    closed spec fn view(&self) -> i32 {
        self.registrator@
    }
}

/// The tokens of `events`, in order.
pub open spec fn tokens_of(events: Seq<Event>) -> Seq<usize> {
    events.map_values(|event: Event| event.token)
}

/// One round of a reactor: a wait had an outcome, and left events in its buffer.
pub struct Round {
    pub waited: Result<i32, IoError>,
    pub buffer: Seq<Event>,
}

/// The batch of events that a round gave.
pub open spec fn batch(round: Round) -> Seq<Event> {
    match round.waited {
        Ok(n) => round.buffer.take(n as int),
        Err(_) => Seq::empty(),
    }
}

/// The calls that send `tokens`, in order.
pub open spec fn send_calls(tokens: Seq<usize>) -> Seq<ReactorCall> {
    tokens.map_values(|token: usize| ReactorCall::Send(token))
}

/// The calls that `rounds` are made of, for the epoll instance `epfd`: in each
/// round a wait without a timeout, and then a message for each event, in order.
pub open spec fn round_calls(epfd: i32, rounds: Seq<Round>) -> Seq<ReactorCall>
    decreases rounds.len(),
{
    if rounds.len() == 0 {
        Seq::empty()
    } else {
        round_calls(epfd, rounds.drop_last()).push(
            ReactorCall::Wait {
                request: WaitRequest { epfd, max_events: 1024, timeout: -1i32 },
                waited: rounds.last().waited,
                buffer: rounds.last().buffer,
            },
        ) + send_calls(tokens_of(batch(rounds.last())))
    }
}

/// `round` is what `wait` can give.
pub open spec fn waits<W: Fn(WaitRequest) -> (Result<i32, IoError>, Vec<Event>)>(
    wait: W,
    epfd: i32,
    round: Round,
) -> bool {
    exists|buffer: Vec<Event>|
        #![trigger buffer@]
        buffer@ == round.buffer && call_ensures(
            wait,
            (WaitRequest { epfd, max_events: 1024, timeout: -1i32 },),
            (round.waited, buffer),
        )
}

/// How a reactor that was to go through `limit` rounds came to an end after
/// `rounds`: with all of them, or with the first that failed.
pub open spec fn reactor_ends(
    rounds: Seq<Round>,
    limit: usize,
    end: Result<(), IoError>,
) -> bool {
    &&& rounds.len() <= limit
    &&& forall|i: int|
        0 <= i < rounds.len() && (end is Ok || i < rounds.len() - 1) ==> (#[trigger]
        rounds[i]).waited is Ok
    &&& match end {
        Ok(_) => rounds.len() == limit,
        Err(e) => rounds.len() > 0 && rounds.last().waited == Err::<i32, IoError>(e),
    }
}

impl Reactor {
    /// The reactor of the epoll instance that `blocker` owns.
    pub fn new(blocker: &IoBlocker) -> (reactor: Reactor)
        ensures
            reactor@ == blocker@,
    {
        Reactor { registrator: blocker.registrator() }
    }

    /// A registrator for the epoll instance of the reactor.
    pub fn registrator(&self) -> (registrator: Registrator)
        ensures
            registrator@ == self@,
    {
        self.registrator
    }

    /// What to send into the ready queue after blocking: the token of each
    /// event, in order. Where blocking failed, the reactor cannot go on.
    pub fn dispatch(blocked: Result<i32, IoError>, events: &Vec<Event>) -> (r: Result<
        Vec<usize>,
        IoError,
    >)
        ensures
            match blocked {
                Ok(_) => r matches Ok(tokens) && tokens@ == tokens_of(events@),
                Err(e) => r matches Err(error) && error == e,
            },
    {
        match blocked {
            Ok(_) => {
                let mut tokens: Vec<usize> = Vec::new();
                let mut i: usize = 0;
                while i < events.len()
                    invariant
                        i <= events@.len(),
                        tokens@ == tokens_of(events@).take(i as int),
                    decreases events@.len() - i,
                {
                    tokens.push(events[i].token());
                    i = i + 1;
                }
                Ok(tokens)
            },
            Err(e) => Err(e),
        }
    }

    /// Blocks until events are available and sends the token of each into the
    /// ready queue, `limit` times over. Gives up at the first wait that fails.
    ///
    /// The calls of `hooks` are exactly these: in each round one wait, and then
    /// one message for each event that it gave, in order.
    pub fn forward<W: Fn(WaitRequest) -> (Result<i32, IoError>, Vec<Event>), S: Fn(usize)>(
        blocker: &IoBlocker,
        limit: usize,
        hooks: &mut ReactorHooks<W, S>,
    ) -> (end: Result<(), IoError>)
        requires
            old(hooks).callable(),
        ensures
            exists|rounds: Seq<Round>|
                {
                    &&& #[trigger] reactor_ends(rounds, limit, end)
                    &&& forall|i: int|
                        0 <= i < rounds.len() ==> fits(
                            (#[trigger] rounds[i]).waited,
                            rounds[i].buffer,
                        ) && waits(old(hooks).spec_wait(), blocker@, rounds[i])
                    &&& final(hooks).calls() == old(hooks).calls() + round_calls(blocker@, rounds)
                },
            final(hooks).same_functions(old(hooks)),
    {
        let ghost mut rounds: Seq<Round> = Seq::empty();
        let mut events: Vec<Event> = Vec::new();
        let mut round: usize = 0;
        while round < limit
            invariant
                round <= limit,
                rounds.len() == round,
                forall|i: int|
                    0 <= i < rounds.len() ==> (#[trigger] rounds[i]).waited is Ok && fits(
                        rounds[i].waited,
                        rounds[i].buffer,
                    ) && waits(old(hooks).spec_wait(), blocker@, rounds[i]),
                hooks.callable(),
                hooks.same_functions(old(hooks)),
                hooks.calls() == old(hooks).calls() + round_calls(blocker@, rounds),
            decreases limit - round,
        {
            let (waited, buffer) = hooks.wait(blocker.wait_request());
            let ghost next = rounds.push(Round { waited, buffer: buffer@ });
            assert(next.drop_last() =~= rounds);
            assert(waits(old(hooks).spec_wait(), blocker@, next.last()));
            let blocked: Result<i32, IoError> = blocker.block(&mut events, &buffer, waited);
            assert(events@ == batch(next.last()));
            let ghost sends = send_calls(tokens_of(batch(next.last())));
            match Reactor::dispatch(blocked, &events) {
                Ok(tokens) => {
                    let ghost before = hooks.calls();
                    let mut i: usize = 0;
                    assert(sends.take(0) =~= Seq::<ReactorCall>::empty());
                    while i < tokens.len()
                        invariant
                            i <= tokens@.len(),
                            sends == send_calls(tokens@),
                            hooks.callable(),
                            hooks.same_functions(old(hooks)),
                            hooks.calls() == before + sends.take(i as int),
                        decreases tokens@.len() - i,
                    {
                        hooks.send(tokens[i]);
                        assert(sends.take(i + 1) =~= sends.take(i as int).push(sends[i as int]));
                        i = i + 1;
                    }
                    assert(sends.take(i as int) =~= sends);
                    proof {
                        rounds = next;
                    }
                },
                Err(e) => {
                    assert(sends =~= Seq::<ReactorCall>::empty());
                    assert(reactor_ends(next, limit, Err(e)));
                    return Err(e);
                },
            }
            round = round + 1;
        }
        assert(reactor_ends(rounds, limit, Ok(())));
        Ok(())
    }
}

} // verus!
