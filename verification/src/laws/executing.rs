//! What the executor does.
//!
//! Each law speaks of the arguments and results of the functions alone: of the
//! tasks that are suspended before and after, and of the calls that were made in
//! between.
use std::sync::mpsc::{Receiver, SyncSender};
use std::sync::Arc;
use vstd::prelude::*;

use crate::hooks::{Call, Hooks};
use crate::laws::{
    completes, law_one_poll_per_token, law_ready_task_has_no_later_turn,
    law_tasks_stay_until_ready, lemma_polled_task_was_suspended,
};
use crate::runtime::{
    answered, calls_of, ends, is_run, keyed_by_token, lists, run_calls, tasks_over, wake_calls,
    Executor, RunAction, RunEnd, RunEvent, Task, Turn,
};

verus! {

/// A task gives back the future that it was made with, and waking it sends its
/// own token into its own queue.
pub proof fn law_task_keeps_what_it_was_made_with<F>(
    future: F,
    ready_queue: SyncSender<usize>,
    token: usize,
    task: Arc<Task<F>>,
    message: (&SyncSender<usize>, usize),
    kept: &F,
)
    requires
        call_ensures(Task::<F>::new, (future, ready_queue, token), task),
        call_ensures(Task::<F>::wake, (&*task,), message),
        call_ensures(Task::<F>::future, (&*task,), kept),
    ensures
        task.spec_token() == token,
        task.spec_ready_queue() == ready_queue,
        task.spec_future() == future,
        *message.0 == ready_queue,
        message.1 == token,
        *kept == future,
{
}

/// A new executor has no tasks, and receives from the queue that it was given.
pub proof fn law_new_executor_is_empty<F>(receiver: Receiver<usize>, executor: Executor<F>)
    requires
        call_ensures(Executor::<F>::new, (receiver,), executor),
    ensures
        forall|token: usize| !executor@.contains_key(token),
        executor.spec_receiver() == receiver,
{
}

/// Suspending a task keeps it under its own token, in place of the task that was
/// there, and keeps every other task where it was.
pub proof fn law_suspend_keeps_the_task_under_its_token<F>(
    executor: &mut Executor<F>,
    task: Arc<Task<F>>,
)
    requires
        call_ensures(Executor::<F>::suspend, (executor, task), ()),
    ensures
        final(executor)@.contains_key(task.spec_token()),
        final(executor)@[task.spec_token()] == task,
        forall|token: usize|
            token != task.spec_token() ==> (#[trigger] final(executor)@.contains_key(token)
                <==> old(executor)@.contains_key(token)),
        forall|token: usize|
            token != task.spec_token() && #[trigger] old(executor)@.contains_key(token)
                ==> final(executor)@[token] == old(executor)@[token],
        final(executor).spec_receiver() == old(executor).spec_receiver(),
{
}

/// The list of the suspended tasks holds each of them, holds none twice, and
/// holds nothing else.
pub proof fn law_tasks_lists_each_task_once<F>(executor: Executor<F>, list: Vec<Arc<Task<F>>>)
    requires
        call_ensures(Executor::<F>::tasks, (&executor,), list),
    ensures
        list@.len() == executor@.dom().len(),
        forall|token: usize| #[trigger]
            executor@.contains_key(token) ==> exists|i: int|
                0 <= i < list@.len() && #[trigger] list@[i] == executor@[token],
        forall|i: int|
            0 <= i < list@.len() ==> executor@.contains_key(#[trigger] list@[i].spec_token())
                && executor@[list@[i].spec_token()] == list@[i],
        forall|i: int, j: int|
            0 <= i < j < list@.len() ==> #[trigger] list@[i].spec_token()
                != #[trigger] list@[j].spec_token(),
{
    assert forall|token: usize| #[trigger] executor@.contains_key(token) implies exists|i: int|
        0 <= i < list@.len() && #[trigger] list@[i] == executor@[token] by {
        let i = list@.index_of(executor@[token]);
        assert(list@[i] == executor@[token]);
    }
}

/// A received token makes the executor poll the task that is suspended under it;
/// only a token that no suspended task has makes it give up. No task is lost.
pub proof fn law_received_token_polls_its_task<F>(
    executor: &mut Executor<F>,
    token: usize,
    action: RunAction<F>,
)
    requires
        call_ensures(Executor::<F>::step, (executor, RunEvent::Received(token)), action),
    ensures
        old(executor)@.contains_key(token) ==> action == RunAction::Poll(old(executor)@[token]),
        !old(executor)@.contains_key(token) ==> action == RunAction::<F>::InvalidToken(token),
        final(executor)@ == old(executor)@,
        final(executor).spec_receiver() == old(executor).spec_receiver(),
{
}

/// A task that was polled and is not ready stays, as every other does, and the
/// executor asks for another token.
pub proof fn law_pending_task_stays<F>(
    executor: &mut Executor<F>,
    token: usize,
    action: RunAction<F>,
)
    requires
        call_ensures(
            Executor::<F>::step,
            (executor, RunEvent::Polled { token, ready: false }),
            action,
        ),
    ensures
        action == RunAction::<F>::Receive,
        final(executor)@ == old(executor)@,
        final(executor).spec_receiver() == old(executor).spec_receiver(),
{
}

/// A task that was found ready is forgotten, and no other is. The executor stops
/// exactly if there is no other, and asks for another token if there is one.
pub proof fn law_ready_task_is_forgotten<F>(
    executor: &mut Executor<F>,
    token: usize,
    action: RunAction<F>,
)
    requires
        call_ensures(
            Executor::<F>::step,
            (executor, RunEvent::Polled { token, ready: true }),
            action,
        ),
    ensures
        forall|other: usize| #[trigger]
            final(executor)@.contains_key(other) <==> other != token
                && old(executor)@.contains_key(other),
        forall|other: usize| #[trigger]
            final(executor)@.contains_key(other) ==> final(executor)@[other]
                == old(executor)@[other],
        !old(executor)@.contains_key(token) ==> action == RunAction::<F>::InvalidToken(token),
        old(executor)@.contains_key(token) && (forall|other: usize| #[trigger]
            old(executor)@.contains_key(other) ==> other == token) ==> action
            == RunAction::<F>::Finish,
        old(executor)@.contains_key(token) && (exists|other: usize| #[trigger]
            old(executor)@.contains_key(other) && other != token) ==> action
            == RunAction::<F>::Receive,
        final(executor).spec_receiver() == old(executor).spec_receiver(),
{
    let tasks = old(executor)@;
    if forall|other: usize| #[trigger] tasks.contains_key(other) ==> other == token {
        assert(tasks.remove(token) =~= Map::<usize, Arc<Task<F>>>::empty());
    }
    if exists|other: usize| #[trigger] tasks.contains_key(other) && other != token {
        let other = choose|other: usize| #[trigger] tasks.contains_key(other) && other != token;
        assert(tasks.remove(token).contains_key(other));
    }
}

/// An executor takes every event and every task, and lists its tasks, as long as
/// each of them is kept under its own token; suspending sees to that.
pub proof fn law_executor_asks_for_its_keys_only<F>(
    executor: &mut Executor<F>,
    event: RunEvent,
    task: Arc<Task<F>>,
)
    requires
        forall|token: usize| #[trigger]
            old(executor)@.contains_key(token) ==> old(executor)@[token].spec_token() == token,
    ensures
        call_requires(Executor::<F>::step, (executor, event)),
        call_requires(Executor::<F>::suspend, (executor, task)),
        call_requires(Executor::<F>::tasks, (&*old(executor),)),
{
}

/// Hooks call the functions that they were made with, and begin without a call.
pub proof fn law_hooks_keep_their_functions<
    F,
    S: Fn(&SyncSender<usize>, usize),
    R: Fn(&Receiver<usize>) -> Option<usize>,
    P: Fn(&Arc<Task<F>>) -> bool,
>(send: S, receive: R, poll: P, hooks: Hooks<F, S, R, P>)
    requires
        call_ensures(Hooks::<F, S, R, P>::new, (send, receive, poll), hooks),
    ensures
        hooks.calls().len() == 0,
        hooks.spec_send() == send,
        hooks.spec_receive() == receive,
        hooks.spec_poll() == poll,
{
}

/// Sending through hooks is a call of the function that sends, with the same
/// arguments, and is put on record behind what was there.
pub proof fn law_sending_is_recorded<
    F,
    S: Fn(&SyncSender<usize>, usize),
    R: Fn(&Receiver<usize>) -> Option<usize>,
    P: Fn(&Arc<Task<F>>) -> bool,
>(hooks: &mut Hooks<F, S, R, P>, queue: SyncSender<usize>, token: usize)
    requires
        call_ensures(Hooks::<F, S, R, P>::send, (hooks, &queue, token), ()),
    ensures
        call_ensures(old(hooks).spec_send(), (&queue, token), ()),
        final(hooks).calls() == old(hooks).calls().push(Call::<F>::Send(queue, token)),
        final(hooks).spec_send() == old(hooks).spec_send(),
        final(hooks).spec_receive() == old(hooks).spec_receive(),
        final(hooks).spec_poll() == old(hooks).spec_poll(),
{
}

/// Receiving through hooks gives what the function that receives gave, and is put
/// on record behind what was there.
pub proof fn law_receiving_is_recorded<
    F,
    S: Fn(&SyncSender<usize>, usize),
    R: Fn(&Receiver<usize>) -> Option<usize>,
    P: Fn(&Arc<Task<F>>) -> bool,
>(hooks: &mut Hooks<F, S, R, P>, receiver: Receiver<usize>, received: Option<usize>)
    requires
        call_ensures(Hooks::<F, S, R, P>::receive, (hooks, &receiver), received),
    ensures
        call_ensures(old(hooks).spec_receive(), (&receiver,), received),
        final(hooks).calls() == old(hooks).calls().push(Call::<F>::Receive(receiver, received)),
        final(hooks).spec_send() == old(hooks).spec_send(),
        final(hooks).spec_receive() == old(hooks).spec_receive(),
        final(hooks).spec_poll() == old(hooks).spec_poll(),
{
}

/// Polling through hooks gives what the function that polls gave, and is put on
/// record behind what was there.
pub proof fn law_polling_is_recorded<
    F,
    S: Fn(&SyncSender<usize>, usize),
    R: Fn(&Receiver<usize>) -> Option<usize>,
    P: Fn(&Arc<Task<F>>) -> bool,
>(hooks: &mut Hooks<F, S, R, P>, task: Arc<Task<F>>, ready: bool)
    requires
        call_ensures(Hooks::<F, S, R, P>::poll, (hooks, &task), ready),
    ensures
        call_ensures(old(hooks).spec_poll(), (&task,), ready),
        final(hooks).calls() == old(hooks).calls().push(Call::Poll(task, ready)),
        final(hooks).spec_send() == old(hooks).spec_send(),
        final(hooks).spec_receive() == old(hooks).spec_receive(),
        final(hooks).spec_poll() == old(hooks).spec_poll(),
{
}

/// What the calls of a run are.
proof fn lemma_run_alternates<F>(
    receiver: Receiver<usize>,
    tasks: Map<usize, Arc<Task<F>>>,
    taken: Seq<Turn>,
    end: RunEnd,
    calls: Seq<Call<F>>,
)
    requires
        is_run(tasks, taken),
        calls == run_calls(receiver, tasks, taken, end),
    ensures
        forall|i: int|
            0 <= i < calls.len() && i % 2 == 0 ==> (#[trigger] calls[i] matches Call::Receive(queue, _)
                && queue == receiver),
        forall|i: int|
            0 <= i < calls.len() && i % 2 == 1 ==> (#[trigger] calls[i] matches Call::Poll(task, _) && (
            calls[i - 1] matches Call::Receive(_, Some(token)) && tasks.contains_key(token)
                && task == tasks[token])),
{
    law_one_poll_per_token(receiver, tasks, taken);
    let made = calls_of(receiver, tasks, taken);
    assert forall|i: int| 0 <= i < calls.len() && i % 2 == 0 implies (#[trigger] calls[i] matches Call::Receive(
        queue,
        _,
    ) && queue == receiver) by {
        if i < made.len() {
            let a = i / 2;
            assert(made[2 * a] == Call::<F>::Receive(receiver, Some(taken[a].token)));
        }
    }
    assert forall|i: int| 0 <= i < calls.len() && i % 2 == 1 implies (#[trigger] calls[i] matches Call::Poll(
        task,
        _,
    ) && (calls[i - 1] matches Call::Receive(_, Some(token)) && tasks.contains_key(token) && task
        == tasks[token])) by {
        let a = i / 2;
        assert(i == 2 * a + 1);
        assert(made[2 * a] == Call::<F>::Receive(receiver, Some(taken[a].token)));
        lemma_polled_task_was_suspended(tasks, taken, a);
    }
}

/// What a run does to the tasks, told by its calls.
proof fn lemma_run_forgets_ready_tasks<F>(
    receiver: Receiver<usize>,
    tasks: Map<usize, Arc<Task<F>>>,
    taken: Seq<Turn>,
    end: RunEnd,
    calls: Seq<Call<F>>,
    left: Map<usize, Arc<Task<F>>>,
)
    requires
        keyed_by_token(tasks),
        is_run(tasks, taken),
        calls == run_calls(receiver, tasks, taken, end),
        left == tasks_over(tasks, taken),
    ensures
        forall|i: int, j: int|
            0 <= i < j < calls.len() ==> (#[trigger] calls[i] matches Call::Poll(earlier, true) ==> (
            #[trigger] calls[j] matches Call::Poll(later, _) ==> later.spec_token()
                != earlier.spec_token())),
        forall|token: usize| #[trigger]
            left.contains_key(token) <==> tasks.contains_key(token) && forall|i: int|
                0 <= i < calls.len() ==> #[trigger] calls[i] != Call::Poll(tasks[token], true),
        forall|token: usize| #[trigger]
            left.contains_key(token) ==> left[token] == tasks[token],
{
    law_one_poll_per_token(receiver, tasks, taken);
    let made = calls_of(receiver, tasks, taken);
    assert forall|i: int| 0 <= i < calls.len() && #[trigger] calls[i] is Poll implies {
        &&& i % 2 == 1
        &&& 0 <= i / 2 < taken.len()
        &&& tasks.contains_key(taken[i / 2].token)
        &&& calls[i] == Call::Poll(tasks[taken[i / 2].token], taken[i / 2].ready)
    } by {
        let a = i / 2;
        if i < made.len() {
            assert(made[2 * a] == Call::<F>::Receive(receiver, Some(taken[a].token)));
            assert(i == 2 * a || i == 2 * a + 1);
            lemma_polled_task_was_suspended(tasks, taken, a);
        }
    }
    assert forall|i: int, j: int| 0 <= i < j < calls.len() implies (#[trigger] calls[i] matches Call::Poll(
        earlier,
        true,
    ) ==> (#[trigger] calls[j] matches Call::Poll(later, _) ==> later.spec_token()
        != earlier.spec_token())) by {
        if calls[i] is Poll && calls[i]->Poll_1 && calls[j] is Poll {
            law_ready_task_has_no_later_turn(tasks, taken, i / 2, j / 2);
        }
    }
    assert forall|token: usize| #[trigger]
        left.contains_key(token) <==> tasks.contains_key(token) && forall|i: int|
            0 <= i < calls.len() ==> #[trigger] calls[i] != Call::Poll(tasks[token], true) by {
        law_tasks_stay_until_ready(tasks, taken, token);
        if left.contains_key(token) {
            assert forall|i: int| 0 <= i < calls.len() implies #[trigger] calls[i] != Call::Poll(
                tasks[token],
                true,
            ) by {
                if calls[i] == Call::Poll(tasks[token], true) {
                    assert(completes(taken, i / 2, token));
                }
            }
        } else if tasks.contains_key(token) {
            let a = choose|a: int| completes(taken, a, token);
            assert(made[2 * a] == Call::<F>::Receive(receiver, Some(taken[a].token)));
            assert(calls[2 * a + 1] == Call::Poll(tasks[token], true));
        }
    }
    assert forall|token: usize| #[trigger] left.contains_key(token) implies left[token]
        == tasks[token] by {
        law_tasks_stay_until_ready(tasks, taken, token);
    }
}

/// How a run comes to its end, told by its calls.
proof fn lemma_run_end_is_told_by_its_calls<F>(
    receiver: Receiver<usize>,
    tasks: Map<usize, Arc<Task<F>>>,
    taken: Seq<Turn>,
    turns: usize,
    end: RunEnd,
    calls: Seq<Call<F>>,
    left: Map<usize, Arc<Task<F>>>,
)
    requires
        is_run(tasks, taken),
        ends(tasks, taken, turns, end),
        calls == run_calls(receiver, tasks, taken, end),
        left == tasks_over(tasks, taken),
    ensures
        calls.len() <= 2 * turns,
        match end {
            RunEnd::Completed => {
                &&& calls.len() > 0
                &&& calls.len() % 2 == 0
                &&& calls.last() matches Call::Poll(_, true)
                &&& forall|token: usize| !left.contains_key(token)
            },
            RunEnd::Disconnected => {
                &&& calls.len() % 2 == 1
                &&& calls.last() == Call::<F>::Receive(receiver, None)
            },
            RunEnd::InvalidToken(token) => {
                &&& calls.len() % 2 == 1
                &&& calls.last() == Call::<F>::Receive(receiver, Some(token))
                &&& !left.contains_key(token)
            },
            RunEnd::OutOfTurns => calls.len() == 2 * turns,
        },
        end !is Completed && calls.len() >= 2 ==> exists|token: usize| left.contains_key(token),
{
    law_one_poll_per_token(receiver, tasks, taken);
    let made = calls_of(receiver, tasks, taken);
    if taken.len() > 0 {
        let a = taken.len() - 1;
        assert(made[2 * a] == Call::<F>::Receive(receiver, Some(taken[a].token)));
        assert(made.last() == Call::Poll(tasks[taken[a].token], taken[a].ready));
    }
    if end !is Completed && calls.len() >= 2 {
        assert(taken.len() > 0);
        let before = tasks_over(tasks, taken.drop_last());
        assert(before.contains_key(taken.last().token));
        if taken.last().ready {
            assert(!left.is_empty());
            assert(exists|token: usize| left.contains_key(token)) by {
                if forall|token: usize| !left.contains_key(token) {
                    assert(left =~= Map::<usize, Arc<Task<F>>>::empty());
                }
            }
        } else {
            assert(left.contains_key(taken.last().token));
        }
    }
}

/// Every call of a run is one that its functions can have answered.
proof fn lemma_run_calls_were_answered<
    F,
    R: Fn(&Receiver<usize>) -> Option<usize>,
    P: Fn(&Arc<Task<F>>) -> bool,
>(
    receiver: Receiver<usize>,
    tasks: Map<usize, Arc<Task<F>>>,
    taken: Seq<Turn>,
    end: RunEnd,
    calls: Seq<Call<F>>,
    receive: R,
    poll: P,
)
    requires
        is_run(tasks, taken),
        calls == run_calls(receiver, tasks, taken, end),
        answered(tasks, taken, end, receiver, receive, poll),
    ensures
        forall|i: int|
            0 <= i < calls.len() ==> match #[trigger] calls[i] {
                Call::Receive(queue, received) => call_ensures(receive, (&queue,), received),
                Call::Poll(task, ready) => call_ensures(poll, (&task,), ready),
                Call::Send(..) => false,
            },
{
    law_one_poll_per_token(receiver, tasks, taken);
    let made = calls_of(receiver, tasks, taken);
    assert forall|i: int| 0 <= i < calls.len() implies match #[trigger] calls[i] {
        Call::Receive(queue, received) => call_ensures(receive, (&queue,), received),
        Call::Poll(task, ready) => call_ensures(poll, (&task,), ready),
        Call::Send(..) => false,
    } by {
        if i < made.len() {
            let a = i / 2;
            assert(made[2 * a] == Call::<F>::Receive(receiver, Some(taken[a].token)));
            assert(i == 2 * a || i == 2 * a + 1);
        }
    }
}

/// A run, once it has woken the tasks, receives a token and polls
/// the task that is suspended under it, by turns, beginning with a token: every
/// poll is of the task whose token came just before.
pub proof fn law_run_polls_each_token_it_receives<
    F,
    S: Fn(&SyncSender<usize>, usize),
    R: Fn(&Receiver<usize>) -> Option<usize>,
    P: Fn(&Arc<Task<F>>) -> bool,
>(
    executor: &mut Executor<F>,
    turns: usize,
    hooks: &mut Hooks<F, S, R, P>,
    end: RunEnd,
    woken: Seq<Call<F>>,
    calls: Seq<Call<F>>,
)
    requires
        call_ensures(Executor::<F>::run::<S, R, P>, (executor, turns, hooks), end),
        final(hooks).calls() == old(hooks).calls() + woken + calls,
        woken.len() == old(executor)@.dom().len(),
    ensures
        forall|i: int|
            0 <= i < calls.len() && i % 2 == 0 ==> (#[trigger] calls[i] matches Call::Receive(queue, _)
                && queue == old(executor).spec_receiver()),
        forall|i: int|
            0 <= i < calls.len() && i % 2 == 1 ==> (#[trigger] calls[i] matches Call::Poll(task, _) && (
            calls[i - 1] matches Call::Receive(_, Some(token)) && old(executor)@.contains_key(token)
                && task == old(executor)@[token])),
{
    let tasks = old(executor)@;
    let receiver = old(executor).spec_receiver();
    let (list, taken) = choose|list: Seq<Arc<Task<F>>>, taken: Seq<Turn>|
        {
            &&& #[trigger] lists(list, tasks)
            &&& #[trigger] is_run(tasks, taken)
            &&& ends(tasks, taken, turns, end)
            &&& answered(
                tasks,
                taken,
                end,
                receiver,
                old(hooks).spec_receive(),
                old(hooks).spec_poll(),
            )
            &&& final(executor)@ == tasks_over(tasks, taken)
            &&& final(hooks).calls() == old(hooks).calls() + wake_calls(list) + run_calls(
                receiver,
                tasks,
                taken,
                end,
            )
        };
    let before = old(hooks).calls();
    let made = run_calls(receiver, tasks, taken, end);
    let woken_at = before.len() + wake_calls(list).len();
    assert(calls =~= final(hooks).calls().skip(woken_at as int));
    assert(made =~= final(hooks).calls().skip(woken_at as int));
    lemma_run_alternates(receiver, tasks, taken, end, calls);
}

/// A run, once it has woken the tasks, leaves exactly the tasks that
/// no poll found ready, unchanged, and does not poll a task again that a poll
/// found ready.
pub proof fn law_run_forgets_exactly_the_ready_tasks<
    F,
    S: Fn(&SyncSender<usize>, usize),
    R: Fn(&Receiver<usize>) -> Option<usize>,
    P: Fn(&Arc<Task<F>>) -> bool,
>(
    executor: &mut Executor<F>,
    turns: usize,
    hooks: &mut Hooks<F, S, R, P>,
    end: RunEnd,
    woken: Seq<Call<F>>,
    calls: Seq<Call<F>>,
)
    requires
        forall|token: usize| #[trigger]
            old(executor)@.contains_key(token) ==> old(executor)@[token].spec_token() == token,
        call_ensures(Executor::<F>::run::<S, R, P>, (executor, turns, hooks), end),
        final(hooks).calls() == old(hooks).calls() + woken + calls,
        woken.len() == old(executor)@.dom().len(),
    ensures
        forall|i: int, j: int|
            0 <= i < j < calls.len() ==> (#[trigger] calls[i] matches Call::Poll(earlier, true) ==> (
            #[trigger] calls[j] matches Call::Poll(later, _) ==> later.spec_token()
                != earlier.spec_token())),
        forall|token: usize| #[trigger]
            final(executor)@.contains_key(token) <==> old(executor)@.contains_key(token) && forall|i: int|
                0 <= i < calls.len() ==> #[trigger] calls[i] != Call::Poll(old(executor)@[token], true),
        forall|token: usize| #[trigger]
            final(executor)@.contains_key(token) ==> final(executor)@[token] == old(executor)@[token],
{
    let tasks = old(executor)@;
    let receiver = old(executor).spec_receiver();
    let (list, taken) = choose|list: Seq<Arc<Task<F>>>, taken: Seq<Turn>|
        {
            &&& #[trigger] lists(list, tasks)
            &&& #[trigger] is_run(tasks, taken)
            &&& ends(tasks, taken, turns, end)
            &&& answered(
                tasks,
                taken,
                end,
                receiver,
                old(hooks).spec_receive(),
                old(hooks).spec_poll(),
            )
            &&& final(executor)@ == tasks_over(tasks, taken)
            &&& final(hooks).calls() == old(hooks).calls() + wake_calls(list) + run_calls(
                receiver,
                tasks,
                taken,
                end,
            )
        };
    let before = old(hooks).calls();
    let made = run_calls(receiver, tasks, taken, end);
    let woken_at = before.len() + wake_calls(list).len();
    assert(calls =~= final(hooks).calls().skip(woken_at as int));
    assert(made =~= final(hooks).calls().skip(woken_at as int));
    lemma_run_forgets_ready_tasks(receiver, tasks, taken, end, calls, final(executor)@);
}

/// A run, once it has woken the tasks, ends as its calls tell. It
/// has completed exactly if the last poll found the last task ready; it is
/// disconnected if nothing came out of the queue; it gives up on a token only
/// where no task is left under it; and it pauses only after as many turns as it
/// was given. While there are tasks left it has not completed.
pub proof fn law_run_ends_for_a_reason<
    F,
    S: Fn(&SyncSender<usize>, usize),
    R: Fn(&Receiver<usize>) -> Option<usize>,
    P: Fn(&Arc<Task<F>>) -> bool,
>(
    executor: &mut Executor<F>,
    turns: usize,
    hooks: &mut Hooks<F, S, R, P>,
    end: RunEnd,
    woken: Seq<Call<F>>,
    calls: Seq<Call<F>>,
)
    requires
        call_ensures(Executor::<F>::run::<S, R, P>, (executor, turns, hooks), end),
        final(hooks).calls() == old(hooks).calls() + woken + calls,
        woken.len() == old(executor)@.dom().len(),
    ensures
        calls.len() <= 2 * turns,
        match end {
            RunEnd::Completed => {
                &&& calls.len() > 0
                &&& calls.len() % 2 == 0
                &&& calls.last() matches Call::Poll(_, true)
                &&& forall|token: usize| !final(executor)@.contains_key(token)
            },
            RunEnd::Disconnected => {
                &&& calls.len() % 2 == 1
                &&& calls.last() == Call::<F>::Receive(old(executor).spec_receiver(), None)
            },
            RunEnd::InvalidToken(token) => {
                &&& calls.len() % 2 == 1
                &&& calls.last() == Call::<F>::Receive(old(executor).spec_receiver(), Some(token))
                &&& !final(executor)@.contains_key(token)
            },
            RunEnd::OutOfTurns => calls.len() == 2 * turns,
        },
        end !is Completed && calls.len() >= 2 ==> exists|token: usize| final(executor)@.contains_key(token),
{
    let tasks = old(executor)@;
    let receiver = old(executor).spec_receiver();
    let (list, taken) = choose|list: Seq<Arc<Task<F>>>, taken: Seq<Turn>|
        {
            &&& #[trigger] lists(list, tasks)
            &&& #[trigger] is_run(tasks, taken)
            &&& ends(tasks, taken, turns, end)
            &&& answered(
                tasks,
                taken,
                end,
                receiver,
                old(hooks).spec_receive(),
                old(hooks).spec_poll(),
            )
            &&& final(executor)@ == tasks_over(tasks, taken)
            &&& final(hooks).calls() == old(hooks).calls() + wake_calls(list) + run_calls(
                receiver,
                tasks,
                taken,
                end,
            )
        };
    let before = old(hooks).calls();
    let made = run_calls(receiver, tasks, taken, end);
    let woken_at = before.len() + wake_calls(list).len();
    assert(calls =~= final(hooks).calls().skip(woken_at as int));
    assert(made =~= final(hooks).calls().skip(woken_at as int));
    lemma_run_end_is_told_by_its_calls(
        receiver,
        tasks,
        taken,
        turns,
        end,
        calls,
        final(executor)@,
    );
}

/// A run, once it has woken the tasks, goes by what its functions
/// answered: each token, and each ready or pending task, is what a call gave. It
/// sends nothing.
pub proof fn law_run_goes_by_the_answers_it_got<
    F,
    S: Fn(&SyncSender<usize>, usize),
    R: Fn(&Receiver<usize>) -> Option<usize>,
    P: Fn(&Arc<Task<F>>) -> bool,
>(
    executor: &mut Executor<F>,
    turns: usize,
    hooks: &mut Hooks<F, S, R, P>,
    end: RunEnd,
    woken: Seq<Call<F>>,
    calls: Seq<Call<F>>,
)
    requires
        call_ensures(Executor::<F>::run::<S, R, P>, (executor, turns, hooks), end),
        final(hooks).calls() == old(hooks).calls() + woken + calls,
        woken.len() == old(executor)@.dom().len(),
    ensures
        forall|i: int|
            0 <= i < calls.len() ==> match #[trigger] calls[i] {
                Call::Receive(queue, received) => call_ensures(old(hooks).spec_receive(), (&queue,), received),
                Call::Poll(task, ready) => call_ensures(old(hooks).spec_poll(), (&task,), ready),
                Call::Send(..) => false,
            },
{
    let tasks = old(executor)@;
    let receiver = old(executor).spec_receiver();
    let (list, taken) = choose|list: Seq<Arc<Task<F>>>, taken: Seq<Turn>|
        {
            &&& #[trigger] lists(list, tasks)
            &&& #[trigger] is_run(tasks, taken)
            &&& ends(tasks, taken, turns, end)
            &&& answered(
                tasks,
                taken,
                end,
                receiver,
                old(hooks).spec_receive(),
                old(hooks).spec_poll(),
            )
            &&& final(executor)@ == tasks_over(tasks, taken)
            &&& final(hooks).calls() == old(hooks).calls() + wake_calls(list) + run_calls(
                receiver,
                tasks,
                taken,
                end,
            )
        };
    let before = old(hooks).calls();
    let made = run_calls(receiver, tasks, taken, end);
    let woken_at = before.len() + wake_calls(list).len();
    assert(calls =~= final(hooks).calls().skip(woken_at as int));
    assert(made =~= final(hooks).calls().skip(woken_at as int));
    lemma_run_calls_were_answered(
        receiver,
        tasks,
        taken,
        end,
        calls,
        old(hooks).spec_receive(),
        old(hooks).spec_poll(),
    );
}

/// A run that is resumed receives a token and polls
/// the task that is suspended under it, by turns, beginning with a token: every
/// poll is of the task whose token came just before.
pub proof fn law_resumed_run_polls_each_token_it_receives<
    F,
    S: Fn(&SyncSender<usize>, usize),
    R: Fn(&Receiver<usize>) -> Option<usize>,
    P: Fn(&Arc<Task<F>>) -> bool,
>(
    executor: &mut Executor<F>,
    turns: usize,
    hooks: &mut Hooks<F, S, R, P>,
    end: RunEnd,
    calls: Seq<Call<F>>,
)
    requires
        call_ensures(Executor::<F>::resume::<S, R, P>, (executor, turns, hooks), end),
        final(hooks).calls() == old(hooks).calls() + calls,
    ensures
        forall|i: int|
            0 <= i < calls.len() && i % 2 == 0 ==> (#[trigger] calls[i] matches Call::Receive(queue, _)
                && queue == old(executor).spec_receiver()),
        forall|i: int|
            0 <= i < calls.len() && i % 2 == 1 ==> (#[trigger] calls[i] matches Call::Poll(task, _) && (
            calls[i - 1] matches Call::Receive(_, Some(token)) && old(executor)@.contains_key(token)
                && task == old(executor)@[token])),
{
    let tasks = old(executor)@;
    let receiver = old(executor).spec_receiver();
    let taken = choose|taken: Seq<Turn>|
        {
            &&& #[trigger] is_run(tasks, taken)
            &&& ends(tasks, taken, turns, end)
            &&& answered(
                tasks,
                taken,
                end,
                receiver,
                old(hooks).spec_receive(),
                old(hooks).spec_poll(),
            )
            &&& final(executor)@ == tasks_over(tasks, taken)
            &&& final(hooks).calls() == old(hooks).calls() + run_calls(receiver, tasks, taken, end)
        };
    let before = old(hooks).calls();
    let made = run_calls(receiver, tasks, taken, end);
    assert(calls =~= final(hooks).calls().skip(before.len() as int));
    assert(made =~= final(hooks).calls().skip(before.len() as int));
    lemma_run_alternates(receiver, tasks, taken, end, calls);
}

/// A run that is resumed leaves exactly the tasks that
/// no poll found ready, unchanged, and does not poll a task again that a poll
/// found ready.
pub proof fn law_resumed_run_forgets_exactly_the_ready_tasks<
    F,
    S: Fn(&SyncSender<usize>, usize),
    R: Fn(&Receiver<usize>) -> Option<usize>,
    P: Fn(&Arc<Task<F>>) -> bool,
>(
    executor: &mut Executor<F>,
    turns: usize,
    hooks: &mut Hooks<F, S, R, P>,
    end: RunEnd,
    calls: Seq<Call<F>>,
)
    requires
        forall|token: usize| #[trigger]
            old(executor)@.contains_key(token) ==> old(executor)@[token].spec_token() == token,
        call_ensures(Executor::<F>::resume::<S, R, P>, (executor, turns, hooks), end),
        final(hooks).calls() == old(hooks).calls() + calls,
    ensures
        forall|i: int, j: int|
            0 <= i < j < calls.len() ==> (#[trigger] calls[i] matches Call::Poll(earlier, true) ==> (
            #[trigger] calls[j] matches Call::Poll(later, _) ==> later.spec_token()
                != earlier.spec_token())),
        forall|token: usize| #[trigger]
            final(executor)@.contains_key(token) <==> old(executor)@.contains_key(token) && forall|i: int|
                0 <= i < calls.len() ==> #[trigger] calls[i] != Call::Poll(old(executor)@[token], true),
        forall|token: usize| #[trigger]
            final(executor)@.contains_key(token) ==> final(executor)@[token] == old(executor)@[token],
{
    let tasks = old(executor)@;
    let receiver = old(executor).spec_receiver();
    let taken = choose|taken: Seq<Turn>|
        {
            &&& #[trigger] is_run(tasks, taken)
            &&& ends(tasks, taken, turns, end)
            &&& answered(
                tasks,
                taken,
                end,
                receiver,
                old(hooks).spec_receive(),
                old(hooks).spec_poll(),
            )
            &&& final(executor)@ == tasks_over(tasks, taken)
            &&& final(hooks).calls() == old(hooks).calls() + run_calls(receiver, tasks, taken, end)
        };
    let before = old(hooks).calls();
    let made = run_calls(receiver, tasks, taken, end);
    assert(calls =~= final(hooks).calls().skip(before.len() as int));
    assert(made =~= final(hooks).calls().skip(before.len() as int));
    lemma_run_forgets_ready_tasks(receiver, tasks, taken, end, calls, final(executor)@);
}

/// A run that is resumed ends as its calls tell. It
/// has completed exactly if the last poll found the last task ready; it is
/// disconnected if nothing came out of the queue; it gives up on a token only
/// where no task is left under it; and it pauses only after as many turns as it
/// was given. While there are tasks left it has not completed.
pub proof fn law_resumed_run_ends_for_a_reason<
    F,
    S: Fn(&SyncSender<usize>, usize),
    R: Fn(&Receiver<usize>) -> Option<usize>,
    P: Fn(&Arc<Task<F>>) -> bool,
>(
    executor: &mut Executor<F>,
    turns: usize,
    hooks: &mut Hooks<F, S, R, P>,
    end: RunEnd,
    calls: Seq<Call<F>>,
)
    requires
        call_ensures(Executor::<F>::resume::<S, R, P>, (executor, turns, hooks), end),
        final(hooks).calls() == old(hooks).calls() + calls,
    ensures
        calls.len() <= 2 * turns,
        match end {
            RunEnd::Completed => {
                &&& calls.len() > 0
                &&& calls.len() % 2 == 0
                &&& calls.last() matches Call::Poll(_, true)
                &&& forall|token: usize| !final(executor)@.contains_key(token)
            },
            RunEnd::Disconnected => {
                &&& calls.len() % 2 == 1
                &&& calls.last() == Call::<F>::Receive(old(executor).spec_receiver(), None)
            },
            RunEnd::InvalidToken(token) => {
                &&& calls.len() % 2 == 1
                &&& calls.last() == Call::<F>::Receive(old(executor).spec_receiver(), Some(token))
                &&& !final(executor)@.contains_key(token)
            },
            RunEnd::OutOfTurns => calls.len() == 2 * turns,
        },
        end !is Completed && calls.len() >= 2 ==> exists|token: usize| final(executor)@.contains_key(token),
{
    let tasks = old(executor)@;
    let receiver = old(executor).spec_receiver();
    let taken = choose|taken: Seq<Turn>|
        {
            &&& #[trigger] is_run(tasks, taken)
            &&& ends(tasks, taken, turns, end)
            &&& answered(
                tasks,
                taken,
                end,
                receiver,
                old(hooks).spec_receive(),
                old(hooks).spec_poll(),
            )
            &&& final(executor)@ == tasks_over(tasks, taken)
            &&& final(hooks).calls() == old(hooks).calls() + run_calls(receiver, tasks, taken, end)
        };
    let before = old(hooks).calls();
    let made = run_calls(receiver, tasks, taken, end);
    assert(calls =~= final(hooks).calls().skip(before.len() as int));
    assert(made =~= final(hooks).calls().skip(before.len() as int));
    lemma_run_end_is_told_by_its_calls(
        receiver,
        tasks,
        taken,
        turns,
        end,
        calls,
        final(executor)@,
    );
}

/// A run that is resumed goes by what its functions
/// answered: each token, and each ready or pending task, is what a call gave. It
/// sends nothing.
pub proof fn law_resumed_run_goes_by_the_answers_it_got<
    F,
    S: Fn(&SyncSender<usize>, usize),
    R: Fn(&Receiver<usize>) -> Option<usize>,
    P: Fn(&Arc<Task<F>>) -> bool,
>(
    executor: &mut Executor<F>,
    turns: usize,
    hooks: &mut Hooks<F, S, R, P>,
    end: RunEnd,
    calls: Seq<Call<F>>,
)
    requires
        call_ensures(Executor::<F>::resume::<S, R, P>, (executor, turns, hooks), end),
        final(hooks).calls() == old(hooks).calls() + calls,
    ensures
        forall|i: int|
            0 <= i < calls.len() ==> match #[trigger] calls[i] {
                Call::Receive(queue, received) => call_ensures(old(hooks).spec_receive(), (&queue,), received),
                Call::Poll(task, ready) => call_ensures(old(hooks).spec_poll(), (&task,), ready),
                Call::Send(..) => false,
            },
{
    let tasks = old(executor)@;
    let receiver = old(executor).spec_receiver();
    let taken = choose|taken: Seq<Turn>|
        {
            &&& #[trigger] is_run(tasks, taken)
            &&& ends(tasks, taken, turns, end)
            &&& answered(
                tasks,
                taken,
                end,
                receiver,
                old(hooks).spec_receive(),
                old(hooks).spec_poll(),
            )
            &&& final(executor)@ == tasks_over(tasks, taken)
            &&& final(hooks).calls() == old(hooks).calls() + run_calls(receiver, tasks, taken, end)
        };
    let before = old(hooks).calls();
    let made = run_calls(receiver, tasks, taken, end);
    assert(calls =~= final(hooks).calls().skip(before.len() as int));
    assert(made =~= final(hooks).calls().skip(before.len() as int));
    lemma_run_calls_were_answered(
        receiver,
        tasks,
        taken,
        end,
        calls,
        old(hooks).spec_receive(),
        old(hooks).spec_poll(),
    );
}

/// A run begins by waking every task once: it sends the token of each into the
/// ready queue of that task, and sends nothing else.
pub proof fn law_run_wakes_every_task_once<
    F,
    S: Fn(&SyncSender<usize>, usize),
    R: Fn(&Receiver<usize>) -> Option<usize>,
    P: Fn(&Arc<Task<F>>) -> bool,
>(
    executor: &mut Executor<F>,
    turns: usize,
    hooks: &mut Hooks<F, S, R, P>,
    end: RunEnd,
    woken: Seq<Call<F>>,
    calls: Seq<Call<F>>,
)
    requires
        forall|token: usize| #[trigger]
            old(executor)@.contains_key(token) ==> old(executor)@[token].spec_token() == token,
        call_ensures(Executor::<F>::run::<S, R, P>, (executor, turns, hooks), end),
        final(hooks).calls() == old(hooks).calls() + woken + calls,
        woken.len() == old(executor)@.dom().len(),
    ensures
        forall|i: int|
            0 <= i < woken.len() ==> (#[trigger] woken[i] matches Call::Send(queue, token)
                && old(executor)@.contains_key(token) && queue
                == old(executor)@[token].spec_ready_queue()),
        forall|token: usize| #[trigger]
            old(executor)@.contains_key(token) ==> exists|i: int|
                0 <= i < woken.len() && #[trigger] woken[i] == Call::<F>::Send(
                    old(executor)@[token].spec_ready_queue(),
                    token,
                ),
        forall|i: int, j: int|
            0 <= i < j < woken.len() ==> (#[trigger] woken[i] matches Call::Send(_, earlier) ==> (
            #[trigger] woken[j] matches Call::Send(_, later) ==> later != earlier)),
        forall|token: usize| #[trigger]
            old(executor)@.contains_key(token) ==> call_ensures(
                old(hooks).spec_send(),
                (&old(executor)@[token].spec_ready_queue(), token),
                (),
            ),
{
    let tasks = old(executor)@;
    let receiver = old(executor).spec_receiver();
    let (list, taken) = choose|list: Seq<Arc<Task<F>>>, taken: Seq<Turn>|
        {
            &&& #[trigger] lists(list, tasks)
            &&& #[trigger] is_run(tasks, taken)
            &&& ends(tasks, taken, turns, end)
            &&& answered(
                tasks,
                taken,
                end,
                receiver,
                old(hooks).spec_receive(),
                old(hooks).spec_poll(),
            )
            &&& final(executor)@ == tasks_over(tasks, taken)
            &&& final(hooks).calls() == old(hooks).calls() + wake_calls(list) + run_calls(
                receiver,
                tasks,
                taken,
                end,
            )
        };
    let before = old(hooks).calls();
    let sends = wake_calls(list);
    let n = before.len() as int;
    assert(woken =~= final(hooks).calls().subrange(n, n + list.len()));
    assert(sends =~= final(hooks).calls().subrange(n, n + list.len()));
    assert forall|token: usize| #[trigger] tasks.contains_key(token) implies exists|i: int|
        0 <= i < woken.len() && #[trigger] woken[i] == Call::<F>::Send(
            tasks[token].spec_ready_queue(),
            token,
        ) by {
        let i = list.index_of(tasks[token]);
        assert(list[i] == tasks[token]);
        assert(woken[i] == Call::<F>::Send(tasks[token].spec_ready_queue(), token));
    }
    assert forall|i: int| 0 <= i < woken.len() implies (#[trigger] woken[i] matches Call::Send(
        queue,
        token,
    ) && tasks.contains_key(token) && queue == tasks[token].spec_ready_queue()) by {
        assert(tasks.contains_key(list[i].spec_token()));
    }
    assert forall|i: int, j: int| 0 <= i < j < woken.len() implies (#[trigger] woken[i] matches Call::Send(
        _,
        earlier,
    ) ==> (#[trigger] woken[j] matches Call::Send(_, later) ==> later != earlier)) by {
        assert(list[i].spec_token() != list[j].spec_token());
    }
}

/// A run, and one that is resumed, add to the record and take nothing away; the
/// functions and the queue stay what they were. A run makes at least one call for
/// each task.
pub proof fn law_running_keeps_the_record<
    F,
    S: Fn(&SyncSender<usize>, usize),
    R: Fn(&Receiver<usize>) -> Option<usize>,
    P: Fn(&Arc<Task<F>>) -> bool,
>(
    executor: &mut Executor<F>,
    turns: usize,
    hooks: &mut Hooks<F, S, R, P>,
    end: RunEnd,
)
    requires
        call_ensures(Executor::<F>::run::<S, R, P>, (executor, turns, hooks), end) || call_ensures(
            Executor::<F>::resume::<S, R, P>,
            (executor, turns, hooks),
            end,
        ),
    ensures
        final(hooks).calls().len() >= old(hooks).calls().len(),
        final(hooks).calls().take(old(hooks).calls().len() as int) == old(hooks).calls(),
        call_ensures(Executor::<F>::run::<S, R, P>, (executor, turns, hooks), end)
            ==> final(hooks).calls().len() >= old(hooks).calls().len() + old(
            executor,
        )@.dom().len(),
        final(hooks).spec_send() == old(hooks).spec_send(),
        final(hooks).spec_receive() == old(hooks).spec_receive(),
        final(hooks).spec_poll() == old(hooks).spec_poll(),
        final(executor).spec_receiver() == old(executor).spec_receiver(),
{
    assert(final(hooks).calls().take(old(hooks).calls().len() as int) =~= old(hooks).calls());
}

/// A run, and one that is resumed, ask for no more than that each task is kept
/// under its own token and that the functions can be called.
pub proof fn law_running_asks_for_its_keys_and_functions_only<
    F,
    S: Fn(&SyncSender<usize>, usize),
    R: Fn(&Receiver<usize>) -> Option<usize>,
    P: Fn(&Arc<Task<F>>) -> bool,
>(executor: &mut Executor<F>, turns: usize, hooks: &mut Hooks<F, S, R, P>)
    requires
        forall|token: usize| #[trigger]
            old(executor)@.contains_key(token) ==> old(executor)@[token].spec_token() == token,
        forall|queue: &SyncSender<usize>, token: usize|
            call_requires(old(hooks).spec_send(), (queue, token)),
        forall|receiver: &Receiver<usize>|
            call_requires(old(hooks).spec_receive(), (receiver,)),
        forall|task: &Arc<Task<F>>| call_requires(old(hooks).spec_poll(), (task,)),
    ensures
        call_requires(Executor::<F>::run::<S, R, P>, (executor, turns, hooks)),
        call_requires(Executor::<F>::resume::<S, R, P>, (executor, turns, hooks)),
{
}

} // verus!
