//! What holds of the runtime as a whole.
//!
//! The laws here speak of runs, rounds and registrations as such. Those in the
//! modules below speak of the functions that callers use: [`registering`] of what
//! epoll is asked for, [`streaming`] of the operations of a stream, [`executing`]
//! of the executor, [`reacting`] of the reactor, and [`counting`] of the sample
//! client.
use std::sync::mpsc::Receiver;
use std::sync::Arc;
use vstd::prelude::*;

use crate::blockers::{
    add_request, register_step, CtlRequest, RegisterStep, Registration, WaitRequest,
};
use crate::epoll::Event;
use crate::error::{ErrorKind, IoError};
use crate::hooks::{Call, ReactorCall};
use crate::platform::is_in_progress_number;
use crate::runtime::{
    asks, asks_after, batch, calls_of, ends, goes_on, is_run, keyed_by_token, lists, reactor_ends,
    round_calls, run_calls, send_calls, tasks_after, tasks_over, tokens_of, wake_calls, Round,
    RunAction, RunEnd, RunEvent, Task, Turn,
};
use crate::services::{poll_step, still_connecting, would_block, Endpoint, PollStep};

pub mod counting;
pub mod executing;
pub mod reacting;
pub mod registering;
pub mod streaming;

verus! {

/// The number of turns that found a task ready.
pub open spec fn completions(turns: Seq<Turn>) -> nat
    decreases turns.len(),
{
    if turns.len() == 0 {
        0
    } else {
        completions(turns.drop_last()) + if turns.last().ready {
            1nat
        } else {
            0nat
        }
    }
}

/// `turns[i]` found the task with `token` ready.
pub open spec fn completes(turns: Seq<Turn>, i: int, token: usize) -> bool {
    0 <= i < turns.len() && turns[i].token == token && turns[i].ready
}

/// A task is suspended after `turns` exactly if it was to begin with and no
/// turn found it ready, and it is the same task still.
pub proof fn law_tasks_stay_until_ready<F>(
    tasks: Map<usize, Arc<Task<F>>>,
    turns: Seq<Turn>,
    token: usize,
)
    ensures
        tasks_over(tasks, turns).contains_key(token) <==> tasks.contains_key(token) && forall|i: int|
            !completes(turns, i, token),
        tasks_over(tasks, turns).contains_key(token) ==> tasks_over(tasks, turns)[token]
            == tasks[token],
    decreases turns.len(),
{
    if turns.len() > 0 {
        let before = turns.drop_last();
        law_tasks_stay_until_ready(tasks, before, token);
        assert forall|i: int| completes(before, i, token) implies completes(turns, i, token) by {}
        assert forall|i: int| completes(turns, i, token) && i != turns.len() - 1 implies completes(
            before,
            i,
            token,
        ) by {}
        if tasks_over(tasks, before).contains_key(token) && !completes(turns, turns.len() - 1, token) {
            assert forall|i: int| !completes(turns, i, token) by {
                if completes(turns, i, token) {
                    assert(completes(before, i, token));
                }
            }
        }
    }
}

/// A run takes only tasks away, one for each turn that found a task ready.
pub proof fn law_tasks_are_accounted_for<F>(tasks: Map<usize, Arc<Task<F>>>, turns: Seq<Turn>)
    requires
        tasks.dom().finite(),
        is_run(tasks, turns),
    ensures
        tasks_over(tasks, turns).dom().finite(),
        tasks_over(tasks, turns).submap_of(tasks),
        tasks_over(tasks, turns).len() + completions(turns) == tasks.len(),
    decreases turns.len(),
{
    if turns.len() > 0 {
        law_tasks_are_accounted_for(tasks, turns.drop_last());
    }
}

/// A run has at most one turn that found the task with a token ready, and no
/// turn for that token after it. (Of the polls that a run makes, see
/// [`law_no_poll_after_ready`].)
pub proof fn law_ready_task_has_no_later_turn<F>(
    tasks: Map<usize, Arc<Task<F>>>,
    turns: Seq<Turn>,
    i: int,
    j: int,
)
    requires
        is_run(tasks, turns),
        0 <= i < j < turns.len(),
        turns[i].ready,
    ensures
        turns[j].token != turns[i].token,
    decreases turns.len(),
{
    let before = turns.drop_last();
    if j < before.len() {
        law_ready_task_has_no_later_turn(tasks, before, i, j);
    } else {
        law_tasks_stay_until_ready(tasks, before, turns[i].token);
        assert(completes(before, i, turns[i].token));
    }
}

/// A token that is received after its task was found ready makes the executor
/// give up.
pub proof fn law_token_of_ready_task_is_invalid<F>(
    tasks: Map<usize, Arc<Task<F>>>,
    turns: Seq<Turn>,
    i: int,
)
    requires
        is_run(tasks, turns),
        0 <= i < turns.len(),
        turns[i].ready,
    ensures
        asks(
            tasks_over(tasks, turns),
            RunEvent::Received(turns[i].token),
            RunAction::InvalidToken(turns[i].token),
        ),
{
    law_tasks_stay_until_ready(tasks, turns, turns[i].token);
    assert(completes(turns, i, turns[i].token));
}

/// After a turn of a run the executor either stops or asks for another token,
/// and it stops exactly if there has been a turn that found the task ready for
/// every task that it began with. (The turns are the calls that
/// [`crate::runtime::Executor::run`] makes; see [`law_one_poll_per_token`].)
pub proof fn law_runs_to_completion<F>(tasks: Map<usize, Arc<Task<F>>>, turns: Seq<Turn>)
    requires
        is_run(tasks, turns),
        turns.len() > 0,
    ensures
        asks_after(tasks, turns, RunAction::Finish) || asks_after(tasks, turns, RunAction::Receive),
        asks_after(tasks, turns, RunAction::Finish) <==> forall|token: usize| #[trigger]
            tasks.contains_key(token) ==> exists|i: int| completes(turns, i, token),
{
    let before = turns.drop_last();
    let last = turns.last();
    assert(turns[turns.len() - 1] == last);
    let left = tasks_over(tasks, turns);
    assert forall|token: usize| #[trigger] left.contains_key(token) <==> tasks.contains_key(token)
        && forall|i: int| !completes(turns, i, token) by {
        law_tasks_stay_until_ready(tasks, turns, token);
    }
    if asks_after(tasks, turns, RunAction::Finish) {
        assert forall|token: usize| #[trigger] tasks.contains_key(token) implies exists|i: int|
            completes(turns, i, token) by {
            assert(!left.contains_key(token));
        }
    }
    if forall|token: usize| #[trigger]
        tasks.contains_key(token) ==> exists|i: int| completes(turns, i, token) {
        assert(left.dom() =~= Set::<usize>::empty()) by {
            assert forall|token: usize| !left.contains_key(token) by {}
        }
        assert(last.ready) by {
            law_tasks_stay_until_ready(tasks, before, last.token);
            if !last.ready {
                let i = choose|i: int| completes(turns, i, last.token);
                assert(completes(before, i, last.token));
            }
        }
    }
}

/// The calls that turns are made of alternate: token by token, in the order of
/// the turns, one is received and the task with it is polled once.
pub proof fn law_one_poll_per_token<F>(
    receiver: Receiver<usize>,
    tasks: Map<usize, Arc<Task<F>>>,
    turns: Seq<Turn>,
)
    ensures
        calls_of(receiver, tasks, turns).len() == 2 * turns.len(),
        forall|i: int|
            #![trigger turns[i]]
            0 <= i < turns.len() ==> {
                &&& calls_of(receiver, tasks, turns)[2 * i] == Call::<F>::Receive(
                    receiver,
                    Some(turns[i].token),
                )
                &&& calls_of(receiver, tasks, turns)[2 * i + 1] == Call::Poll(
                    tasks[turns[i].token],
                    turns[i].ready,
                )
            },
    decreases turns.len(),
{
    if turns.len() > 0 {
        let before = turns.drop_last();
        law_one_poll_per_token(receiver, tasks, before);
        assert forall|i: int|
            #![trigger turns[i]]
            0 <= i < turns.len() implies calls_of(receiver, tasks, turns)[2 * i] == Call::<
            F,
        >::Receive(receiver, Some(turns[i].token)) && calls_of(receiver, tasks, turns)[2 * i + 1]
            == Call::Poll(tasks[turns[i].token], turns[i].ready) by {
            if i < before.len() {
                assert(before[i] == turns[i]);
            }
        }
    }
}

/// A run that pauses and is resumed is one run: the turns of both, one after the
/// other, are a run of the tasks that the first began with, leave the same tasks
/// and are made of the same calls.
pub proof fn law_resumed_run_is_one_run<F>(
    receiver: Receiver<usize>,
    tasks: Map<usize, Arc<Task<F>>>,
    a: Seq<Turn>,
    b: Seq<Turn>,
)
    requires
        is_run(tasks, a),
        goes_on(tasks, a),
        is_run(tasks_over(tasks, a), b),
    ensures
        is_run(tasks, a + b),
        tasks_over(tasks, a + b) == tasks_over(tasks_over(tasks, a), b),
        calls_of(receiver, tasks, a + b) == calls_of(receiver, tasks, a) + calls_of(
            receiver,
            tasks_over(tasks, a),
            b,
        ),
    decreases b.len(),
{
    let left = tasks_over(tasks, a);
    lemma_tasks_over_both(tasks, a, b);
    if b.len() == 0 {
        assert(a + b =~= a);
    } else {
        let before = b.drop_last();
        law_resumed_run_is_one_run(receiver, tasks, a, before);
        assert((a + b).drop_last() =~= a + before);
        assert((a + b).last() == b.last());
        lemma_joined_run_goes_on(tasks, a, before);
        law_tasks_stay_until_ready(left, before, b.last().token);
        law_tasks_stay_until_ready(tasks, a, b.last().token);
    }
}

/// Turns one after the other leave what the second leave of what the first left.
proof fn lemma_tasks_over_both<F>(tasks: Map<usize, Arc<Task<F>>>, a: Seq<Turn>, b: Seq<Turn>)
    ensures
        tasks_over(tasks, a + b) == tasks_over(tasks_over(tasks, a), b),
    decreases b.len(),
{
    if b.len() == 0 {
        assert(a + b =~= a);
    } else {
        lemma_tasks_over_both(tasks, a, b.drop_last());
        assert((a + b).drop_last() =~= a + b.drop_last());
        assert((a + b).last() == b.last());
    }
}

/// A run that has not stopped when its resumption is over has not stopped
/// either.
proof fn lemma_joined_run_goes_on<F>(
    tasks: Map<usize, Arc<Task<F>>>,
    a: Seq<Turn>,
    b: Seq<Turn>,
)
    requires
        goes_on(tasks, a),
        goes_on(tasks_over(tasks, a), b),
    ensures
        goes_on(tasks, a + b),
{
    if b.len() == 0 {
        assert(a + b =~= a);
    } else {
        lemma_tasks_over_both(tasks, a, b.drop_last());
        assert((a + b).drop_last() =~= a + b.drop_last());
        assert((a + b).last() == b.last());
    }
}

/// A run that paused after `first` turns, and came to `end` when it was resumed
/// for up to `second` more, comes to the same end as a run of up to as many turns
/// as both together, and makes the same calls.
pub proof fn law_resumed_run_ends_as_one_run<F>(
    receiver: Receiver<usize>,
    tasks: Map<usize, Arc<Task<F>>>,
    a: Seq<Turn>,
    first: usize,
    b: Seq<Turn>,
    second: usize,
    end: RunEnd,
)
    requires
        is_run(tasks, a),
        ends(tasks, a, first, RunEnd::OutOfTurns),
        is_run(tasks_over(tasks, a), b),
        ends(tasks_over(tasks, a), b, second, end),
        first + second <= usize::MAX,
    ensures
        is_run(tasks, a + b),
        ends(tasks, a + b, (first + second) as usize, end),
        run_calls(receiver, tasks, a + b, end) == run_calls(
            receiver,
            tasks,
            a,
            RunEnd::OutOfTurns,
        ) + run_calls(receiver, tasks_over(tasks, a), b, end),
{
    let left = tasks_over(tasks, a);
    law_resumed_run_is_one_run(receiver, tasks, a, b);
    if b.len() > 0 {
        lemma_tasks_over_both(tasks, a, b.drop_last());
        assert((a + b).drop_last() =~= a + b.drop_last());
        assert((a + b).last() == b.last());
    }
    if goes_on(left, b) {
        lemma_joined_run_goes_on(tasks, a, b);
    }
    assert(run_calls(receiver, tasks, a + b, end) =~= run_calls(
        receiver,
        tasks,
        a,
        RunEnd::OutOfTurns,
    ) + run_calls(receiver, left, b, end));
}

/// How often `token` was received in `calls`.
pub open spec fn receipts<F>(calls: Seq<Call<F>>, token: usize) -> nat
    decreases calls.len(),
{
    if calls.len() == 0 {
        0
    } else {
        receipts(calls.drop_last(), token) + if calls.last() matches Call::Receive(_, received)
            && received == Some(token) {
            1nat
        } else {
            0nat
        }
    }
}

/// How often the task with `token` was polled in `calls`.
pub open spec fn polls<F>(calls: Seq<Call<F>>, token: usize) -> nat
    decreases calls.len(),
{
    if calls.len() == 0 {
        0
    } else {
        polls(calls.drop_last(), token) + if calls.last() matches Call::Poll(task, _)
            && task.spec_token() == token {
            1nat
        } else {
            0nat
        }
    }
}

/// How often a poll in `calls` found the task with `token` ready.
pub open spec fn ready_polls<F>(calls: Seq<Call<F>>, token: usize) -> nat
    decreases calls.len(),
{
    if calls.len() == 0 {
        0
    } else {
        ready_polls(calls.drop_last(), token) + if calls.last() matches Call::Poll(task, ready)
            && task.spec_token() == token && ready {
            1nat
        } else {
            0nat
        }
    }
}

/// In the calls of a run, the task with a token is polled as often as the token
/// is received; a poll finds it ready exactly once if the run has taken it away,
/// and never otherwise.
pub proof fn law_polls_are_accounted_for<F>(
    receiver: Receiver<usize>,
    tasks: Map<usize, Arc<Task<F>>>,
    turns: Seq<Turn>,
    token: usize,
)
    requires
        keyed_by_token(tasks),
        is_run(tasks, turns),
    ensures
        polls(calls_of(receiver, tasks, turns), token) == receipts(
            calls_of(receiver, tasks, turns),
            token,
        ),
        ready_polls(calls_of(receiver, tasks, turns), token) == if tasks.contains_key(token)
            && !tasks_over(tasks, turns).contains_key(token) {
            1nat
        } else {
            0nat
        },
    decreases turns.len(),
{
    if turns.len() > 0 {
        let before = turns.drop_last();
        let turn = turns.last();
        law_polls_are_accounted_for(receiver, tasks, before, token);
        law_tasks_stay_until_ready(tasks, before, turn.token);
        law_tasks_stay_until_ready(tasks, before, token);
        let calls = calls_of(receiver, tasks, before);
        let received = calls.push(Call::Receive(receiver, Some(turn.token)));
        let polled = received.push(Call::Poll(tasks[turn.token], turn.ready));
        assert(received.drop_last() =~= calls);
        assert(polled.drop_last() =~= received);
        assert(calls_of(receiver, tasks, turns) == polled);
        assert(polls(received, token) == polls(calls, token));
        assert(ready_polls(received, token) == ready_polls(calls, token));
        assert(receipts(polled, token) == receipts(received, token));
        assert(tasks[turn.token].spec_token() == turn.token);
    }
}

/// In the calls of a run that completed, exactly one poll of each task found it
/// ready.
pub proof fn law_completed_run_found_each_task_ready_once<F>(
    receiver: Receiver<usize>,
    tasks: Map<usize, Arc<Task<F>>>,
    turns: Seq<Turn>,
    limit: usize,
    token: usize,
)
    requires
        keyed_by_token(tasks),
        is_run(tasks, turns),
        ends(tasks, turns, limit, RunEnd::Completed),
        tasks.contains_key(token),
    ensures
        ready_polls(run_calls(receiver, tasks, turns, RunEnd::Completed), token) == 1,
{
    law_polls_are_accounted_for(receiver, tasks, turns, token);
    assert(run_calls(receiver, tasks, turns, RunEnd::Completed) =~= calls_of(
        receiver,
        tasks,
        turns,
    ));
}

/// In the calls of a run, a task that a poll found ready is not polled again.
pub proof fn law_no_poll_after_ready<F>(
    receiver: Receiver<usize>,
    tasks: Map<usize, Arc<Task<F>>>,
    turns: Seq<Turn>,
    i: int,
    j: int,
)
    requires
        keyed_by_token(tasks),
        is_run(tasks, turns),
        0 <= i < j < calls_of(receiver, tasks, turns).len(),
        calls_of(receiver, tasks, turns)[i] matches Call::Poll(_, ready) && ready,
        calls_of(receiver, tasks, turns)[j] is Poll,
    ensures
        calls_of(receiver, tasks, turns)[j]->Poll_0.spec_token() != calls_of(
            receiver,
            tasks,
            turns,
        )[i]->Poll_0.spec_token(),
{
    law_one_poll_per_token(receiver, tasks, turns);
    let a = i / 2;
    let b = j / 2;
    let calls = calls_of(receiver, tasks, turns);
    assert(calls[2 * a] == Call::<F>::Receive(receiver, Some(turns[a].token)));
    assert(calls[2 * b] == Call::<F>::Receive(receiver, Some(turns[b].token)));
    assert(i == 2 * a + 1 && j == 2 * b + 1);
    lemma_polled_task_was_suspended(tasks, turns, a);
    lemma_polled_task_was_suspended(tasks, turns, b);
    law_ready_task_has_no_later_turn(tasks, turns, a, b);
}

/// The token of every turn of a run belongs to a task that was there to begin
/// with.
pub(crate) proof fn lemma_polled_task_was_suspended<F>(
    tasks: Map<usize, Arc<Task<F>>>,
    turns: Seq<Turn>,
    i: int,
)
    requires
        is_run(tasks, turns),
        0 <= i < turns.len(),
    ensures
        tasks.contains_key(turns[i].token),
    decreases turns.len(),
{
    let before = turns.drop_last();
    if i < before.len() {
        lemma_polled_task_was_suspended(tasks, before, i);
    } else {
        law_tasks_stay_until_ready(tasks, before, turns[i].token);
    }
}

/// Waking a list of all tasks sends the token of every task once, into the ready
/// queue of the task, and sends nothing else.
pub proof fn law_every_task_is_woken_once<F>(
    list: Seq<Arc<Task<F>>>,
    tasks: Map<usize, Arc<Task<F>>>,
    token: usize,
)
    requires
        keyed_by_token(tasks),
        lists(list, tasks),
    ensures
        forall|i: int|
            0 <= i < wake_calls(list).len() ==> (#[trigger] wake_calls(list)[i] matches Call::Send(
                queue,
                sent,
            ) && tasks.contains_key(sent) && queue == tasks[sent].spec_ready_queue()),
        tasks.contains_key(token) ==> exists|i: int|
            0 <= i < wake_calls(list).len() && #[trigger] wake_calls(list)[i] == Call::<F>::Send(
                tasks[token].spec_ready_queue(),
                token,
            ),
        forall|i: int, j: int|
            0 <= i < j < wake_calls(list).len() ==> (#[trigger] wake_calls(list)[i])->Send_1 != (
            #[trigger] wake_calls(list)[j])->Send_1,
{
    if tasks.contains_key(token) {
        let i = list.index_of(tasks[token]);
        assert(list[i] == tasks[token]);
        assert(wake_calls(list)[i] == Call::<F>::Send(tasks[token].spec_ready_queue(), token));
    }
    assert forall|i: int, j: int| 0 <= i < j < wake_calls(list).len() implies (#[trigger] wake_calls(
        list,
    )[i])->Send_1 != (#[trigger] wake_calls(list)[j])->Send_1 by {
        assert(list[i].spec_token() != list[j].spec_token());
    }
}

/// After the tasks were woken, a run sends nothing: its calls receive and poll.
pub proof fn law_run_sends_nothing_more<F>(
    receiver: Receiver<usize>,
    tasks: Map<usize, Arc<Task<F>>>,
    turns: Seq<Turn>,
    end: RunEnd,
    i: int,
)
    requires
        0 <= i < run_calls(receiver, tasks, turns, end).len(),
    ensures
        run_calls(receiver, tasks, turns, end)[i] !is Send,
{
    law_one_poll_per_token(receiver, tasks, turns);
    if i < 2 * turns.len() {
        let a = i / 2;
        let calls = calls_of(receiver, tasks, turns);
        assert(calls[2 * a] == Call::<F>::Receive(receiver, Some(turns[a].token)));
        assert(i == 2 * a || i == 2 * a + 1);
    }
}

/// The events of all `rounds` of a reactor, in order.
pub open spec fn reported(rounds: Seq<Round>) -> Seq<Event>
    decreases rounds.len(),
{
    if rounds.len() == 0 {
        Seq::empty()
    } else {
        reported(rounds.drop_last()) + batch(rounds.last())
    }
}

/// The tokens that were sent in `calls`, in order.
pub open spec fn sent(calls: Seq<ReactorCall>) -> Seq<usize>
    decreases calls.len(),
{
    if calls.len() == 0 {
        Seq::empty()
    } else {
        match calls.last() {
            ReactorCall::Send(token) => sent(calls.drop_last()).push(token),
            _ => sent(calls.drop_last()),
        }
    }
}

/// Sending `tokens` after `calls` adds them to what was sent.
proof fn lemma_sent_after(calls: Seq<ReactorCall>, tokens: Seq<usize>)
    ensures
        sent(calls + send_calls(tokens)) == sent(calls) + tokens,
    decreases tokens.len(),
{
    if tokens.len() == 0 {
        assert(calls + send_calls(tokens) =~= calls);
    } else {
        let before = tokens.drop_last();
        lemma_sent_after(calls, before);
        assert((calls + send_calls(tokens)).drop_last() =~= calls + send_calls(before));
        assert((calls + send_calls(tokens)).last() == ReactorCall::Send(tokens.last()));
        assert(sent(calls) + tokens =~= (sent(calls) + before).push(tokens.last()));
    }
}

/// The tokens of two batches are those of the one and then those of the other.
pub proof fn law_batches_keep_their_order(a: Seq<Event>, b: Seq<Event>)
    ensures
        tokens_of(a + b) == tokens_of(a) + tokens_of(b),
{
    assert(tokens_of(a + b) =~= tokens_of(a) + tokens_of(b));
}

/// Over any number of rounds, the calls of a reactor send exactly the tokens of
/// the events that the waits gave: one message for each event, batch by batch
/// and in order within a batch.
pub proof fn law_reactor_sends_the_tokens_of_all_batches(epfd: i32, rounds: Seq<Round>)
    ensures
        sent(round_calls(epfd, rounds)) == tokens_of(reported(rounds)),
    decreases rounds.len(),
{
    if rounds.len() == 0 {
        assert(tokens_of(reported(rounds)) =~= Seq::<usize>::empty());
    } else {
        let before = rounds.drop_last();
        law_reactor_sends_the_tokens_of_all_batches(epfd, before);
        law_batches_keep_their_order(reported(before), batch(rounds.last()));
        let calls = round_calls(epfd, before);
        let waited = calls.push(
            ReactorCall::Wait {
                request: WaitRequest { epfd, max_events: 1024, timeout: -1i32 },
                waited: rounds.last().waited,
                buffer: rounds.last().buffer,
            },
        );
        assert(waited.drop_last() =~= calls);
        lemma_sent_after(waited, tokens_of(batch(rounds.last())));
    }
}

/// A reactor that goes on after its rounds makes the calls that one reactor makes
/// that goes through all rounds, and comes to the same end.
pub proof fn law_resumed_reactor_is_one_reactor(
    epfd: i32,
    a: Seq<Round>,
    first: usize,
    b: Seq<Round>,
    second: usize,
    end: Result<(), IoError>,
)
    requires
        reactor_ends(a, first, Ok(())),
        reactor_ends(b, second, end),
        first + second <= usize::MAX,
    ensures
        reactor_ends(a + b, (first + second) as usize, end),
        round_calls(epfd, a + b) == round_calls(epfd, a) + round_calls(epfd, b),
{
    lemma_rounds_join(epfd, a, b);
}

/// The calls of rounds one after the other are those of the ones and then those
/// of the others.
proof fn lemma_rounds_join(epfd: i32, a: Seq<Round>, b: Seq<Round>)
    ensures
        round_calls(epfd, a + b) == round_calls(epfd, a) + round_calls(epfd, b),
    decreases b.len(),
{
    if b.len() == 0 {
        assert(a + b =~= a);
        assert(round_calls(epfd, a) + round_calls(epfd, b) =~= round_calls(epfd, a));
    } else {
        lemma_rounds_join(epfd, a, b.drop_last());
        assert((a + b).drop_last() =~= a + b.drop_last());
        assert((a + b).last() == b.last());
        assert(round_calls(epfd, a + b) =~= round_calls(epfd, a) + round_calls(epfd, b));
    }
}

/// A registration ends after one call of `epoll_ctl`, or after two where the
/// interest was in the list already: then the second call re-arms it with the
/// same event, and decides.
pub proof fn law_register_makes_at_most_two_calls(
    request: CtlRequest,
    added: Result<(), IoError>,
    rearmed: Result<(), IoError>,
)
    ensures
        added matches Err(e) && e.kind == ErrorKind::AlreadyExists ==> {
            let second = Registration::Rearming(CtlRequest { op: 3, ..request });
            &&& register_step(Registration::Adding(request), added) == RegisterStep::Again(second)
            &&& register_step(second, rearmed) == RegisterStep::Done(rearmed)
        },
        !(added matches Err(e) && e.kind == ErrorKind::AlreadyExists) ==> register_step(
            Registration::Adding(request),
            added,
        ) == RegisterStep::Done(added),
{
}

/// An operation that has to wait leads back to its task. Whether the interest is
/// added or has to be re-armed, an event for it carries the token of the
/// endpoint; that token is what the reactor sends for the event, and makes the
/// executor poll the task that is suspended under it.
pub proof fn law_blocked_operation_resumes_its_task<F, T>(
    tasks: Map<usize, Arc<Task<F>>>,
    endpoint: Endpoint,
    outcome: Result<T, IoError>,
    added: Result<(), IoError>,
    events: Seq<Event>,
    i: int,
)
    requires
        keyed_by_token(tasks),
        tasks.contains_key(endpoint.token),
        0 <= i < events.len(),
        poll_step(endpoint, outcome, true) matches PollStep::Register(registration) && {
            ||| events[i] == registration.spec_request().event
            ||| register_step(registration, added) matches RegisterStep::Again(next) && events[i]
                == next.spec_request().event
        },
    ensures
        tokens_of(events)[i] == endpoint.token,
        tasks[endpoint.token].spec_token() == endpoint.token,
        asks(
            tasks,
            RunEvent::Received(tokens_of(events)[i]),
            RunAction::Poll(tasks[endpoint.token]),
        ),
{
}

/// The poll of an operation is ready with the outcome of the attempt, unless
/// the operation would have blocked; then the socket is registered with the
/// token of the endpoint. There is no third way.
pub proof fn law_poll_is_ready_or_registers<T>(endpoint: Endpoint, outcome: Result<T, IoError>)
    ensures
        poll_step(endpoint, outcome, would_block(outcome)) == PollStep::Ready(outcome) <==> !(
        outcome matches Err(e) && e.kind == ErrorKind::WouldBlock),
        poll_step(endpoint, outcome, would_block(outcome)) matches PollStep::Register(registration)
            ==> registration == Registration::Adding(
            add_request(endpoint.epfd, endpoint.fd, endpoint.token),
        ),
{
}

/// A connection that is made or that failed for good is final on every machine,
/// and one that would have blocked waits on every machine.
pub proof fn law_connect_depends_on_machine_only_for_its_number(
    endpoint: Endpoint,
    outcome: Result<(), IoError>,
    in_progress: i32,
)
    requires
        is_in_progress_number(in_progress),
    ensures
        outcome is Ok ==> poll_step(endpoint, outcome, still_connecting(outcome, in_progress))
            == PollStep::Ready(outcome),
        outcome matches Err(e) && e.kind == ErrorKind::WouldBlock ==> poll_step(
            endpoint,
            outcome,
            still_connecting(outcome, in_progress),
        ) is Register,
        outcome matches Err(e) && e.kind != ErrorKind::WouldBlock && !(e.raw_os_error matches Some(
            number,
        ) && is_in_progress_number(number)) ==> poll_step(
            endpoint,
            outcome,
            still_connecting(outcome, in_progress),
        ) == PollStep::Ready(outcome),
{
}

/// Suspending a task and finding it ready leaves the other tasks as they were.
pub proof fn law_suspend_then_ready<F>(tasks: Map<usize, Arc<Task<F>>>, task: Arc<Task<F>>)
    ensures
        ({
            let token = task.spec_token();
            let suspended = tasks.insert(token, task);
            let event = RunEvent::Polled { token, ready: true };
            &&& asks(suspended, RunEvent::Received(token), RunAction::Poll(task))
            &&& tasks_after(suspended, event) == tasks.remove(token)
            &&& !tasks.contains_key(token) ==> tasks_after(suspended, event) == tasks
        }),
{
    let token = task.spec_token();
    assert(tasks.insert(token, task).remove(token) =~= tasks.remove(token));
    if !tasks.contains_key(token) {
        assert(tasks.remove(token) =~= tasks);
    }
}

/// The order in which tasks with different tokens are suspended does not
/// matter.
pub proof fn law_suspend_order_does_not_matter<F>(
    tasks: Map<usize, Arc<Task<F>>>,
    a: Arc<Task<F>>,
    b: Arc<Task<F>>,
)
    requires
        a.spec_token() != b.spec_token(),
    ensures
        tasks.insert(a.spec_token(), a).insert(b.spec_token(), b) == tasks.insert(
            b.spec_token(),
            b,
        ).insert(a.spec_token(), a),
{
    assert(tasks.insert(a.spec_token(), a).insert(b.spec_token(), b) =~= tasks.insert(
        b.spec_token(),
        b,
    ).insert(a.spec_token(), a));
}

} // verus!
