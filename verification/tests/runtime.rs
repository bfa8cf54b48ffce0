use std::cell::{Cell, RefCell};
use std::sync::mpsc::{sync_channel, Receiver, SyncSender};
use std::sync::Arc;

use async_runtime::blockers::{IoBlocker, RegisterStep, WaitRequest};
use async_runtime::epoll::Event;
use async_runtime::error::{ErrorKind, IoError};
use async_runtime::hooks::{Hooks, ReactorHooks};
use async_runtime::runtime::{Executor, Reactor, RunAction, RunEnd, RunEvent, Task};

/// An executor with a task for each of `tokens`. The future of a task is the
/// name that it is given.
fn executor(tokens: &[usize]) -> (Executor<String>, SyncSender<usize>) {
    let (sender, receiver) = sync_channel(100);
    let mut executor = Executor::new(receiver);
    for &token in tokens {
        executor.suspend(Task::new(format!("task {}", token), sender.clone(), token));
    }
    (executor, sender)
}

fn polled(token: usize, ready: bool) -> RunEvent {
    RunEvent::Polled { token, ready }
}

/// The name of the task that the executor polls for `token`.
fn polls(executor: &mut Executor<String>, token: usize) -> Option<String> {
    match executor.step(RunEvent::Received(token)) {
        RunAction::Poll(task) => Some(task.future().clone()),
        RunAction::InvalidToken(invalid) => {
            assert_eq!(invalid, token);
            None
        }
        _ => panic!("neither polled nor refused"),
    }
}

#[test]
fn task_carries_future_and_token() {
    let (sender, receiver) = sync_channel(1);
    let task = Task::new("a future", sender, 7);
    assert_eq!(*task.future(), "a future");
    let (queue, token) = task.wake();
    assert_eq!(token, 7);
    queue.send(token).unwrap();
    assert_eq!(receiver.recv(), Ok(7));
}

fn send(queue: &SyncSender<usize>, token: usize) {
    queue.send(token).unwrap();
}

fn receive(receiver: &Receiver<usize>) -> Option<usize> {
    receiver.recv().ok()
}

#[test]
fn run_wakes_every_task_once() {
    let (mut executor, _sender) = executor(&[3, 1, 2]);
    let log = RefCell::new(Vec::new());
    let mut hooks = Hooks::new(
        |queue: &SyncSender<usize>, token: usize| {
            log.borrow_mut().push(("send", token));
            send(queue, token);
        },
        |receiver: &Receiver<usize>| {
            let token = receive(receiver);
            log.borrow_mut().push(("receive", token.unwrap()));
            token
        },
        |task: &Arc<Task<String>>| {
            log.borrow_mut().push(("poll", task.wake().1));
            true
        },
    );
    assert_eq!(executor.run(usize::MAX, &mut hooks), RunEnd::Completed);
    let log = log.borrow();
    assert_eq!(log.len(), 9);
    let mut woken: Vec<_> = log[..3].to_vec();
    woken.sort();
    assert_eq!(woken, vec![("send", 1), ("send", 2), ("send", 3)]);
    // Each token that was sent is then received and gives one poll, in order.
    for i in 0..3 {
        let (_, token) = log[i];
        assert_eq!(log[3 + 2 * i], ("receive", token));
        assert_eq!(log[4 + 2 * i], ("poll", token));
    }
}

#[test]
fn suspended_tasks_are_listed_once() {
    let (mut executor, _sender) = executor(&[3, 1, 2, 1]);
    let mut tokens: Vec<usize> = executor.tasks().iter().map(|task| task.wake().1).collect();
    tokens.sort();
    assert_eq!(tokens, vec![1, 2, 3]);
    executor.step(polled(2, true));
    assert_eq!(executor.tasks().len(), 2);
}

#[test]
fn tasks_run_to_completion() {
    // Each task needs as many polls as its token says, and wakes itself in between.
    let (mut executor, _sender) = executor(&[1, 2, 3]);
    let polls_made = RefCell::new(vec![0, 0, 0, 0]);
    let received = RefCell::new(vec![0, 0, 0, 0]);
    let mut hooks = Hooks::new(
        send,
        |receiver: &Receiver<usize>| {
            let token = receive(receiver);
            received.borrow_mut()[token.unwrap()] += 1;
            token
        },
        |task: &Arc<Task<String>>| {
            let (queue, token) = task.wake();
            polls_made.borrow_mut()[token] += 1;
            let ready = polls_made.borrow()[token] == token;
            if !ready {
                queue.send(token).unwrap();
            }
            ready
        },
    );
    assert_eq!(executor.run(usize::MAX, &mut hooks), RunEnd::Completed);
    assert_eq!(*polls_made.borrow(), vec![0, 1, 2, 3]);
    assert_eq!(*received.borrow(), vec![0, 1, 2, 3]);
    assert_eq!(polls(&mut executor, 1), None);
}

#[test]
fn tokens_are_handled_in_queue_order() {
    let (mut executor, sender) = executor(&[1, 2]);
    sender.send(2).unwrap();
    sender.send(1).unwrap();
    let log = RefCell::new(Vec::new());
    let mut hooks = Hooks::new(send, receive, |task: &Arc<Task<String>>| {
        log.borrow_mut().push(task.wake().1);
        true
    });
    assert_eq!(executor.run(usize::MAX, &mut hooks), RunEnd::Completed);
    assert_eq!(*log.borrow(), vec![2, 1]);
}

#[test]
fn run_stops_before_tokens_that_are_left() {
    let (mut executor, sender) = executor(&[1]);
    let mut hooks = Hooks::new(send, receive, |_: &Arc<Task<String>>| {
        sender.send(99).unwrap();
        true
    });
    assert_eq!(executor.run(usize::MAX, &mut hooks), RunEnd::Completed);
    // The token is still in the queue, and there is no task left for it.
    assert_eq!(executor.run(usize::MAX, &mut hooks), RunEnd::InvalidToken(99));
}

#[test]
fn second_token_of_a_ready_task_stays_unread() {
    let (mut executor, sender) = executor(&[1]);
    sender.send(1).unwrap();
    let mut hooks = Hooks::new(send, receive, |_: &Arc<Task<String>>| true);
    assert_eq!(executor.run(usize::MAX, &mut hooks), RunEnd::Completed);
    assert_eq!(executor.run(usize::MAX, &mut hooks), RunEnd::InvalidToken(1));
}

#[test]
fn run_gives_up_on_an_invalid_token() {
    let (mut executor, sender) = executor(&[1, 2]);
    sender.send(7).unwrap();
    let mut hooks = Hooks::new(send, receive, |_: &Arc<Task<String>>| panic!("polled"));
    assert_eq!(executor.run(usize::MAX, &mut hooks), RunEnd::InvalidToken(7));
    assert_eq!(polls(&mut executor, 1), Some("task 1".to_string()));
}

#[test]
fn run_gives_up_on_the_token_of_a_ready_task() {
    let (mut executor, sender) = executor(&[1, 2]);
    for token in [1, 1] {
        sender.send(token).unwrap();
    }
    let polls_made = Cell::new(0);
    let mut hooks = Hooks::new(send, receive, |task: &Arc<Task<String>>| {
        assert_eq!(task.wake().1, 1);
        polls_made.set(polls_made.get() + 1);
        true
    });
    assert_eq!(executor.run(usize::MAX, &mut hooks), RunEnd::InvalidToken(1));
    assert_eq!(polls_made.get(), 1);
    assert_eq!(executor.tasks().len(), 1);
    assert_eq!(polls(&mut executor, 2), Some("task 2".to_string()));
}

#[test]
fn run_stops_when_the_queue_is_disconnected() {
    let (sender, receiver) = sync_channel(1);
    let (other_sender, other_receiver) = sync_channel(1);
    drop(sender);
    let mut executor = Executor::new(receiver);
    executor.suspend(Task::new("task 1".to_string(), other_sender, 1));
    let mut hooks = Hooks::new(send, receive, |_: &Arc<Task<String>>| panic!("polled"));
    assert_eq!(executor.run(usize::MAX, &mut hooks), RunEnd::Disconnected);
    assert_eq!(polls(&mut executor, 1), Some("task 1".to_string()));
    assert_eq!(other_receiver.try_recv(), Ok(1));
    assert!(other_receiver.try_recv().is_err());
}

#[test]
fn executor_without_tasks_waits_for_a_token() {
    let (mut executor, sender) = executor(&[]);
    sender.send(0).unwrap();
    let mut hooks = Hooks::new(
        |_: &SyncSender<usize>, _: usize| panic!("woken"),
        receive,
        |_: &Arc<Task<String>>| panic!("polled"),
    );
    assert_eq!(executor.run(usize::MAX, &mut hooks), RunEnd::InvalidToken(0));
    drop(sender);
    assert_eq!(executor.run(usize::MAX, &mut hooks), RunEnd::Disconnected);
}

#[test]
fn run_pauses_and_resumes() {
    let (mut executor, _sender) = executor(&[1, 2, 3]);
    let mut hooks = Hooks::new(send, receive, |_: &Arc<Task<String>>| true);
    assert_eq!(executor.run(0, &mut hooks), RunEnd::OutOfTurns);
    assert_eq!(executor.tasks().len(), 3);
    assert_eq!(executor.resume(2, &mut hooks), RunEnd::OutOfTurns);
    assert_eq!(executor.resume(2, &mut hooks), RunEnd::Completed);
}

/// Runs two tasks that are ready at their second poll, for each of `limits` turns
/// in a row. Gives what was received and polled, and the ends.
fn run_in_parts(limits: &[usize]) -> (Vec<(&'static str, usize)>, Vec<RunEnd>) {
    let (mut executor, sender) = executor(&[1, 2]);
    for token in [2, 1, 1, 2] {
        sender.send(token).unwrap();
    }
    let log = RefCell::new(Vec::new());
    let mut hooks = Hooks::new(
        send,
        |receiver: &Receiver<usize>| {
            let token = receive(receiver);
            log.borrow_mut().push(("receive", token.unwrap()));
            token
        },
        |task: &Arc<Task<String>>| {
            let call = ("poll", task.wake().1);
            let ready = log.borrow().contains(&call);
            log.borrow_mut().push(call);
            ready
        },
    );
    let mut ends = vec![executor.run(limits[0], &mut hooks)];
    for &limit in &limits[1..] {
        ends.push(executor.resume(limit, &mut hooks));
    }
    drop(hooks);
    (log.into_inner(), ends)
}

#[test]
fn resumed_run_is_one_run() {
    let (whole, ends) = run_in_parts(&[4]);
    assert_eq!(ends, vec![RunEnd::Completed]);
    let mut expected = Vec::new();
    for token in [2, 1, 1, 2] {
        expected.push(("receive", token));
        expected.push(("poll", token));
    }
    assert_eq!(whole, expected);
    let (parts, ends) = run_in_parts(&[1, 0, 2, 9]);
    assert_eq!(
        ends,
        vec![RunEnd::OutOfTurns, RunEnd::OutOfTurns, RunEnd::OutOfTurns, RunEnd::Completed]
    );
    assert_eq!(parts, whole);
}

#[test]
fn received_token_polls_its_task() {
    let (mut executor, _sender) = executor(&[1, 2]);
    assert_eq!(polls(&mut executor, 2), Some("task 2".to_string()));
    assert_eq!(polls(&mut executor, 1), Some("task 1".to_string()));
}

#[test]
fn unknown_token_is_invalid() {
    let (mut executor, _sender) = executor(&[1, 2]);
    assert_eq!(polls(&mut executor, 3), None);
    assert_eq!(polls(&mut executor, 1), Some("task 1".to_string()));
}

#[test]
fn pending_task_stays() {
    let (mut executor, _sender) = executor(&[1]);
    assert!(matches!(executor.step(polled(1, false)), RunAction::Receive));
    assert_eq!(polls(&mut executor, 1), Some("task 1".to_string()));
}

#[test]
fn ready_task_is_forgotten() {
    let (mut executor, _sender) = executor(&[1, 2]);
    assert!(matches!(executor.step(polled(1, true)), RunAction::Receive));
    assert_eq!(polls(&mut executor, 1), None);
    assert_eq!(polls(&mut executor, 2), Some("task 2".to_string()));
    assert!(matches!(executor.step(polled(1, true)), RunAction::InvalidToken(1)));
}

#[test]
fn last_ready_task_stops_the_executor() {
    let (mut executor, _sender) = executor(&[1, 2, 3]);
    assert!(matches!(executor.step(polled(2, true)), RunAction::Receive));
    assert!(matches!(executor.step(polled(1, false)), RunAction::Receive));
    assert!(matches!(executor.step(polled(3, true)), RunAction::Receive));
    assert!(matches!(executor.step(polled(1, true)), RunAction::Finish));
}

#[test]
fn suspending_under_the_same_token_replaces_the_task() {
    let (mut executor, sender) = executor(&[1]);
    executor.suspend(Task::new("another".to_string(), sender, 1));
    assert_eq!(polls(&mut executor, 1), Some("another".to_string()));
    assert!(matches!(executor.step(polled(1, true)), RunAction::Finish));
}

#[test]
fn order_of_suspending_does_not_matter() {
    for tokens in [[1, 2], [2, 1]] {
        let (mut executor, _sender) = executor(&tokens);
        assert_eq!(polls(&mut executor, 1), Some("task 1".to_string()));
        assert_eq!(polls(&mut executor, 2), Some("task 2".to_string()));
    }
}

#[test]
fn reactor_hands_out_registrators_of_its_instance() {
    let reactor = Reactor::new(&IoBlocker::new(Ok(5)).unwrap());
    assert_eq!(reactor.registrator().register(8, 42).request().epfd, 5);
}

#[test]
fn reactor_sends_the_token_of_each_event() {
    let events = vec![Event::new(1, 7), Event::new(1, 3), Event::new(4, 7)];
    assert_eq!(Reactor::dispatch(Ok(3), &events), Ok(vec![7, 3, 7]));
    assert_eq!(Reactor::dispatch(Ok(0), &vec![]), Ok(vec![]));
}

#[test]
fn reactor_passes_on_a_poll_error() {
    let error = IoError { kind: ErrorKind::Other, raw_os_error: Some(libc::EINTR) };
    assert_eq!(Reactor::dispatch(Err(error), &vec![]), Err(error));
}

#[test]
fn reactor_sends_the_tokens_of_all_batches() {
    let batches = RefCell::new(vec![
        (Ok(2), vec![Event::new(1, 7), Event::new(1, 3), Event::new(1, 99)]),
        (Ok(0), vec![]),
        (Ok(1), vec![Event::new(1, 7)]),
    ]);
    let requests = RefCell::new(Vec::new());
    let tokens = RefCell::new(Vec::new());
    let mut hooks = ReactorHooks::new(
        |request: WaitRequest| {
            requests.borrow_mut().push(request);
            batches.borrow_mut().remove(0)
        },
        |token: usize| tokens.borrow_mut().push(token),
    );
    let blocker = IoBlocker::new(Ok(5)).unwrap();
    assert_eq!(Reactor::forward(&blocker, 2, &mut hooks), Ok(()));
    assert_eq!(*tokens.borrow(), vec![7, 3]);
    assert_eq!(Reactor::forward(&blocker, 1, &mut hooks), Ok(()));
    assert_eq!(*tokens.borrow(), vec![7, 3, 7]);
    assert_eq!(*requests.borrow(), vec![blocker.wait_request(); 3]);
}

#[test]
fn resumed_reactor_is_one_reactor() {
    let error = IoError { kind: ErrorKind::Other, raw_os_error: Some(libc::EINTR) };
    for (limits, ends) in [
        (vec![9], vec![Err(error)]),
        (vec![1, 0, 5], vec![Ok(()), Ok(()), Err(error)]),
    ] {
        let waits = Cell::new(0);
        let log = RefCell::new(Vec::new());
        let mut hooks = ReactorHooks::new(
            |_: WaitRequest| {
                waits.set(waits.get() + 1);
                log.borrow_mut().push("wait".to_string());
                match waits.get() {
                    3 => (Err(error), vec![]),
                    n => (Ok(2), vec![Event::new(1, 10 * n), Event::new(1, 10 * n + 1)]),
                }
            },
            |token: usize| log.borrow_mut().push(token.to_string()),
        );
        let blocker = IoBlocker::new(Ok(5)).unwrap();
        for (limit, end) in limits.into_iter().zip(ends) {
            assert_eq!(Reactor::forward(&blocker, limit, &mut hooks), end);
        }
        assert_eq!(*log.borrow(), vec!["wait", "10", "11", "wait", "20", "21", "wait"]);
    }
}

#[test]
fn reactor_stops_at_the_first_wait_that_fails() {
    let error = IoError { kind: ErrorKind::Other, raw_os_error: Some(libc::EINTR) };
    let waits = Cell::new(0);
    let tokens = RefCell::new(Vec::new());
    let mut hooks = ReactorHooks::new(
        |_: WaitRequest| {
            waits.set(waits.get() + 1);
            match waits.get() {
                1 => (Ok(1), vec![Event::new(1, 4)]),
                _ => (Err(error), vec![Event::new(1, 5)]),
            }
        },
        |token: usize| tokens.borrow_mut().push(token),
    );
    let blocker = IoBlocker::new(Ok(5)).unwrap();
    assert_eq!(Reactor::forward(&blocker, 9, &mut hooks), Err(error));
    assert_eq!(waits.get(), 2);
    assert_eq!(*tokens.borrow(), vec![4]);
}

#[test]
fn registered_event_leads_back_to_its_task() {
    let (mut executor, _sender) = executor(&[4, 9]);
    let registration = Reactor::new(&IoBlocker::new(Ok(5)).unwrap()).registrator().register(8, 9);
    let exists = IoError { kind: ErrorKind::AlreadyExists, raw_os_error: Some(libc::EEXIST) };
    let rearmed = match registration.resume(Err(exists)) {
        RegisterStep::Again(again) => again,
        RegisterStep::Done(_) => panic!("the interest was not re-armed"),
    };
    let events = vec![registration.request().event, rearmed.request().event];
    for token in Reactor::dispatch(Ok(2), &events).unwrap() {
        assert_eq!(polls(&mut executor, token), Some("task 9".to_string()));
    }
}
