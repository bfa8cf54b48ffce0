use async_runtime::blockers::{
    CtlRequest, IoBlocker, RegisterStep, Registration, Registrator, WaitRequest,
};
use async_runtime::epoll;
use async_runtime::epoll::Event;
use async_runtime::error::{ErrorKind, IoError};

fn os_error(kind: ErrorKind, number: i32) -> IoError {
    IoError { kind, raw_os_error: Some(number) }
}

fn blocker(fd: i32) -> IoBlocker {
    IoBlocker::new(Ok(fd)).unwrap()
}

fn registrator(fd: i32) -> Registrator {
    blocker(fd).registrator()
}

#[test]
fn event_keeps_mask_and_token() {
    let event = Event::new(0x4000_0001, 17);
    assert_eq!(event.events, 0x4000_0001);
    assert_eq!(event.token(), 17);
}

#[test]
fn event_mask_of_negative_number_has_its_bits() {
    assert_eq!(Event::new(-1, 0).events, 0xffff_ffff);
    assert_eq!(Event::new(i32::MIN, 0).events, 0x8000_0000);
    assert_eq!(Event::new(0, usize::MAX).token(), usize::MAX);
}

#[test]
fn negative_return_value_is_the_last_os_error() {
    let error = os_error(ErrorKind::Other, 24);
    assert_eq!(epoll::create(-1, error), Err(error));
    assert_eq!(epoll::close(-1, error), Err(error));
    assert_eq!(epoll::ctl(-1, error), Err(error));
    assert_eq!(epoll::wait(i32::MIN, error), Err(error));
}

#[test]
fn other_return_value_is_success() {
    let error = os_error(ErrorKind::Other, 24);
    assert_eq!(epoll::create(7, error), Ok(7));
    assert_eq!(epoll::create(0, error), Ok(0));
    assert_eq!(epoll::close(0, error), Ok(()));
    assert_eq!(epoll::ctl(0, error), Ok(()));
    assert_eq!(epoll::wait(0, error), Ok(0));
    assert_eq!(epoll::wait(12, error), Ok(12));
}

#[test]
fn blocker_is_made_of_a_created_instance() {
    assert_eq!(blocker(5).close_request(), 5);
    let error = os_error(ErrorKind::Other, 24);
    assert_eq!(IoBlocker::new(Err(error)).unwrap_err(), error);
}

#[test]
fn wait_takes_many_events_and_has_no_timeout() {
    assert_eq!(
        blocker(5).wait_request(),
        WaitRequest { epfd: 5, max_events: 1024, timeout: -1 }
    );
}

#[test]
fn block_takes_the_events_that_were_waited_for() {
    let buffer = vec![Event::new(1, 10), Event::new(1, 11), Event::new(1, 12)];
    let mut events = vec![Event::new(1, 99)];
    assert_eq!(blocker(5).block(&mut events, &buffer, Ok(2)), Ok(2));
    assert_eq!(events, vec![Event::new(1, 10), Event::new(1, 11)]);
    assert_eq!(blocker(5).block(&mut events, &buffer, Ok(0)), Ok(0));
    assert_eq!(events, vec![]);
}

#[test]
fn block_forgets_old_events_when_the_wait_fails() {
    let error = os_error(ErrorKind::Other, 4);
    let mut events = vec![Event::new(1, 99)];
    assert_eq!(blocker(5).block(&mut events, &vec![], Err(error)), Err(error));
    assert_eq!(events, vec![]);
}

#[test]
fn register_adds_a_one_shot_read_interest() {
    let request = registrator(5).register(8, 42).request();
    assert_eq!(request.epfd, 5);
    assert_eq!(request.op, libc::EPOLL_CTL_ADD);
    assert_eq!(request.fd, 8);
    assert_eq!(request.event.events, (libc::EPOLLIN | libc::EPOLLONESHOT) as u32);
    assert_eq!(request.event.events, 0x4000_0001);
    assert_eq!(request.event.token(), 42);
}

#[test]
fn register_is_over_when_the_interest_was_added() {
    let registration = registrator(5).register(8, 42);
    assert_eq!(registration.resume(Ok(())), RegisterStep::Done(Ok(())));
}

#[test]
fn register_rearms_an_interest_that_exists() {
    let exists = os_error(ErrorKind::AlreadyExists, libc::EEXIST);
    let registration = registrator(5).register(8, 42);
    let added = registration.request();
    let again = match registration.resume(Err(exists)) {
        RegisterStep::Again(again) => again,
        RegisterStep::Done(_) => panic!("the interest was not re-armed"),
    };
    assert_eq!(again, Registration::Rearming(CtlRequest { op: libc::EPOLL_CTL_MOD, ..added }));
    assert_eq!(again.request().op, 3);
    assert_eq!(again.resume(Ok(())), RegisterStep::Done(Ok(())));
    // A second refusal is final.
    assert_eq!(again.resume(Err(exists)), RegisterStep::Done(Err(exists)));
}

#[test]
fn register_passes_on_other_errors() {
    let error = os_error(ErrorKind::Other, 9);
    let registration = registrator(5).register(8, 42);
    assert_eq!(registration.resume(Err(error)), RegisterStep::Done(Err(error)));
    let blocked = os_error(ErrorKind::WouldBlock, 11);
    assert_eq!(registration.resume(Err(blocked)), RegisterStep::Done(Err(blocked)));
}

#[test]
fn unregister_removes_the_interest() {
    let request = registrator(5).unregister(8, 42);
    assert_eq!(request.epfd, 5);
    assert_eq!(request.op, libc::EPOLL_CTL_DEL);
    assert_eq!(request.op, 2);
    assert_eq!(request.fd, 8);
    assert_eq!(request.event.events, (libc::EPOLLIN | libc::EPOLLET) as u32);
    assert_eq!(request.event.events, 0x8000_0001);
    assert_eq!(request.event.token(), 42);
}
