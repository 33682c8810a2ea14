use iocp_selector::afd::{
    AfdPollInfo, IoStatusBlock, ERROR_INVALID_HANDLE, ERROR_IO_PENDING, POLL_ABORT,
    POLL_CONNECT_FAIL, POLL_RECEIVE, POLL_SEND, STATUS_CANCELLED, WAIT_TIMEOUT,
};
use iocp_selector::completion_handler::{as_key, from_key};
use iocp_selector::sock_selector::{from_overlapped, into_overlapped};
use iocp_selector::{
    CompletionHandler, CompletionStatus, Error, Event, Events, Interest, KernelCall, SelectStep,
    Selector, SelectorInner, SockPollStatus, SockRequest, SockSelector, Token, Waker,
};
use std::time::Duration;

/// The kernel as the tests see it: the poll requests that it holds, by the
/// word that each was submitted with.
struct Kernel {
    held: Vec<(u64, AfdPollInfo)>,
    submitted: usize,
    cancelled: Vec<u64>,
    refuse_with: Option<i32>,
}

fn kernel() -> Kernel {
    Kernel { held: Vec::new(), submitted: 0, cancelled: Vec::new(), refuse_with: None }
}

fn perform(kernel: &mut Kernel, call: &KernelCall) -> Result<(), i32> {
    match call.request {
        SockRequest::Poll { info, .. } => {
            if let Some(code) = kernel.refuse_with {
                return Err(code);
            }
            assert!(
                kernel.held.iter().all(|(word, _)| *word != call.overlapped),
                "a second poll request for the same socket"
            );
            kernel.held.push((call.overlapped, info));
            kernel.submitted += 1;
            Err(ERROR_IO_PENDING)
        }
        SockRequest::Cancel { .. } => {
            assert!(kernel.held.iter().any(|(word, _)| *word == call.overlapped));
            kernel.cancelled.push(call.overlapped);
            Ok(())
        }
    }
}

fn flush(socks: &mut SockSelector, kernel: &mut Kernel) -> Result<(), Error> {
    let mut answer = None;
    loop {
        match socks.update_sockets_events(answer)? {
            Some(call) => answer = Some(perform(kernel, &call)),
            None => return Ok(()),
        }
    }
}

fn flush_if_polling(socks: &mut SockSelector, kernel: &mut Kernel) -> Result<(), Error> {
    let mut answer = None;
    loop {
        match socks.update_sockets_events_if_polling(answer)? {
            Some(call) => answer = Some(perform(kernel, &call)),
            None => return Ok(()),
        }
    }
}

fn deregister(socks: &mut SockSelector, kernel: &mut Kernel, socket: u64) -> Result<(), Error> {
    let answer = match socks.deregister_request(socket) {
        Some(call) => perform(kernel, &call),
        None => Ok(()),
    };
    socks.deregister(socket, answer)
}

fn flush_inner(selector: &mut SelectorInner, kernel: &mut Kernel) -> Result<(), Error> {
    let mut answer = None;
    loop {
        match selector.update_sockets_events(answer)? {
            Some(call) => answer = Some(perform(kernel, &call)),
            None => return Ok(()),
        }
    }
}

/// The completion of the request that the kernel holds under `word`.
fn complete(kernel: &mut Kernel, word: u64, status: i32, events: u32) -> CompletionStatus {
    let at = kernel.held.iter().position(|(held, _)| *held == word).unwrap();
    let (_, mut info) = kernel.held.remove(at);
    kernel.cancelled.retain(|cancelled| *cancelled != word);
    info.handles.events = events;
    CompletionStatus {
        bytes_transferred: 0,
        token: as_key(CompletionHandler::Socket),
        overlapped: word,
        iosb: IoStatusBlock { status, information: 0 },
        poll_info: info,
    }
}

fn word_of(socks: &SockSelector, socket: u64) -> u64 {
    for sock in 0..1000usize {
        if let Some(entry) = socks.entry(sock) {
            if entry.attached && entry.state.raw_socket == socket {
                return into_overlapped(sock);
            }
        }
    }
    panic!("socket is not registered");
}

#[test]
fn overlapped_word_names_the_place() {
    assert_eq!(into_overlapped(0), 1);
    assert_eq!(into_overlapped(41), 42);
    assert_eq!(from_overlapped(42), Some(41));
    assert_eq!(from_overlapped(0), None);
}

#[test]
fn registering_twice_is_refused() {
    let mut socks = SockSelector::new();
    assert_eq!(socks.register(10, 10, Token(1), Interest::readable()), Ok(()));
    assert_eq!(
        socks.register(10, 10, Token(2), Interest::writable()),
        Err(Error::AlreadyExists)
    );
    assert_eq!(socks.queue_len(), 1);
    assert_eq!(socks.get_sock_state(10).unwrap().user_data, 1);
}

#[test]
fn reregistering_an_unknown_socket_is_not_found() {
    let mut socks = SockSelector::new();
    assert_eq!(socks.reregister(10, Token(1), Interest::readable()), Err(Error::NotFound));
    assert_eq!(socks.queue_len(), 0);
}

#[test]
fn deregistering_an_unknown_socket_is_not_found() {
    let mut socks = SockSelector::new();
    assert_eq!(socks.deregister(10, Ok(())), Err(Error::NotFound));
    socks.register(10, 10, Token(1), Interest::readable()).unwrap();
    assert_eq!(socks.deregister(10, Ok(())), Ok(()));
    assert_eq!(socks.deregister(10, Ok(())), Err(Error::NotFound));
    assert_eq!(socks.reregister(10, Token(1), Interest::readable()), Err(Error::NotFound));
    assert_eq!(socks.register(10, 10, Token(1), Interest::readable()), Ok(()));
}

#[test]
fn registration_takes_down_interest_and_token() {
    let mut socks = SockSelector::new();
    socks.register(10, 11, Token(5), Interest::readable().add(Interest::writable())).unwrap();
    let state = socks.get_sock_state(10).unwrap();
    assert_eq!(state.raw_socket, 10);
    assert_eq!(state.base_socket, 11);
    assert_eq!(state.user_data, 5);
    assert_eq!(state.user_evts, 0x08d | POLL_CONNECT_FAIL | POLL_ABORT);
    assert_eq!(state.poll_status, SockPollStatus::Idle);
    assert_eq!(state.afd, 0);
    assert_eq!(socks.afd_group().strong_count(0), 2);
    assert_eq!(socks.get_sock_state(11), None);
}

#[test]
fn registration_outside_a_wait_is_left_on_the_queue() {
    let mut socks = SockSelector::new();
    let mut kernel = kernel();
    socks.register(10, 10, Token(1), Interest::readable()).unwrap();
    flush_if_polling(&mut socks, &mut kernel).unwrap();
    assert_eq!(kernel.submitted, 0);
    assert_eq!(socks.queue_len(), 1);
    flush(&mut socks, &mut kernel).unwrap();
    assert_eq!(kernel.submitted, 1);
    assert_eq!(socks.queue_len(), 0);
    assert_eq!(socks.get_sock_state(10).unwrap().poll_status, SockPollStatus::Pending);
}

#[test]
fn registration_during_a_wait_is_submitted_at_once() {
    let mut socks = SockSelector::new();
    let mut kernel = kernel();
    socks.notify_poll_start();
    assert!(socks.is_polling());
    socks.register(10, 10, Token(1), Interest::readable()).unwrap();
    flush_if_polling(&mut socks, &mut kernel).unwrap();
    assert_eq!(kernel.submitted, 1);
    assert_eq!(socks.queue_len(), 0);
    socks.notify_poll_end();
    assert!(!socks.is_polling());
}

#[test]
fn queue_is_worked_off_in_order_of_arrival() {
    let mut socks = SockSelector::new();
    socks.register(10, 110, Token(1), Interest::readable()).unwrap();
    socks.register(20, 120, Token(2), Interest::writable()).unwrap();
    let first = socks.update_sockets_events(None).unwrap().unwrap();
    assert_eq!(first.sock, 0);
    assert_eq!(first.overlapped, 1);
    match first.request {
        SockRequest::Poll { afd, info } => {
            assert_eq!(afd, 0);
            assert_eq!(info.handles.handle, 110);
        }
        SockRequest::Cancel { .. } => panic!("a poll request was due"),
    }
    let second = socks.update_sockets_events(Some(Err(ERROR_IO_PENDING))).unwrap().unwrap();
    assert_eq!(second.sock, 1);
    match second.request {
        SockRequest::Poll { info, .. } => assert_eq!(info.handles.handle, 120),
        SockRequest::Cancel { .. } => panic!("a poll request was due"),
    }
    assert_eq!(socks.update_sockets_events(Some(Ok(()))), Ok(None));
    assert_eq!(socks.get_sock_state(10).unwrap().poll_status, SockPollStatus::Pending);
    assert_eq!(socks.get_sock_state(20).unwrap().poll_status, SockPollStatus::Pending);
}

#[test]
fn socket_that_is_queued_twice_is_polled_once() {
    let mut socks = SockSelector::new();
    let mut kernel = kernel();
    socks.register(10, 10, Token(1), Interest::readable()).unwrap();
    socks.reregister(10, Token(1), Interest::readable()).unwrap();
    assert_eq!(socks.queue_len(), 2);
    flush(&mut socks, &mut kernel).unwrap();
    assert_eq!(kernel.submitted, 1);
    assert_eq!(kernel.held.len(), 1);
}

#[test]
fn wider_interest_cancels_and_polls_again_after_the_completion() {
    let mut socks = SockSelector::new();
    let mut kernel = kernel();
    socks.register(10, 10, Token(1), Interest::readable()).unwrap();
    flush(&mut socks, &mut kernel).unwrap();
    socks.reregister(10, Token(1), Interest::readable().add(Interest::writable())).unwrap();
    flush(&mut socks, &mut kernel).unwrap();
    let word = word_of(&socks, 10);
    assert_eq!(kernel.cancelled, vec![word]);
    assert_eq!(kernel.submitted, 1);
    assert_eq!(socks.get_sock_state(10).unwrap().poll_status, SockPollStatus::Cancelled);

    let done = complete(&mut kernel, word, STATUS_CANCELLED, 0);
    assert_eq!(socks.handle_completion(&done), None);
    assert_eq!(socks.queue_len(), 1);
    flush(&mut socks, &mut kernel).unwrap();
    assert_eq!(kernel.submitted, 2);
    assert_eq!(kernel.held[0].1.handles.events, 0x08d | 0x130);
}

#[test]
fn at_most_one_poll_request_per_socket() {
    let mut socks = SockSelector::new();
    let mut kernel = kernel();
    let both = Interest::readable().add(Interest::writable());
    for round in 0..20u64 {
        for socket in 0..5u64 {
            match (round + socket) % 4 {
                0 => {
                    let _ = socks.register(socket, socket, Token(socket as usize), both);
                }
                1 => {
                    let _ = socks.reregister(socket, Token(socket as usize), Interest::writable());
                }
                2 => {
                    let _ = socks.reregister(socket, Token(socket as usize), both);
                }
                _ => {
                    let _ = deregister(&mut socks, &mut kernel, socket);
                }
            }
            if (round + socket) % 3 == 0 {
                flush(&mut socks, &mut kernel).unwrap();
            }
            if (round + socket) % 5 == 0 && !kernel.held.is_empty() {
                let word = kernel.held[0].0;
                let status = if kernel.cancelled.contains(&word) { STATUS_CANCELLED } else { 0 };
                let done = complete(&mut kernel, word, status, POLL_SEND);
                socks.handle_completion(&done);
            }
            let mut words: Vec<u64> = kernel.held.iter().map(|(word, _)| *word).collect();
            words.sort();
            words.dedup();
            assert_eq!(words.len(), kernel.held.len());
        }
    }
    assert!(kernel.submitted > 5);
}

#[test]
fn completion_gives_an_event_and_queues_the_socket_again() {
    let mut socks = SockSelector::new();
    let mut kernel = kernel();
    socks.register(10, 10, Token(7), Interest::readable()).unwrap();
    flush(&mut socks, &mut kernel).unwrap();
    let done = complete(&mut kernel, word_of(&socks, 10), 0, POLL_RECEIVE);
    assert_eq!(socks.handle_completion(&done), Some(Event { flags: POLL_RECEIVE, data: 7 }));
    assert_eq!(socks.queue_len(), 1);
    assert_eq!(socks.get_sock_state(10).unwrap().poll_status, SockPollStatus::Idle);
    assert_eq!(socks.get_sock_state(10).unwrap().user_evts, POLL_CONNECT_FAIL | POLL_ABORT);
}

#[test]
fn readiness_is_not_reported_twice_without_reregistration() {
    let mut socks = SockSelector::new();
    let mut kernel = kernel();
    socks.register(10, 10, Token(7), Interest::readable()).unwrap();
    flush(&mut socks, &mut kernel).unwrap();
    let word = word_of(&socks, 10);
    let first = complete(&mut kernel, word, 0, POLL_RECEIVE);
    assert!(socks.handle_completion(&first).is_some());
    flush(&mut socks, &mut kernel).unwrap();
    assert_eq!(kernel.held[0].1.handles.events, 0x130);
    let second = complete(&mut kernel, word, 0, POLL_RECEIVE);
    assert_eq!(socks.handle_completion(&second), None);

    socks.reregister(10, Token(7), Interest::readable()).unwrap();
    flush(&mut socks, &mut kernel).unwrap();
    let third = complete(&mut kernel, word, 0, POLL_RECEIVE);
    assert_eq!(socks.handle_completion(&third), Some(Event { flags: POLL_RECEIVE, data: 7 }));
}

#[test]
fn completion_that_ends_no_request_changes_nothing() {
    let mut socks = SockSelector::new();
    socks.register(10, 10, Token(7), Interest::readable()).unwrap();
    let stray = CompletionStatus {
        bytes_transferred: 0,
        token: as_key(CompletionHandler::Socket),
        overlapped: 1,
        iosb: IoStatusBlock { status: 0, information: 0 },
        poll_info: AfdPollInfo::zeroed(),
    };
    assert_eq!(socks.handle_completion(&stray), None);
    assert_eq!(socks.queue_len(), 1);
    let nowhere = CompletionStatus { overlapped: 99, ..stray };
    assert_eq!(socks.handle_completion(&nowhere), None);
    let null = CompletionStatus { overlapped: 0, ..stray };
    assert_eq!(socks.handle_completion(&null), None);
}

#[test]
fn closed_socket_is_dropped_without_an_error() {
    let mut socks = SockSelector::new();
    let mut kernel = kernel();
    kernel.refuse_with = Some(ERROR_INVALID_HANDLE);
    socks.register(10, 10, Token(7), Interest::readable()).unwrap();
    assert_eq!(flush(&mut socks, &mut kernel), Ok(()));
    assert!(socks.get_sock_state(10).unwrap().is_pending_deletion());
    socks.reregister(10, Token(7), Interest::readable()).unwrap();
    assert_eq!(flush(&mut socks, &mut kernel), Ok(()));
    assert_eq!(kernel.submitted, 0);
}

#[test]
fn fatal_submission_error_reaches_the_caller_and_keeps_the_rest_queued() {
    let mut socks = SockSelector::new();
    let mut kernel = kernel();
    kernel.refuse_with = Some(1450);
    socks.register(10, 10, Token(1), Interest::readable()).unwrap();
    socks.register(20, 20, Token(2), Interest::readable()).unwrap();
    assert_eq!(flush(&mut socks, &mut kernel), Err(Error::Os(1450)));
    assert_eq!(socks.queue_len(), 1);
    kernel.refuse_with = None;
    assert_eq!(flush(&mut socks, &mut kernel), Ok(()));
    assert_eq!(kernel.submitted, 1);
    assert_eq!(socks.get_sock_state(10).unwrap().poll_status, SockPollStatus::Idle);
    assert_eq!(socks.get_sock_state(20).unwrap().poll_status, SockPollStatus::Pending);
}

#[test]
fn deregistered_idle_socket_is_released_at_once() {
    let mut socks = SockSelector::new();
    let mut kernel = kernel();
    socks.register(10, 10, Token(1), Interest::readable()).unwrap();
    kernel.refuse_with = Some(ERROR_INVALID_HANDLE);
    flush(&mut socks, &mut kernel).unwrap();
    assert_eq!(socks.afd_group().strong_count(0), 2);
    assert_eq!(socks.deregister_request(10), None);
    socks.deregister(10, Ok(())).unwrap();
    assert_eq!(socks.entry(0), None);
    assert!(!socks.afd_group().is_member(0));
}

#[test]
fn deregistered_socket_leaves_the_queue_without_a_poll_request() {
    let mut socks = SockSelector::new();
    let mut kernel = kernel();
    socks.register(10, 10, Token(1), Interest::readable()).unwrap();
    socks.deregister(10, Ok(())).unwrap();
    let entry = socks.entry(0).unwrap();
    assert!(!entry.attached);
    assert!(entry.state.is_pending_deletion());
    assert_eq!(socks.queue_len(), 1);
    flush(&mut socks, &mut kernel).unwrap();
    assert_eq!(kernel.submitted, 0);
    assert_eq!(socks.entry(0), None);
    assert!(!socks.afd_group().is_member(0));
}

#[test]
fn deregistered_socket_hears_of_no_event() {
    let mut socks = SockSelector::new();
    let mut kernel = kernel();
    socks.register(10, 10, Token(1), Interest::readable()).unwrap();
    flush(&mut socks, &mut kernel).unwrap();
    let word = word_of(&socks, 10);
    socks.deregister(10, Err(1168)).unwrap();
    assert_eq!(socks.entry(0).unwrap().state.poll_status, SockPollStatus::Pending);
    let done = complete(&mut kernel, word, 0, POLL_RECEIVE);
    assert_eq!(socks.handle_completion(&done), None);
    assert_eq!(socks.entry(0), None);
    assert_eq!(socks.queue_len(), 0);
}

#[test]
fn deregistered_socket_is_released_when_the_kernel_lets_go() {
    let mut socks = SockSelector::new();
    let mut kernel = kernel();
    socks.register(10, 10, Token(1), Interest::readable()).unwrap();
    flush(&mut socks, &mut kernel).unwrap();
    let word = word_of(&socks, 10);
    let cancel = socks.deregister_request(10).unwrap();
    assert_eq!(cancel.overlapped, word);
    assert_eq!(cancel.sock, 0);
    assert_eq!(cancel.request, SockRequest::Cancel { afd: 0 });
    let answer = perform(&mut kernel, &cancel);
    socks.deregister(10, answer).unwrap();

    let entry = socks.entry(0).unwrap();
    assert!(!entry.attached);
    assert_eq!(entry.state.poll_status, SockPollStatus::Cancelled);
    assert_eq!(socks.afd_group().strong_count(0), 2);

    let done = complete(&mut kernel, word, STATUS_CANCELLED, 0);
    assert_eq!(socks.handle_completion(&done), None);
    assert_eq!(socks.entry(0), None);
    assert_eq!(socks.queue_len(), 0);
    assert!(!socks.afd_group().is_member(0));
    assert!(kernel.held.is_empty());
}

#[test]
fn teardown_releases_what_the_kernel_still_holds() {
    let mut selector = SelectorInner::new(1);
    let mut kernel = kernel();
    for socket in 0..3u64 {
        selector.register(socket, socket, Token(socket as usize), Interest::readable()).unwrap();
    }
    flush_inner(&mut selector, &mut kernel).unwrap();
    for socket in 0..3u64 {
        let cancel = selector.deregister_request(socket).unwrap();
        let answer = perform(&mut kernel, &cancel);
        selector.deregister(socket, answer).unwrap();
    }
    assert_eq!(selector.sock_selector().afd_group().strong_count(0), 4);
    for sock in 0..3usize {
        assert!(selector.sock_selector().entry(sock).is_some());
    }

    let mut came = Vec::new();
    while !kernel.held.is_empty() {
        let word = kernel.held[0].0;
        came.push(complete(&mut kernel, word, STATUS_CANCELLED, 0));
    }
    assert!(selector.drain(Ok(came)));
    for sock in 0..3usize {
        assert_eq!(selector.sock_selector().entry(sock), None);
    }
    assert_eq!(selector.sock_selector().afd_group().strong_count(0), 1);
    assert!(!selector.drain(Ok(Vec::new())));
}

#[test]
fn teardown_stops_when_the_wait_fails() {
    let mut selector = SelectorInner::new(1);
    assert!(!selector.drain(Err(WAIT_TIMEOUT)));
    assert!(!selector.drain(Err(6)));
}

#[test]
fn teardown_leaves_a_registered_socket_its_state() {
    let mut selector = SelectorInner::new(1);
    let mut kernel = kernel();
    selector.register(10, 10, Token(1), Interest::readable()).unwrap();
    flush_inner(&mut selector, &mut kernel).unwrap();
    let done = complete(&mut kernel, 1, 0, POLL_RECEIVE);
    assert!(selector.drain(Ok(vec![done])));
    let state = selector.get_sock_state(10).unwrap();
    assert_eq!(state.poll_status, SockPollStatus::Idle);
    assert_eq!(state.user_evts, 0x089 | POLL_CONNECT_FAIL | POLL_ABORT);
}

#[test]
fn thirty_third_socket_gets_a_second_poll_handle() {
    let mut socks = SockSelector::new();
    let mut kernel = kernel();
    for socket in 0..32u64 {
        assert_eq!(socks.needs_afd(), socket == 0);
        socks.register(socket, socket, Token(socket as usize), Interest::readable()).unwrap();
        assert_eq!(socks.get_sock_state(socket).unwrap().afd, 0);
    }
    assert!(socks.needs_afd());
    socks.register(32, 32, Token(32), Interest::readable()).unwrap();
    assert_eq!(socks.get_sock_state(32).unwrap().afd, 1);
    assert_eq!(socks.afd_group().len(), 2);
    assert_eq!(socks.afd_group().strong_count(0), 33);
    assert_eq!(socks.afd_group().strong_count(1), 2);

    kernel.refuse_with = Some(ERROR_INVALID_HANDLE);
    flush(&mut socks, &mut kernel).unwrap();
    for socket in 0..32u64 {
        socks.deregister(socket, Ok(())).unwrap();
    }
    flush(&mut socks, &mut kernel).unwrap();
    assert!(!socks.afd_group().is_member(0));
    assert!(socks.afd_group().is_member(1));
    assert_eq!(socks.afd_group().strong_count(1), 2);
}

#[test]
fn place_of_a_released_state_is_used_again() {
    let mut socks = SockSelector::new();
    let mut kernel = kernel();
    kernel.refuse_with = Some(ERROR_INVALID_HANDLE);
    socks.register(10, 10, Token(1), Interest::readable()).unwrap();
    socks.register(20, 20, Token(2), Interest::readable()).unwrap();
    flush(&mut socks, &mut kernel).unwrap();
    socks.deregister(10, Ok(())).unwrap();
    assert_eq!(socks.entry(0), None);
    socks.register(30, 30, Token(3), Interest::readable()).unwrap();
    assert_eq!(socks.entry(0).unwrap().state.raw_socket, 30);
    assert_eq!(socks.entry(1).unwrap().state.raw_socket, 20);
}

#[test]
fn wait_with_a_timeout_may_end_without_events() {
    let mut selector = Selector::new(1, 0);
    let mut events = Events::with_capacity(8);
    let timeout = Some(Duration::from_millis(0));
    assert_eq!(selector.select(&mut events, timeout, None), Ok(SelectStep::Poll));
    assert!(selector.sock_selector().is_polling());
    assert_eq!(
        selector.select(&mut events, timeout, Some(Err(WAIT_TIMEOUT))),
        Ok(SelectStep::Done)
    );
    assert!(events.is_empty());
    assert!(!selector.sock_selector().is_polling());

    assert_eq!(selector.select(&mut events, timeout, None), Ok(SelectStep::Poll));
    assert_eq!(
        selector.select(&mut events, timeout, Some(Ok(Vec::new()))),
        Ok(SelectStep::Done)
    );
    assert!(events.is_empty());
}

#[test]
fn wait_without_a_timeout_waits_again_until_an_event_comes() {
    let mut selector = Selector::new(1, 0);
    let mut kernel = kernel();
    let mut events = Events::with_capacity(8);
    selector.register(10, 10, Token(3), Interest::readable()).unwrap();

    assert_eq!(selector.select(&mut events, None, None), Ok(SelectStep::Poll));
    flush_inner(&mut selector.inner, &mut kernel).unwrap();
    assert_eq!(
        selector.select(&mut events, None, Some(Ok(Vec::new()))),
        Ok(SelectStep::Poll)
    );
    assert!(selector.sock_selector().is_polling());
    flush_inner(&mut selector.inner, &mut kernel).unwrap();
    assert_eq!(
        selector.select(&mut events, None, Some(Err(WAIT_TIMEOUT))),
        Ok(SelectStep::Poll)
    );
    flush_inner(&mut selector.inner, &mut kernel).unwrap();
    let done = complete(&mut kernel, 1, 0, POLL_RECEIVE);
    assert_eq!(
        selector.select(&mut events, None, Some(Ok(vec![done]))),
        Ok(SelectStep::Done)
    );
    assert_eq!(events.len(), 1);
    assert_eq!(events.get(0), Some(Event { flags: POLL_RECEIVE, data: 3 }));
    assert_eq!(events.get(1), None);
    assert!(!selector.sock_selector().is_polling());
}

#[test]
fn wait_without_a_timeout_passes_over_completions_without_events() {
    let mut selector = Selector::new(1, 0);
    let mut kernel = kernel();
    let mut events = Events::with_capacity(8);
    selector.register(10, 10, Token(3), Interest::readable()).unwrap();
    assert_eq!(selector.select(&mut events, None, None), Ok(SelectStep::Poll));
    flush_inner(&mut selector.inner, &mut kernel).unwrap();
    let silent = complete(&mut kernel, 1, 0, POLL_SEND);
    assert_eq!(
        selector.select(&mut events, None, Some(Ok(vec![silent]))),
        Ok(SelectStep::Poll)
    );
    assert!(events.is_empty());
    flush_inner(&mut selector.inner, &mut kernel).unwrap();
    assert_eq!(kernel.submitted, 2);
}

#[test]
fn wait_clears_the_events_of_the_wait_before() {
    let mut selector = Selector::new(1, 0);
    let mut events = Events::with_capacity(8);
    let waker = Waker::new(&selector, Token(9)).unwrap();
    let timeout = Some(Duration::from_millis(10));
    assert_eq!(selector.select(&mut events, timeout, None), Ok(SelectStep::Poll));
    assert_eq!(
        selector.select(&mut events, timeout, Some(Ok(vec![waker.wake()]))),
        Ok(SelectStep::Done)
    );
    assert_eq!(events.len(), 1);
    assert_eq!(selector.select(&mut events, timeout, None), Ok(SelectStep::Poll));
    assert!(events.is_empty());
}

#[test]
fn failed_wait_reaches_the_caller() {
    let mut selector = Selector::new(1, 0);
    let mut events = Events::with_capacity(8);
    assert_eq!(selector.select(&mut events, None, None), Ok(SelectStep::Poll));
    assert_eq!(selector.select(&mut events, None, Some(Err(6))), Err(Error::Os(6)));
    assert!(!selector.sock_selector().is_polling());
}

#[test]
fn wake_ends_a_wait_without_a_timeout_with_one_event() {
    let mut selector = Selector::new(1, 0);
    let mut events = Events::with_capacity(8);
    let waker = Waker::new(&selector, Token(0xbeef)).unwrap();
    let posted = waker.wake();
    assert_eq!(posted.bytes_transferred, 0);
    assert_eq!(posted.token, as_key(CompletionHandler::Waker));
    assert_eq!(posted.overlapped, 0xbeef);

    assert_eq!(selector.select(&mut events, None, None), Ok(SelectStep::Poll));
    assert_eq!(
        selector.select(&mut events, None, Some(Ok(vec![posted]))),
        Ok(SelectStep::Done)
    );
    assert_eq!(events.len(), 1);
    let event = events.get(0).unwrap();
    assert_eq!(event.flags, POLL_RECEIVE);
    assert_eq!(event.data, 0xbeef);
    assert_eq!(event.token(), Token(0xbeef));
}

#[test]
fn wake_event_is_receive_under_the_posted_word() {
    let completion = CompletionStatus {
        bytes_transferred: 0,
        token: as_key(CompletionHandler::Waker),
        overlapped: 17,
        iosb: IoStatusBlock::zeroed(),
        poll_info: AfdPollInfo::zeroed(),
    };
    assert_eq!(
        Waker::handle_completion(&completion),
        Some(Event { flags: POLL_RECEIVE, data: 17 })
    );
}

#[test]
fn select2_routes_each_completion_to_its_handler() {
    let mut selector = SelectorInner::new(1);
    let mut kernel = kernel();
    selector.register(10, 10, Token(3), Interest::writable()).unwrap();
    flush_inner(&mut selector, &mut kernel).unwrap();
    let poll = complete(&mut kernel, 1, 0, POLL_SEND);
    let wake = CompletionStatus {
        token: as_key(CompletionHandler::Waker),
        overlapped: 8,
        ..poll
    };
    let file = CompletionStatus {
        bytes_transferred: 12,
        token: as_key(CompletionHandler::File),
        overlapped: 0x1000,
        ..poll
    };
    let mut events = vec![Event { flags: 0, data: 0 }];
    assert_eq!(selector.select2(Ok(vec![wake, file, poll]), &mut events), Ok(3));
    assert_eq!(
        events,
        vec![
            Event { flags: 0, data: 0 },
            Event { flags: POLL_RECEIVE, data: 8 },
            Event { flags: POLL_SEND, data: 3 },
        ]
    );
}

#[test]
fn select2_takes_a_timeout_for_no_completion() {
    let mut selector = SelectorInner::new(1);
    let mut events = vec![Event { flags: 1, data: 1 }];
    assert_eq!(selector.select2(Err(WAIT_TIMEOUT), &mut events), Ok(0));
    assert_eq!(events.len(), 1);
    assert_eq!(selector.select2(Err(995), &mut events), Err(Error::Os(995)));
}

#[test]
fn keys_name_their_handlers() {
    assert_eq!(as_key(CompletionHandler::Socket), 1);
    assert_eq!(as_key(CompletionHandler::Waker), 2);
    assert_eq!(as_key(CompletionHandler::File), 3);
    assert_eq!(SelectorInner::as_key(CompletionHandler::File), 3);
    assert_eq!(from_key(1), Some(CompletionHandler::Socket));
    assert_eq!(from_key(2), Some(CompletionHandler::Waker));
    assert_eq!(from_key(3), Some(CompletionHandler::File));
    assert_eq!(from_key(0), None);
    assert_eq!(from_key(4), None);
}

#[test]
fn selectors_are_numbered_in_order() {
    let first = Selector::new(7, 0);
    let second = Selector::new(8, first.id());
    assert_eq!(first.id(), 1);
    assert_eq!(second.id(), 2);
    assert_eq!(first.clone_port(), 7);
    assert_eq!(second.inner.port(), 8);
}

#[test]
fn events_are_held_in_order() {
    let mut events = Events::with_capacity(2);
    assert!(events.is_empty());
    assert_eq!(events.len(), 0);
    assert_eq!(events.get(0), None);
    assert_eq!(events.capacity(), 2);
    events.push(Event { flags: 1, data: 2 });
    events.push(Event { flags: 3, data: 4 });
    assert_eq!(events.len(), 2);
    assert_eq!(events.get(1), Some(Event { flags: 3, data: 4 }));
    events.clear();
    assert!(events.is_empty());
    assert_eq!(events.capacity(), 2);
}

#[test]
fn keys_of_completions_can_be_checked_before_a_wait_is_resumed() {
    let wake = Waker::new(&Selector::new(1, 0), Token(1)).unwrap().wake();
    assert!(iocp_selector::selector::keys_are_known(&vec![wake, wake]));
    let stray = CompletionStatus { token: 0, ..wake };
    assert!(!iocp_selector::selector::keys_are_known(&vec![wake, stray]));
    assert!(iocp_selector::selector::keys_are_known(&Vec::new()));
}

#[test]
fn first_poll_handle_is_reclaimed_after_the_cycle() {
    let mut selector = SelectorInner::new(1);
    let mut kernel = kernel();
    for socket in 0..33u64 {
        selector.register(socket, socket, Token(socket as usize), Interest::readable()).unwrap();
    }
    assert_eq!(selector.sock_selector().afd_group().next_afd(), 1);
    selector.notify_poll_start();
    flush_inner(&mut selector, &mut kernel).unwrap();
    assert_eq!(kernel.held.len(), 33);
    for socket in 0..32u64 {
        let cancel = selector.deregister_request(socket).unwrap();
        let answer = perform(&mut kernel, &cancel);
        selector.deregister(socket, answer).unwrap();
    }
    assert_eq!(selector.sock_selector().afd_group().strong_count(0), 33);
    assert_eq!(selector.sock_selector().afd_group().strong_count(1), 2);

    let mut came = Vec::new();
    for word in kernel.cancelled.clone() {
        came.push(complete(&mut kernel, word, STATUS_CANCELLED, 0));
    }
    assert_eq!(came.len(), 32);
    let mut events = Vec::new();
    assert_eq!(selector.select2(Ok(came), &mut events), Ok(0));
    assert!(!selector.sock_selector().is_polling());
    assert!(!selector.sock_selector().afd_group().is_member(0));
    assert!(selector.sock_selector().afd_group().is_member(1));
    assert_eq!(selector.sock_selector().afd_group().strong_count(1), 2);
    assert_eq!(kernel.held.len(), 1);
    selector.notify_poll_end();
}

#[test]
fn selector_hands_registrations_on_to_its_sockets() {
    let mut selector = Selector::new(1, 0);
    let mut kernel = kernel();
    assert!(selector.inner.needs_afd());
    assert_eq!(selector.register(10, 11, Token(4), Interest::writable()), Ok(()));
    assert!(!selector.inner.needs_afd());
    assert_eq!(selector.register(10, 11, Token(4), Interest::writable()), Err(Error::AlreadyExists));
    assert_eq!(selector.reregister(12, Token(4), Interest::writable()), Err(Error::NotFound));
    assert_eq!(selector.reregister(10, Token(5), Interest::readable()), Ok(()));
    let state = selector.inner.get_sock_state(10).unwrap();
    assert_eq!(state.user_data, 5);
    assert_eq!(state.base_socket, 11);
    assert_eq!(state.user_evts, 0x089 | POLL_CONNECT_FAIL | POLL_ABORT);

    selector.inner.notify_poll_start();
    let mut answer = None;
    while let Some(call) = selector.inner.update_sockets_events_if_polling(answer).unwrap() {
        answer = Some(perform(&mut kernel, &call));
    }
    selector.inner.notify_poll_end();
    assert_eq!(kernel.submitted, 1);
    assert_eq!(selector.inner.update_sockets_events_if_polling(None), Ok(None));

    assert_eq!(selector.deregister(12, Ok(())), Err(Error::NotFound));
    let cancel = selector.inner.deregister_request(10).unwrap();
    assert_eq!(selector.deregister(10, perform(&mut kernel, &cancel)), Ok(()));
    assert_eq!(selector.inner.get_sock_state(10), None);
    assert_eq!(selector.id(), 1);
}

#[test]
fn select2_adds_to_the_events_that_are_there() {
    let mut selector = SelectorInner::new(1);
    let mut events = Events::with_capacity(4);
    events.push(Event { flags: 1, data: 1 });
    let wake = Waker::new(&Selector::new(1, 0), Token(6)).unwrap().wake();
    assert_eq!(selector.select2(Ok(vec![wake]), events.as_mut_vec()), Ok(2));
    assert_eq!(events.get(1), Some(Event { flags: POLL_RECEIVE, data: 6 }));
}
