//! The poll state of one socket.
//!
//! A socket has at most one poll request with the kernel. The state here
//! says what the caller wants to hear about, what the request that is under
//! way covers, and how far that request has come. Its functions decide which
//! kernel call is due and take the answer of the kernel as an argument.

use vstd::prelude::*;
use crate::afd::{
    AfdPollHandleInfo, AfdPollInfo, IoStatusBlock, nt_success, spec_nt_success, ALWAYS_FLAGS,
    ERROR_INVALID_HANDLE, ERROR_IO_PENDING, KNOWN_EVENTS, POLL_CONNECT_FAIL, POLL_LOCAL_CLOSE,
    POLL_TIMEOUT_INFINITE, READABLE_FLAGS, STATUS_CANCELLED, WRITABLE_FLAGS,
};
use crate::error::Error;
use crate::event::Event;
use crate::interest::Interest;

verus! {

/// The poll flags that stand for a set of interests.
pub open spec fn spec_interests_to_afd_flags(interests: Interest) -> u32 {
    (if interests.is_readable() { READABLE_FLAGS } else { 0u32 })
        | (if interests.is_writable() { WRITABLE_FLAGS } else { 0u32 })
}

/// The poll flags that stand for a set of interests: receive, accept and
/// disconnect for readable, send for writable.
#[verifier::when_used_as_spec(spec_interests_to_afd_flags)]
pub fn interests_to_afd_flags(interests: Interest) -> (flags: u32)
    ensures
        flags == spec_interests_to_afd_flags(interests),
{
    let mut flags: u32 = 0;
    if interests.is_readable() {
        flags |= READABLE_FLAGS;
    }
    if interests.is_writable() {
        flags |= WRITABLE_FLAGS;
    }
    assert(forall|x: u32| #![auto] 0u32 | x == x && x | 0u32 == x) by (bit_vector);
    flags
}

/// How far the poll request of a socket has come.
#[derive(Clone, Copy, Debug, PartialEq, Eq, Structural)]
pub enum SockPollStatus {
    /// No request is with the kernel.
    Idle,
    /// A request is with the kernel.
    Pending,
    /// A request is with the kernel and has been cancelled; its completion
    /// has not arrived yet.
    Cancelled,
}

/// The kernel call that a socket asks of the driver.
#[derive(Clone, Copy, Debug, PartialEq, Eq, Structural)]
pub enum SockRequest {
    /// Submit this poll request on the poll handle `afd`.
    Poll { afd: usize, info: AfdPollInfo },
    /// Cancel the request of this socket that is pending on the poll handle
    /// `afd`.
    Cancel { afd: usize },
}

/// The poll state of one socket.
#[derive(Clone, Copy, Debug, PartialEq, Eq, Structural)]
pub struct SockState {
    /// The status block of the last request, as the kernel left it.
    pub iosb: IoStatusBlock,
    /// The descriptor of the last request, as the kernel left it.
    pub poll_info: AfdPollInfo,
    /// The member of the pool of poll handles that serves this socket.
    pub afd: usize,
    /// The socket as the caller knows it.
    pub raw_socket: u64,
    /// The socket that the kernel polls, which a layered socket wraps.
    pub base_socket: u64,
    /// The flags that the caller wants to hear about.
    pub user_evts: u32,
    /// The flags that the request under way covers.
    pub pending_evts: u32,
    /// The value that events of this socket carry.
    pub user_data: u64,
    /// How far the request has come.
    pub poll_status: SockPollStatus,
    /// Whether the state waits to be released.
    pub delete_pending: bool,
}

impl SockState {
    /// Whether the kernel holds a request of this socket, cancelled or not.
    pub open spec fn in_flight(self) -> bool {
        self.poll_status != SockPollStatus::Idle
    }

    /// Whether the request under way covers all that the caller wants to
    /// hear about.
    pub open spec fn covered(self) -> bool {
        self.user_evts & KNOWN_EVENTS & !self.pending_evts == 0
    }

    /// The descriptor of the request that this state submits when it is
    /// idle: one handle, the base socket; the wanted flags and local close;
    /// no timeout.
    pub open spec fn poll_descriptor(self) -> AfdPollInfo {
        AfdPollInfo {
            timeout: POLL_TIMEOUT_INFINITE,
            number_of_handles: 1,
            exclusive: 0,
            handles: AfdPollHandleInfo {
                handle: self.base_socket,
                events: self.user_evts | POLL_LOCAL_CLOSE,
                status: 0,
            },
        }
    }

    /// The state of a socket that has just been registered: idle, with no
    /// interest yet.
    pub open spec fn spec_new(raw_socket: u64, base_socket: u64, afd: usize) -> SockState {
        SockState {
            iosb: IoStatusBlock { status: 0, information: 0 },
            poll_info: AfdPollInfo {
                timeout: 0,
                number_of_handles: 0,
                exclusive: 0,
                handles: AfdPollHandleInfo { handle: 0, events: 0, status: 0 },
            },
            afd,
            raw_socket,
            base_socket,
            user_evts: 0,
            pending_evts: 0,
            user_data: 0,
            poll_status: SockPollStatus::Idle,
            delete_pending: false,
        }
    }

    /// The state of a socket that has just been registered. `base_socket` is
    /// the socket that the kernel polls for `raw_socket`, `afd` the member of
    /// the pool that serves it.
    pub fn new(raw_socket: u64, base_socket: u64, afd: usize) -> (state: SockState)
        ensures
            state == SockState::spec_new(raw_socket, base_socket, afd),
    {
        SockState {
            iosb: IoStatusBlock::zeroed(),
            poll_info: AfdPollInfo::zeroed(),
            afd,
            raw_socket,
            base_socket,
            user_evts: 0,
            pending_evts: 0,
            user_data: 0,
            poll_status: SockPollStatus::Idle,
            delete_pending: false,
        }
    }

    /// The state after the caller asked for the flags of `ev` under the
    /// value of `ev`.
    pub open spec fn spec_set_event(self, ev: Event) -> SockState {
        SockState { user_evts: ev.flags | ALWAYS_FLAGS, user_data: ev.data, ..self }
    }

    /// Takes down what the caller wants to hear about: the flags of `ev`,
    /// and connect-fail and abort whether asked for or not. Says whether any
    /// of that is not covered by the request under way.
    pub fn set_event(&mut self, ev: Event) -> (uncovered: bool)
        ensures
            *final(self) == old(self).spec_set_event(ev),
            uncovered == ((ev.flags | ALWAYS_FLAGS) & !old(self).pending_evts != 0),
    {
        let events: u32 = ev.flags | ALWAYS_FLAGS;
        self.user_evts = events;
        self.user_data = ev.data;
        (events & !self.pending_evts) != 0
    }

    /// The kernel call whose answer `update` takes, if it takes one.
    pub open spec fn spec_update_request(&self) -> Option<SockRequest> {
        match self.poll_status {
            SockPollStatus::Pending => {
                if self.covered() {
                    None
                } else {
                    Some(SockRequest::Cancel { afd: self.afd })
                }
            },
            SockPollStatus::Cancelled => None,
            SockPollStatus::Idle => Some(
                SockRequest::Poll { afd: self.afd, info: self.poll_descriptor() },
            ),
        }
    }

    /// The kernel call that is due before `update`: a poll request when the
    /// socket is idle, a cancellation when the pending request does not cover
    /// what the caller wants, nothing otherwise.
    #[verifier::when_used_as_spec(spec_update_request)]
    pub fn update_request(&self) -> (request: Option<SockRequest>)
        ensures
            request == self.spec_update_request(),
    {
        match self.poll_status {
            SockPollStatus::Pending => {
                if (self.user_evts & KNOWN_EVENTS & !self.pending_evts) == 0 {
                    None
                } else {
                    Some(SockRequest::Cancel { afd: self.afd })
                }
            },
            SockPollStatus::Cancelled => None,
            SockPollStatus::Idle => {
                let info = AfdPollInfo {
                    timeout: POLL_TIMEOUT_INFINITE,
                    number_of_handles: 1,
                    exclusive: 0,
                    handles: AfdPollHandleInfo {
                        handle: self.base_socket,
                        events: self.user_evts | POLL_LOCAL_CLOSE,
                        status: 0,
                    },
                };
                Some(SockRequest::Poll { afd: self.afd, info })
            },
        }
    }

    /// Whether the kernel took a submission that it answered with `answer`.
    pub open spec fn accepted(answer: Result<(), i32>) -> bool {
        answer is Ok || answer == Err::<(), i32>(ERROR_IO_PENDING)
    }

    /// The state after a cancellation that the kernel answered with
    /// `answer`.
    pub open spec fn spec_cancel(self, answer: Result<(), i32>) -> SockState {
        if answer is Ok {
            SockState { poll_status: SockPollStatus::Cancelled, pending_evts: 0, ..self }
        } else {
            self
        }
    }

    /// The state after `update`, where the kernel answered the call of
    /// `update_request` with `answer`.
    pub open spec fn spec_update(self, answer: Result<(), i32>) -> SockState {
        match self.poll_status {
            SockPollStatus::Pending => {
                if self.covered() {
                    self
                } else {
                    self.spec_cancel(answer)
                }
            },
            SockPollStatus::Cancelled => self,
            SockPollStatus::Idle => {
                let submitted = SockState { poll_info: self.poll_descriptor(), ..self };
                if Self::accepted(answer) {
                    SockState {
                        poll_status: SockPollStatus::Pending,
                        pending_evts: self.user_evts,
                        ..submitted
                    }
                } else if answer == Err::<(), i32>(ERROR_INVALID_HANDLE) {
                    SockState { delete_pending: true, ..submitted }
                } else {
                    submitted
                }
            },
        }
    }

    /// What `update` returns: the error of the kernel, unless there was no
    /// call, the kernel took the submission, or it reported a closed handle.
    pub open spec fn spec_update_result(self, answer: Result<(), i32>) -> Result<(), Error> {
        match self.spec_update_request() {
            None => Ok(()),
            Some(SockRequest::Cancel { .. }) => match answer {
                Ok(_) => Ok(()),
                Err(code) => Err(Error::Os(code)),
            },
            Some(SockRequest::Poll { .. }) => match answer {
                Ok(_) => Ok(()),
                Err(code) => if code == ERROR_IO_PENDING || code == ERROR_INVALID_HANDLE {
                    Ok(())
                } else {
                    Err(Error::Os(code))
                },
            },
        }
    }

    /// Brings the request with the kernel in line with what the caller wants.
    /// `answer` is what the kernel said to the call of `update_request`; where
    /// that is no call, `answer` is not read.
    ///
    /// An idle socket becomes pending when the kernel took the submission. A
    /// closed handle marks the state for release and is no error. A pending
    /// request that does not cover what is wanted is cancelled; the new
    /// request waits for the completion of the old one.
    pub fn update(&mut self, answer: Result<(), i32>) -> (result: Result<(), Error>)
        requires
            !old(self).delete_pending,
        ensures
            *final(self) == old(self).spec_update(answer),
            result == old(self).spec_update_result(answer),
    {
        match self.poll_status {
            SockPollStatus::Pending => {
                if (self.user_evts & KNOWN_EVENTS & !self.pending_evts) == 0 {
                    Ok(())
                } else {
                    self.cancel(answer)
                }
            },
            SockPollStatus::Cancelled => Ok(()),
            SockPollStatus::Idle => {
                self.poll_info.exclusive = 0;
                self.poll_info.number_of_handles = 1;
                self.poll_info.timeout = POLL_TIMEOUT_INFINITE;
                self.poll_info.handles.handle = self.base_socket;
                self.poll_info.handles.status = 0;
                self.poll_info.handles.events = self.user_evts | POLL_LOCAL_CLOSE;
                if let Err(code) = answer {
                    if code == ERROR_IO_PENDING {
                    } else if code == ERROR_INVALID_HANDLE {
                        self.mark_delete(Ok(()));
                        return Ok(());
                    } else {
                        return Err(Error::Os(code));
                    }
                }
                self.poll_status = SockPollStatus::Pending;
                self.pending_evts = self.user_evts;
                Ok(())
            },
        }
    }

    /// Takes down that the pending request was cancelled, where the kernel
    /// answered the cancellation with `answer`. On an error nothing changes.
    pub fn cancel(&mut self, answer: Result<(), i32>) -> (result: Result<(), Error>)
        requires
            old(self).poll_status == SockPollStatus::Pending,
        ensures
            *final(self) == old(self).spec_cancel(answer),
            result == (match answer {
                Ok(_) => Ok::<(), Error>(()),
                Err(code) => Err::<(), Error>(Error::Os(code)),
            }),
    {
        match answer {
            Ok(_) => {
                self.poll_status = SockPollStatus::Cancelled;
                self.pending_evts = 0;
                Ok(())
            },
            Err(code) => Err(Error::Os(code)),
        }
    }

    /// The state with the blocks that the kernel wrote at a completion.
    pub open spec fn with_blocks(self, iosb: IoStatusBlock, poll_info: AfdPollInfo) -> SockState {
        SockState { iosb, poll_info, ..self }
    }

    /// The state after the kernel gave up its request without a word: idle,
    /// with nothing covered.
    pub open spec fn spec_abandon(self) -> SockState {
        SockState { poll_status: SockPollStatus::Idle, pending_evts: 0, ..self }
    }

    /// Takes down that the kernel holds no request of this socket any more,
    /// where its completion is taken off the port without being looked at.
    pub fn abandon(&mut self)
        ensures
            *final(self) == old(self).spec_abandon(),
    {
        self.poll_status = SockPollStatus::Idle;
        self.pending_evts = 0;
    }

    /// The flags that a completed request reports, before they are held
    /// against what the caller wants: none after a cancellation, connect-fail
    /// after a failure, else what the kernel wrote for the one handle.
    pub open spec fn reported_events(self) -> u32 {
        if self.iosb.status == STATUS_CANCELLED {
            0
        } else if !spec_nt_success(self.iosb.status) {
            POLL_CONNECT_FAIL
        } else if self.poll_info.number_of_handles < 1 {
            0
        } else {
            self.poll_info.handles.events
        }
    }

    /// Whether a completed request reports that the socket was closed on
    /// this side.
    pub open spec fn reports_local_close(self) -> bool {
        &&& self.iosb.status != STATUS_CANCELLED
        &&& spec_nt_success(self.iosb.status)
        &&& self.poll_info.number_of_handles >= 1
        &&& self.poll_info.handles.events & POLL_LOCAL_CLOSE != 0
    }

    /// The flags of the event that a completion gives rise to; zero where it
    /// gives rise to none.
    pub open spec fn delivered_events(self) -> u32 {
        if self.delete_pending || self.reports_local_close() {
            0
        } else {
            self.reported_events() & self.user_evts
        }
    }

    /// What is left of the wanted flags once `delivered` has been reported:
    /// a readable flag takes all readable flags with it, a writable flag all
    /// writable ones.
    pub open spec fn remaining_interest(user_evts: u32, delivered: u32) -> u32 {
        let after_read = if delivered & READABLE_FLAGS != 0 {
            user_evts & !READABLE_FLAGS
        } else {
            user_evts
        };
        if delivered & WRITABLE_FLAGS != 0 {
            after_read & !WRITABLE_FLAGS
        } else {
            after_read
        }
    }

    /// The event that `feed_event` returns.
    pub open spec fn spec_fed_event(self) -> Option<Event> {
        if self.delivered_events() == 0 {
            None
        } else {
            Some(Event { flags: self.delivered_events(), data: self.user_data })
        }
    }

    /// The state after `feed_event`.
    pub open spec fn spec_feed_event(self) -> SockState {
        SockState {
            poll_status: SockPollStatus::Idle,
            pending_evts: 0,
            delete_pending: self.delete_pending || self.reports_local_close(),
            user_evts: Self::remaining_interest(self.user_evts, self.delivered_events()),
            ..self
        }
    }

    /// Takes the completion of the request of this socket, which the kernel
    /// has written into `iosb` and `poll_info`.
    ///
    /// The socket is idle afterwards. A state marked for release, a cancelled
    /// request and a request without a reported flag give no event. A failed
    /// request counts as connect-fail. A local close marks the state for
    /// release. Else the event carries the reported flags that the caller
    /// wants, and those are no longer wanted afterwards: the caller hears of
    /// each once, until it asks again.
    pub fn feed_event(&mut self) -> (event: Option<Event>)
        ensures
            *final(self) == old(self).spec_feed_event(),
            event == old(self).spec_fed_event(),
    {
        self.poll_status = SockPollStatus::Idle;
        self.pending_evts = 0;

        let mut afd_events: u32 = 0;
        if self.delete_pending {
            assert(0u32 & READABLE_FLAGS == 0 && 0u32 & WRITABLE_FLAGS == 0) by (bit_vector);
            return None;
        } else if self.iosb.status == STATUS_CANCELLED {
        } else if !nt_success(self.iosb.status) {
            afd_events = POLL_CONNECT_FAIL;
        } else if self.poll_info.number_of_handles < 1 {
        } else if self.poll_info.handles.events & POLL_LOCAL_CLOSE != 0 {
            assert(0u32 & READABLE_FLAGS == 0 && 0u32 & WRITABLE_FLAGS == 0) by (bit_vector);
            self.mark_delete(Ok(()));
            return None;
        } else {
            afd_events = self.poll_info.handles.events;
        }

        afd_events &= self.user_evts;

        if afd_events == 0 {
            assert(0u32 & READABLE_FLAGS == 0 && 0u32 & WRITABLE_FLAGS == 0) by (bit_vector);
            return None;
        }
        if (afd_events & interests_to_afd_flags(Interest::readable())) != 0 {
            self.user_evts &= !interests_to_afd_flags(Interest::readable());
        }
        if (afd_events & interests_to_afd_flags(Interest::writable())) != 0 {
            self.user_evts &= !interests_to_afd_flags(Interest::writable());
        }
        assert(forall|x: u32| #![auto] 0u32 | x == x && x | 0u32 == x) by (bit_vector);

        Some(Event { data: self.user_data, flags: afd_events })
    }

    /// Whether the state waits to be released.
    pub fn is_pending_deletion(&self) -> (pending: bool)
        ensures
            pending == self.delete_pending,
    {
        self.delete_pending
    }

    /// The cancellation whose answer `mark_delete` takes, if it takes one:
    /// that of the pending request of a state that is not marked yet.
    pub open spec fn spec_mark_delete_request(&self) -> Option<SockRequest> {
        if !self.delete_pending && self.poll_status == SockPollStatus::Pending {
            Some(SockRequest::Cancel { afd: self.afd })
        } else {
            None
        }
    }

    /// The kernel call that is due before `mark_delete`.
    #[verifier::when_used_as_spec(spec_mark_delete_request)]
    pub fn mark_delete_request(&self) -> (request: Option<SockRequest>)
        ensures
            request == self.spec_mark_delete_request(),
    {
        if !self.delete_pending {
            if let SockPollStatus::Pending = self.poll_status {
                return Some(SockRequest::Cancel { afd: self.afd });
            }
        }
        None
    }

    /// The state after `mark_delete`.
    pub open spec fn spec_mark_delete(self, answer: Result<(), i32>) -> SockState {
        if self.delete_pending {
            self
        } else if self.poll_status == SockPollStatus::Pending {
            SockState { delete_pending: true, ..self.spec_cancel(answer) }
        } else {
            SockState { delete_pending: true, ..self }
        }
    }

    /// Marks the state for release. A pending request is cancelled first;
    /// `answer` is what the kernel said to the call of `mark_delete_request`,
    /// and an error in it is passed over. Marking twice changes nothing.
    pub fn mark_delete(&mut self, answer: Result<(), i32>)
        ensures
            *final(self) == old(self).spec_mark_delete(answer),
    {
        if !self.delete_pending {
            if let SockPollStatus::Pending = self.poll_status {
                let _ = self.cancel(answer);
            }
            self.delete_pending = true;
        }
    }
}

} // verus!
