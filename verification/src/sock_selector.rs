//! The sockets that are registered with a selector.
//!
//! The selector keeps the poll state of every socket for as long as anybody
//! refers to it: the socket itself while it is registered, the kernel while
//! a request is with it, and the queue of sockets that wait for their
//! request to be submitted again. Registration changes what a socket wants
//! and puts it on the queue; the queue is worked off before every wait, and
//! at once while a wait is under way.

use std::collections::VecDeque;
use vstd::prelude::*;
use crate::afd::{AfdPollInfo, IoStatusBlock};
use crate::afd_group::{after_acquire, after_release, next_member, without_unused, AfdGroup};
use crate::error::Error;
use crate::event::Event;
use crate::interest::{Interest, Token};
use crate::sock_state::{interests_to_afd_flags, SockPollStatus, SockRequest, SockState};

verus! {

/// The poll state of a socket, and whether the socket still holds it.
#[derive(Clone, Copy, Debug, PartialEq, Eq, Structural)]
pub struct SockEntry {
    pub state: SockState,
    /// Whether the socket is registered: it was not deregistered since.
    pub attached: bool,
}

/// A kernel call that the driver has to make for a socket.
#[derive(Clone, Copy, Debug, PartialEq, Eq, Structural)]
pub struct KernelCall {
    /// The place of the poll state of the socket.
    pub sock: usize,
    /// The word by which the completion of the request finds the state
    /// again.
    pub overlapped: u64,
    /// What to ask of the kernel.
    pub request: SockRequest,
}

/// A completion as it comes off the completion port, with the blocks that
/// the kernel wrote where the completion is that of a poll request.
#[derive(Clone, Copy, Debug, PartialEq, Eq, Structural)]
pub struct CompletionStatus {
    pub bytes_transferred: u32,
    /// The key under which the handle of the operation was added to the
    /// port. It names the handler of the completion.
    pub token: usize,
    /// The word that was given when the operation was started.
    pub overlapped: u64,
    pub iosb: IoStatusBlock,
    pub poll_info: AfdPollInfo,
}

/// The word by which a completion finds the poll state at place `sock`. It
/// is never zero.
pub open spec fn spec_into_overlapped(sock: usize) -> u64 {
    (sock + 1) as u64
}

/// The place of the poll state that the word of a completion names, if it
/// names one.
pub open spec fn spec_from_overlapped(overlapped: u64) -> Option<usize> {
    if 0 < overlapped <= usize::MAX {
        Some((overlapped - 1) as usize)
    } else {
        None
    }
}

/// The word by which a completion finds the poll state at place `sock`.
#[verifier::when_used_as_spec(spec_into_overlapped)]
pub fn into_overlapped(sock: usize) -> (overlapped: u64)
    requires
        sock < usize::MAX,
    ensures
        overlapped == spec_into_overlapped(sock),
        overlapped != 0,
        spec_from_overlapped(overlapped) == Some(sock),
{
    sock as u64 + 1
}

/// The place of the poll state that the word of a completion names. Zero
/// names none.
#[verifier::when_used_as_spec(spec_from_overlapped)]
pub fn from_overlapped(overlapped: u64) -> (sock: Option<usize>)
    ensures
        sock == spec_from_overlapped(overlapped),
{
    if 0 < overlapped && overlapped <= usize::MAX as u64 {
        Some((overlapped - 1) as usize)
    } else {
        None
    }
}

/// Whether a place holds the state of the registered socket `socket`.
pub open spec fn holds_socket(entry: Option<SockEntry>, socket: u64) -> bool {
    entry matches Some(e) && e.attached && e.state.raw_socket == socket
}

/// The first place from `from` on that holds the state of the registered
/// socket `socket`.
pub open spec fn first_holding(socks: Seq<Option<SockEntry>>, socket: u64, from: int) -> Option<
    usize,
>
    decreases socks.len() - from,
{
    if from < 0 || from >= socks.len() {
        None
    } else if holds_socket(socks[from], socket) {
        Some(from as usize)
    } else {
        first_holding(socks, socket, from + 1)
    }
}

/// The first free place from `from` on; the length where there is none.
pub open spec fn first_free(socks: Seq<Option<SockEntry>>, from: int) -> int
    decreases socks.len() - from,
{
    if from < 0 || from >= socks.len() {
        socks.len() as int
    } else if socks[from] is None {
        from
    } else {
        first_free(socks, from + 1)
    }
}

/// The sockets of a selector as plain values.
pub struct SockSelectorView {
    /// The poll states by place; `None` is a free place.
    pub socks: Seq<Option<SockEntry>>,
    /// The places of the sockets that wait for `update`, first come first.
    pub update_queue: Seq<usize>,
    /// The reference counts of the pool of poll handles.
    pub afd_counts: Seq<usize>,
    /// Whether a wait is under way.
    pub is_polling: bool,
    /// The place of the socket whose kernel call the driver is making.
    pub updating: Option<usize>,
}

impl SockSelectorView {
    /// Whether a place holds a poll state.
    pub open spec fn occupied(self, sock: int) -> bool {
        0 <= sock < self.socks.len() && self.socks[sock] is Some
    }

    /// The poll state at a place.
    pub open spec fn state(self, sock: int) -> SockState {
        self.socks[sock]->0.state
    }

    /// The place of the registered socket `socket`.
    pub open spec fn slot_of(self, socket: u64) -> Option<usize> {
        first_holding(self.socks, socket, 0)
    }

    /// Whether anybody refers to the poll state at a place: the socket, the
    /// kernel, the queue, or the update that is under way.
    pub open spec fn referenced(self, sock: int) -> bool {
        &&& self.occupied(sock)
        &&& (self.socks[sock]->0.attached || self.state(sock).in_flight()
            || self.update_queue.contains(sock as usize) || self.updating == Some(sock as usize))
    }

    /// The selector after the poll state at a place was released, if nobody
    /// refers to it: the place is free, and the poll handle that served the
    /// socket counts one reference less.
    pub open spec fn reap(self, sock: int) -> SockSelectorView {
        if self.occupied(sock) && !self.referenced(sock) {
            SockSelectorView {
                socks: self.socks.update(sock, None),
                afd_counts: after_release(self.afd_counts, self.state(sock).afd),
                ..self
            }
        } else {
            self
        }
    }

    /// The selector with another state at a place.
    pub open spec fn with_state(self, sock: int, state: SockState) -> SockSelectorView {
        SockSelectorView {
            socks: self.socks.update(
                sock,
                Some(SockEntry { state, attached: self.socks[sock]->0.attached }),
            ),
            ..self
        }
    }

    /// The selector with one more place on the queue.
    pub open spec fn enqueue(self, sock: usize) -> SockSelectorView {
        SockSelectorView { update_queue: self.update_queue.push(sock), ..self }
    }

    /// The selector after every poll handle that serves no socket was
    /// reclaimed.
    pub open spec fn release_unused(self) -> SockSelectorView {
        SockSelectorView { afd_counts: without_unused(self.afd_counts), ..self }
    }

    /// The selector after `register`. A socket that is registered already
    /// changes nothing. Else the socket gets a member of the pool and an idle
    /// state that wants the flags of `interests` under the value of `token`;
    /// the state takes the first free place and joins the queue.
    pub open spec fn register(
        self,
        socket: u64,
        base_socket: u64,
        token: Token,
        interests: Interest,
    ) -> SockSelectorView {
        if self.slot_of(socket) is Some {
            self
        } else {
            let afd = next_member(self.afd_counts) as usize;
            let state = SockState::spec_new(socket, base_socket, afd).spec_set_event(
                registration_event(token, interests),
            );
            let slot = first_free(self.socks, 0);
            let entry = Some(SockEntry { state, attached: true });
            SockSelectorView {
                socks: if slot < self.socks.len() {
                    self.socks.update(slot, entry)
                } else {
                    self.socks.push(entry)
                },
                update_queue: self.update_queue.push(slot as usize),
                afd_counts: after_acquire(self.afd_counts),
                ..self
            }
        }
    }

    /// The selector after `reregister`: the state of the socket wants the
    /// flags of `interests` under the value of `token`, and joins the queue.
    /// A socket that is not registered changes nothing.
    pub open spec fn reregister(self, socket: u64, token: Token, interests: Interest)
        -> SockSelectorView {
        match self.slot_of(socket) {
            None => self,
            Some(slot) => self.with_state(
                slot as int,
                self.state(slot as int).spec_set_event(registration_event(token, interests)),
            ).enqueue(slot),
        }
    }

    /// The kernel call that is due before `deregister`: the cancellation of
    /// the pending request of the socket, if it has one that is not cancelled
    /// yet.
    pub open spec fn deregister_request(self, socket: u64) -> Option<KernelCall> {
        match self.slot_of(socket) {
            None => None,
            Some(slot) => match self.state(slot as int).spec_mark_delete_request() {
                None => None,
                Some(request) => Some(
                    KernelCall { sock: slot, overlapped: spec_into_overlapped(slot), request },
                ),
            },
        }
    }

    /// The selector after `deregister`: the state of the socket is marked
    /// for release, and the socket holds it no longer; the state is released
    /// unless the kernel or the queue still refers to it; poll handles that
    /// serve no socket are reclaimed. A socket that is not registered changes
    /// nothing.
    pub open spec fn deregister(self, socket: u64, answer: Result<(), i32>) -> SockSelectorView {
        match self.slot_of(socket) {
            None => self,
            Some(slot) => (SockSelectorView {
                socks: self.socks.update(
                    slot as int,
                    Some(
                        SockEntry {
                            state: self.state(slot as int).spec_mark_delete(answer),
                            attached: false,
                        },
                    ),
                ),
                ..self
            }).reap(slot as int).release_unused(),
        }
    }

    /// Whether the answer of the kernel is applied to the socket whose call
    /// was under way: there is such a socket and an answer, and the state was
    /// not marked for release meanwhile.
    pub open spec fn answer_applies(self, answer: Option<Result<(), i32>>) -> bool {
        &&& self.updating matches Some(sock)
        &&& answer is Some
        &&& self.occupied(sock as int)
        &&& !self.state(sock as int).delete_pending
    }

    /// The selector after the answer of the kernel was applied to the socket
    /// whose call was under way. The update that was under way is over; the
    /// state is released if nobody refers to it any more.
    pub open spec fn resume(self, answer: Option<Result<(), i32>>) -> SockSelectorView {
        match self.updating {
            None => self,
            Some(sock) => {
                let cleared = SockSelectorView { updating: None, ..self };
                let applied = if self.answer_applies(answer) {
                    cleared.with_state(
                        sock as int,
                        self.state(sock as int).spec_update(answer->0),
                    )
                } else {
                    cleared
                };
                applied.reap(sock as int)
            },
        }
    }

    /// The error, if any, that the answer of the kernel amounts to.
    pub open spec fn resume_result(self, answer: Option<Result<(), i32>>) -> Result<(), Error> {
        if self.answer_applies(answer) {
            self.state(self.updating->0 as int).spec_update_result(answer->0)
        } else {
            Ok(())
        }
    }

    /// Whether the socket at the head of the queue needs a kernel call: its
    /// state is there, is not marked for release, and `update` asks for one.
    pub open spec fn head_needs_call(self) -> bool {
        &&& self.update_queue.len() > 0
        &&& self.occupied(self.update_queue[0] as int)
        &&& !self.state(self.update_queue[0] as int).delete_pending
        &&& self.state(self.update_queue[0] as int).spec_update_request() is Some
    }

    /// The selector after the queue was worked off up to the first socket
    /// that needs a kernel call, which is then under way. A socket that needs
    /// none leaves the queue, and its state is released if nobody refers to it
    /// any more. When the queue is empty, poll handles that serve no socket are
    /// reclaimed.
    pub open spec fn advance(self) -> SockSelectorView
        decreases self.update_queue.len(),
    {
        if self.update_queue.len() == 0 {
            self.release_unused()
        } else {
            let sock = self.update_queue[0];
            let rest = SockSelectorView {
                update_queue: self.update_queue.subrange(1, self.update_queue.len() as int),
                ..self
            };
            if self.head_needs_call() {
                SockSelectorView { updating: Some(sock), ..rest }
            } else {
                rest.reap(sock as int).advance()
            }
        }
    }

    /// The kernel call at which `advance` stops, if it stops at one.
    pub open spec fn advance_call(self) -> Option<KernelCall>
        decreases self.update_queue.len(),
    {
        if self.update_queue.len() == 0 {
            None
        } else {
            let sock = self.update_queue[0];
            let rest = SockSelectorView {
                update_queue: self.update_queue.subrange(1, self.update_queue.len() as int),
                ..self
            };
            if self.head_needs_call() {
                Some(
                    KernelCall {
                        sock,
                        overlapped: spec_into_overlapped(sock),
                        request: self.state(sock as int).spec_update_request()->0,
                    },
                )
            } else {
                rest.reap(sock as int).advance_call()
            }
        }
    }

    /// The selector after `update_sockets_events`: the answer is applied;
    /// unless it is an error, the queue is worked off up to the next kernel
    /// call.
    pub open spec fn flush(self, answer: Option<Result<(), i32>>) -> SockSelectorView {
        if self.resume_result(answer) is Err {
            self.resume(answer)
        } else {
            self.resume(answer).advance()
        }
    }

    /// What `update_sockets_events` returns: the error of the kernel, or
    /// the next kernel call, or nothing when the queue is worked off.
    pub open spec fn flush_result(self, answer: Option<Result<(), i32>>) -> Result<
        Option<KernelCall>,
        Error,
    > {
        match self.resume_result(answer) {
            Err(e) => Err(e),
            Ok(_) => Ok(self.resume(answer).advance_call()),
        }
    }

    /// The place of the state whose request a completion ends: the one that
    /// the word of the completion names, if the kernel holds a request of it.
    pub open spec fn completed_sock(self, completion: CompletionStatus) -> Option<usize> {
        match spec_from_overlapped(completion.overlapped) {
            None => None,
            Some(sock) => if self.occupied(sock as int) && self.state(sock as int).in_flight() {
                Some(sock)
            } else {
                None
            },
        }
    }

    /// The selector after `handle_completion`. The state takes the
    /// completion. Unless it is marked for release it joins the queue;
    /// else it is released if nobody refers to it any more. Poll handles that
    /// serve no socket are reclaimed. A completion that ends no request
    /// changes nothing.
    pub open spec fn handle_completion(self, completion: CompletionStatus) -> SockSelectorView {
        match self.completed_sock(completion) {
            None => self,
            Some(sock) => {
                let fed = self.state(sock as int).with_blocks(
                    completion.iosb,
                    completion.poll_info,
                ).spec_feed_event();
                let after = self.with_state(sock as int, fed);
                (if fed.delete_pending {
                    after.reap(sock as int)
                } else {
                    after.enqueue(sock)
                }).release_unused()
            },
        }
    }

    /// The event that `handle_completion` returns.
    pub open spec fn completion_event(self, completion: CompletionStatus) -> Option<Event> {
        match self.completed_sock(completion) {
            None => None,
            Some(sock) => self.state(sock as int).with_blocks(
                completion.iosb,
                completion.poll_info,
            ).spec_fed_event(),
        }
    }

    /// The selector after `drain`: the kernel has given up the request that
    /// the completion ends, and the state is released if nobody refers to it
    /// any more.
    pub open spec fn drain(self, completion: CompletionStatus) -> SockSelectorView {
        match self.completed_sock(completion) {
            None => self,
            Some(sock) => self.with_state(
                sock as int,
                self.state(sock as int).spec_abandon(),
            ).reap(sock as int),
        }
    }
}

/// The event that stands for a registration: the poll flags of the
/// interests, and the token as the value.
pub open spec fn registration_event(token: Token, interests: Interest) -> Event {
    Event { flags: interests_to_afd_flags(interests), data: token.0 as u64 }
}

/// The sockets that are registered with a selector, the queue of those that
/// wait for their poll request, and the pool of poll handles.
#[derive(Debug)]
pub struct SockSelector {
    socks: Vec<Option<SockEntry>>,
    update_queue: VecDeque<usize>,
    afd_group: AfdGroup,
    is_polling: bool,
    updating: Option<usize>,
}

impl View for SockSelector {
    type V = SockSelectorView;

    closed spec fn view(&self) -> SockSelectorView {
        SockSelectorView {
            socks: self.socks@,
            update_queue: self.update_queue@,
            afd_counts: self.afd_group@,
            is_polling: self.is_polling,
            updating: self.updating,
        }
    }
}

impl SockSelector {
    /// Whether the selector is in order.
    pub open spec fn wf(&self) -> bool {
        self@.inv()
    }

    /// A selector without sockets, outside a wait.
    pub fn new() -> (selector: SockSelector)
        ensures
            selector.wf(),
            selector@ == (SockSelectorView {
                socks: Seq::empty(),
                update_queue: Seq::empty(),
                afd_counts: Seq::empty(),
                is_polling: false,
                updating: None,
            }),
    {
        SockSelector {
            socks: Vec::new(),
            update_queue: VecDeque::new(),
            afd_group: AfdGroup::new(),
            is_polling: false,
            updating: None,
        }
    }

    /// The place of the registered socket `socket`.
    fn find(&self, socket: u64) -> (slot: Option<usize>)
        ensures
            slot == self@.slot_of(socket),
            slot matches Some(i) ==> i < self@.socks.len() && i < usize::MAX && holds_socket(
                self@.socks[i as int],
                socket,
            ),
    {
        let n = self.socks.len();
        let mut i: usize = 0;
        while i < n
            invariant
                i <= n,
                n == self.socks@.len(),
                first_holding(self.socks@, socket, 0) == first_holding(self.socks@, socket, i as int),
            decreases n - i,
        {
            if let Some(entry) = self.socks[i] {
                if entry.attached && entry.state.raw_socket == socket {
                    return Some(i);
                }
            }
            i += 1;
        }
        None
    }

    /// The first free place; the number of places where none is free.
    fn free_slot(&self) -> (slot: usize)
        ensures
            slot == first_free(self@.socks, 0),
            slot <= self@.socks.len(),
            slot < self@.socks.len() ==> self@.socks[slot as int] is None,
    {
        let n = self.socks.len();
        let mut i: usize = 0;
        while i < n
            invariant
                i <= n,
                n == self.socks@.len(),
                first_free(self.socks@, 0) == first_free(self.socks@, i as int),
            decreases n - i,
        {
            if self.socks[i].is_none() {
                return i;
            }
            i += 1;
        }
        n
    }

    /// Whether the place `sock` is on the queue.
    fn queued(&self, sock: usize) -> (queued: bool)
        ensures
            queued == self@.update_queue.contains(sock),
    {
        let n = self.update_queue.len();
        let mut i: usize = 0;
        while i < n
            invariant
                i <= n,
                n == self.update_queue@.len(),
                forall|k: int| 0 <= k < i ==> self.update_queue@[k] != sock,
            decreases n - i,
        {
            if self.update_queue[i] == sock {
                return true;
            }
            i += 1;
        }
        false
    }

    /// Whether a wait is under way.
    pub fn is_polling(&self) -> (polling: bool)
        ensures
            polling == self@.is_polling,
    {
        self.is_polling
    }

    /// Whether the next registration allocates a member of the pool, for
    /// which the driver has to open a poll handle.
    pub fn needs_afd(&self) -> (needed: bool)
        ensures
            needed == crate::afd_group::needs_new_member(self@.afd_counts),
    {
        self.afd_group.needs_afd()
    }

    /// The pool of poll handles.
    pub fn afd_group(&self) -> (pool: &AfdGroup)
        ensures
            pool@ == self@.afd_counts,
    {
        &self.afd_group
    }

    /// The number of sockets on the queue.
    pub fn queue_len(&self) -> (len: usize)
        ensures
            len == self@.update_queue.len(),
    {
        self.update_queue.len()
    }

    /// The poll state at the place `sock`, if the place holds one.
    pub fn entry(&self, sock: usize) -> (entry: Option<SockEntry>)
        ensures
            entry == (if sock < self@.socks.len() {
                self@.socks[sock as int]
            } else {
                None
            }),
    {
        if sock < self.socks.len() {
            self.socks[sock]
        } else {
            None
        }
    }

    /// The poll state of the registered socket `socket`.
    pub fn get_sock_state(&self, socket: u64) -> (state: Option<SockState>)
        ensures
            state == (match self@.slot_of(socket) {
                Some(slot) => Some(self@.state(slot as int)),
                None => None,
            }),
    {
        match self.find(socket) {
            Some(slot) => match self.socks[slot] {
                Some(entry) => Some(entry.state),
                None => None,
            },
            None => None,
        }
    }

    /// Registers a socket: `socket` is the socket as the caller knows it,
    /// `base_socket` the one that the kernel polls for it. The poll request
    /// is not submitted here: the socket joins the queue.
    pub fn register(
        &mut self,
        socket: u64,
        base_socket: u64,
        token: Token,
        interests: Interest,
    ) -> (result: Result<(), Error>)
        requires
            old(self).wf(),
        ensures
            final(self).wf(),
            final(self)@ == old(self)@.register(socket, base_socket, token, interests),
            result == (if old(self)@.slot_of(socket) is Some {
                Err::<(), Error>(Error::AlreadyExists)
            } else {
                Ok::<(), Error>(())
            }),
    {
        if self.find(socket).is_some() {
            return Err(Error::AlreadyExists);
        }
        let flags = interests_to_afd_flags(interests);
        let afd = self.afd_group.acquire();
        let mut state = SockState::new(socket, base_socket, afd);
        let event = Event { flags, data: token.0 as u64 };
        state.set_event(event);
        let slot = self.free_slot();
        let entry = Some(SockEntry { state, attached: true });
        if slot < self.socks.len() {
            self.socks.set(slot, entry);
        } else {
            self.socks.push(entry);
        }
        self.update_queue.push_back(slot);
        let places = self.socks.len();
        let members = self.afd_group.len();
        proof {
            old(self)@.lemma_register_inv(socket, base_socket, token, interests);
        }
        Ok(())
    }

    /// Changes what a registered socket wants to hear about, and the value
    /// under which it hears it. The socket joins the queue.
    pub fn reregister(&mut self, socket: u64, token: Token, interests: Interest) -> (result: Result<
        (),
        Error,
    >)
        requires
            old(self).wf(),
        ensures
            final(self).wf(),
            final(self)@ == old(self)@.reregister(socket, token, interests),
            result == (if old(self)@.slot_of(socket) is Some {
                Ok::<(), Error>(())
            } else {
                Err::<(), Error>(Error::NotFound)
            }),
    {
        let flags = interests_to_afd_flags(interests);
        let slot = match self.find(socket) {
            Some(slot) => slot,
            None => return Err(Error::NotFound),
        };
        let event = Event { flags, data: token.0 as u64 };
        if let Some(mut entry) = self.socks[slot] {
            entry.state.set_event(event);
            self.socks.set(slot, Some(entry));
        }
        self.update_queue.push_back(slot);
        proof {
            old(self)@.lemma_reregister_inv(socket, token, interests);
        }
        Ok(())
    }

    /// The cancellation that is due before `deregister`, if one is.
    pub fn deregister_request(&self, socket: u64) -> (call: Option<KernelCall>)
        ensures
            call == self@.deregister_request(socket),
    {
        let slot = match self.find(socket) {
            Some(slot) => slot,
            None => return None,
        };
        match self.socks[slot] {
            Some(entry) => match entry.state.mark_delete_request() {
                Some(request) => Some(
                    KernelCall { sock: slot, overlapped: into_overlapped(slot), request },
                ),
                None => None,
            },
            None => None,
        }
    }

    /// Takes the poll state from a registered socket and marks it for
    /// release. `answer` is what the kernel said to the call of
    /// `deregister_request`; where that is no call, `answer` is not read,
    /// and an error in it is passed over. The kernel may still hold a request
    /// of the socket: the state is released when nobody refers to it any
    /// more. The socket hears of no event from now on.
    pub fn deregister(&mut self, socket: u64, answer: Result<(), i32>) -> (result: Result<
        (),
        Error,
    >)
        requires
            old(self).wf(),
        ensures
            final(self).wf(),
            final(self)@ == old(self)@.deregister(socket, answer),
            result == (if old(self)@.slot_of(socket) is Some {
                Ok::<(), Error>(())
            } else {
                Err::<(), Error>(Error::NotFound)
            }),
    {
        let slot = match self.find(socket) {
            Some(slot) => slot,
            None => return Err(Error::NotFound),
        };
        if let Some(mut entry) = self.socks[slot] {
            entry.state.mark_delete(answer);
            entry.attached = false;
            self.socks.set(slot, Some(entry));
        }
        self.reap(slot);
        self.afd_group.release_unused_afd();
        proof {
            old(self)@.lemma_deregister_inv(socket, answer);
        }
        Ok(())
    }

    /// Works off the queue, one kernel call at a time.
    ///
    /// The first call of a round has no answer to give. The function
    /// returns the kernel call that the next socket on the queue needs; the
    /// driver makes it and calls again with the answer. A socket that needs
    /// no call is passed over. The round is over when the function returns
    /// no call, or the error that the kernel gave; the sockets behind the
    /// one that failed stay on the queue. Between a kernel call and its
    /// answer no other function of the selector is to be called.
    #[verifier::loop_isolation(false)]
    pub fn update_sockets_events(&mut self, answer: Option<Result<(), i32>>) -> (result: Result<
        Option<KernelCall>,
        Error,
    >)
        requires
            old(self).wf(),
        ensures
            final(self).wf(),
            final(self)@ == old(self)@.flush(answer),
            result == old(self)@.flush_result(answer),
    {
        proof {
            old(self)@.lemma_flush_inv(answer);
        }
        if let Some(sock) = self.updating {
            self.updating = None;
            let mut outcome: Result<(), Error> = Ok(());
            if let Some(a) = answer {
                if sock < self.socks.len() {
                    if let Some(mut entry) = self.socks[sock] {
                        if !entry.state.delete_pending {
                            outcome = entry.state.update(a);
                            self.socks.set(sock, Some(entry));
                        }
                    }
                }
            }
            self.reap(sock);
            if let Err(e) = outcome {
                return Err(e);
            }
        }
        let ghost target = old(self)@.flush(answer);
        let ghost target_result = old(self)@.flush_result(answer);
        loop
            invariant
                self.afd_group.wf(),
                self@.advance() == target,
                Ok::<Option<KernelCall>, Error>(self@.advance_call()) == target_result,
            decreases self.update_queue@.len(),
        {
            let sock = match self.update_queue.pop_front() {
                Some(sock) => sock,
                None => {
                    self.afd_group.release_unused_afd();
                    return Ok(None);
                },
            };
            if sock < self.socks.len() {
                if let Some(entry) = self.socks[sock] {
                    if !entry.state.delete_pending {
                        if let Some(request) = entry.state.update_request() {
                            self.updating = Some(sock);
                            return Ok(
                                Some(
                                    KernelCall { sock, overlapped: into_overlapped(sock), request },
                                ),
                            );
                        }
                    }
                }
            }
            self.reap(sock);
        }
    }

    /// Works off the queue while a wait is under way, as
    /// `update_sockets_events` does; outside a wait the queue is left for the
    /// next wait to work off.
    pub fn update_sockets_events_if_polling(&mut self, answer: Option<Result<(), i32>>) -> (result:
        Result<Option<KernelCall>, Error>)
        requires
            old(self).wf(),
        ensures
            final(self).wf(),
            old(self)@.is_polling ==> final(self)@ == old(self)@.flush(answer) && result == old(
                self,
            )@.flush_result(answer),
            !old(self)@.is_polling ==> final(self)@ == old(self)@ && result == Ok::<
                Option<KernelCall>,
                Error,
            >(None),
    {
        if self.is_polling {
            self.update_sockets_events(answer)
        } else {
            Ok(None)
        }
    }

    /// Takes down that a wait begins. Only one wait is under way at a
    /// time.
    pub fn notify_poll_start(&mut self)
        requires
            old(self).wf(),
            !old(self)@.is_polling,
        ensures
            final(self).wf(),
            final(self)@ == (SockSelectorView { is_polling: true, ..old(self)@ }),
    {
        self.is_polling = true;
    }

    /// Takes down that the wait is over.
    pub fn notify_poll_end(&mut self)
        requires
            old(self).wf(),
        ensures
            final(self).wf(),
            final(self)@ == (SockSelectorView { is_polling: false, ..old(self)@ }),
    {
        self.is_polling = false;
    }

    /// Takes the completion of a poll request and returns the event that it
    /// gives rise to, if any.
    pub fn handle_completion(&mut self, completion: &CompletionStatus) -> (event: Option<Event>)
        requires
            old(self).wf(),
        ensures
            final(self).wf(),
            final(self)@ == old(self)@.handle_completion(*completion),
            event == old(self)@.completion_event(*completion),
    {
        let sock = match from_overlapped(completion.overlapped) {
            Some(sock) => sock,
            None => return None,
        };
        if sock >= self.socks.len() {
            return None;
        }
        let mut entry = match self.socks[sock] {
            Some(entry) => entry,
            None => return None,
        };
        if let SockPollStatus::Idle = entry.state.poll_status {
            return None;
        }
        entry.state.iosb = completion.iosb;
        entry.state.poll_info = completion.poll_info;
        let event = entry.state.feed_event();
        self.socks.set(sock, Some(entry));
        if !entry.state.is_pending_deletion() {
            self.update_queue.push_back(sock);
        } else {
            self.reap(sock);
        }
        self.afd_group.release_unused_afd();
        proof {
            old(self)@.lemma_handle_completion_inv(*completion);
        }
        event
    }

    /// Takes a completion off the port without looking at what it reports,
    /// as when the selector is torn down: the kernel has given up its
    /// reference to the state.
    pub fn drain(&mut self, completion: &CompletionStatus)
        requires
            old(self).wf(),
        ensures
            final(self).wf(),
            final(self)@ == old(self)@.drain(*completion),
    {
        let sock = match from_overlapped(completion.overlapped) {
            Some(sock) => sock,
            None => return ,
        };
        if sock >= self.socks.len() {
            return ;
        }
        let mut entry = match self.socks[sock] {
            Some(entry) => entry,
            None => return ,
        };
        if let SockPollStatus::Idle = entry.state.poll_status {
            return ;
        }
        entry.state.abandon();
        self.socks.set(sock, Some(entry));
        self.reap(sock);
        proof {
            old(self)@.lemma_drain_inv(*completion);
        }
    }

    /// Releases the poll state at `sock` if nobody refers to it.
    fn reap(&mut self, sock: usize)
        requires
            old(self).afd_group.wf(),
        ensures
            final(self).afd_group.wf(),
            final(self)@ == old(self)@.reap(sock as int),
    {
        if sock < self.socks.len() {
            if let Some(entry) = self.socks[sock] {
                let idle = match entry.state.poll_status {
                    SockPollStatus::Idle => true,
                    _ => false,
                };
                let updating = match self.updating {
                    Some(u) => u == sock,
                    None => false,
                };
                if !entry.attached && idle && !updating && !self.queued(sock) {
                    self.socks.set(sock, None);
                    self.afd_group.release(entry.state.afd);
                }
            }
        }
    }
}

} // verus!
