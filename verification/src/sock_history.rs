//! What holds of the sockets of a selector over any sequence of operations.

use vstd::prelude::*;
use crate::afd_group::after_release;
use crate::interest::{Interest, Token};
use crate::sock_invariant::{
    count_ok, held, lemma_first_free, lemma_first_holding, lemma_users_some,
};
use crate::sock_selector::{
    first_free, holds_socket, spec_into_overlapped, CompletionStatus, SockEntry, SockSelectorView,
};
use crate::sock_state::{SockPollStatus, SockRequest, SockState};

verus! {

/// One thing that happens to the sockets of a selector.
pub enum SelectorOp {
    /// A socket is registered.
    Register { socket: u64, base_socket: u64, token: Token, interests: Interest },
    /// A socket is registered again.
    Reregister { socket: u64, token: Token, interests: Interest },
    /// A socket is deregistered; the kernel gave this answer to the
    /// cancellation, if one was due.
    Deregister { socket: u64, answer: Result<(), i32> },
    /// One step of a round of updates, with the answer of the kernel to the
    /// call of the step before, if there was one.
    Update(Option<Result<(), i32>>),
    /// A wait begins.
    PollStart,
    /// A wait ends.
    PollEnd,
    /// A completion of a poll request comes off the port.
    Completion(CompletionStatus),
    /// A completion of a poll request is taken off the port at teardown.
    Drain(CompletionStatus),
}

impl SockSelectorView {
    /// The selector after one operation.
    pub open spec fn step(self, op: SelectorOp) -> SockSelectorView {
        match op {
            SelectorOp::Register { socket, base_socket, token, interests } => self.register(
                socket,
                base_socket,
                token,
                interests,
            ),
            SelectorOp::Reregister { socket, token, interests } => self.reregister(
                socket,
                token,
                interests,
            ),
            SelectorOp::Deregister { socket, answer } => self.deregister(socket, answer),
            SelectorOp::Update(answer) => self.flush(answer),
            SelectorOp::PollStart => SockSelectorView { is_polling: true, ..self },
            SelectorOp::PollEnd => SockSelectorView { is_polling: false, ..self },
            SelectorOp::Completion(completion) => self.handle_completion(completion),
            SelectorOp::Drain(completion) => self.drain(completion),
        }
    }

    /// The selector after a sequence of operations.
    pub open spec fn run(self, ops: Seq<SelectorOp>) -> SockSelectorView
        decreases ops.len(),
    {
        if ops.len() == 0 {
            self
        } else {
            self.run(ops.drop_last()).step(ops.last())
        }
    }

    /// Whether the places and the pool fit the machine all along a sequence
    /// of operations.
    pub open spec fn fits(self, ops: Seq<SelectorOp>) -> bool {
        forall|k: int|
            0 <= k <= ops.len() ==> (#[trigger] self.run(ops.take(k))).socks.len() <= usize::MAX
                && self.run(ops.take(k)).afd_counts.len() <= usize::MAX
    }

    /// Whatever is done to a selector that is in order, in whatever
    /// sequence, leaves it in order: the pool counts its references
    /// rightly, somebody refers to every state that is held, and no two
    /// registered sockets are the same.
    pub proof fn lemma_always_in_order(self, ops: Seq<SelectorOp>)
        requires
            self.inv(),
            self.fits(ops),
        ensures
            self.run(ops).inv(),
        decreases ops.len(),
    {
        if ops.len() > 0 {
            let before = ops.drop_last();
            assert forall|k: int| 0 <= k <= before.len() implies (#[trigger] self.run(
                before.take(k),
            )).socks.len() <= usize::MAX && self.run(before.take(k)).afd_counts.len()
                <= usize::MAX by {
                assert(before.take(k) == ops.take(k));
            }
            self.lemma_always_in_order(before);
            let at = self.run(before);
            assert(ops.take(ops.len() as int) == ops);
            match ops.last() {
                SelectorOp::Register { socket, base_socket, token, interests } => {
                    at.lemma_register_inv(socket, base_socket, token, interests);
                },
                SelectorOp::Reregister { socket, token, interests } => {
                    at.lemma_reregister_inv(socket, token, interests);
                },
                SelectorOp::Deregister { socket, answer } => {
                    at.lemma_deregister_inv(socket, answer);
                },
                SelectorOp::Update(answer) => {
                    at.lemma_flush_inv(answer);
                },
                SelectorOp::PollStart => {},
                SelectorOp::PollEnd => {},
                SelectorOp::Completion(completion) => {
                    at.lemma_handle_completion_inv(completion);
                },
                SelectorOp::Drain(completion) => {
                    at.lemma_drain_inv(completion);
                },
            }
        }
    }

    /// A socket that was registered is known: a second registration is
    /// refused, and registering again or deregistering is not.
    pub proof fn lemma_registered_is_known(
        self,
        socket: u64,
        base_socket: u64,
        token: Token,
        interests: Interest,
    )
        requires
            self.register(socket, base_socket, token, interests).socks.len() <= usize::MAX,
        ensures
            self.register(socket, base_socket, token, interests).slot_of(socket) is Some,
    {
        let after = self.register(socket, base_socket, token, interests);
        if self.slot_of(socket) is None {
            lemma_first_free(self.socks, 0);
            let slot = first_free(self.socks, 0);
            assert(holds_socket(after.socks[slot], socket));
            lemma_first_holding(after.socks, socket, 0);
        }
    }

    /// A socket that was deregistered is unknown: registering again or
    /// deregistering once more is refused, and a new registration is not.
    pub proof fn lemma_deregistered_is_unknown(self, socket: u64, answer: Result<(), i32>)
        requires
            self.inv(),
        ensures
            self.deregister(socket, answer).slot_of(socket) is None,
    {
        let after = self.deregister(socket, answer);
        lemma_first_holding(self.socks, socket, 0);
        self.lemma_deregister_inv(socket, answer);
        lemma_first_holding(after.socks, socket, 0);
        if let Some(slot) = self.slot_of(socket) {
            if let Some(other) = after.slot_of(socket) {
                assert(holds_socket(after.socks[other as int], socket));
                assert(other != slot);
                assert(after.socks[other as int] == self.socks[other as int]);
                let _ = (self.socks[other as int], self.socks[slot as int]);
                assert(held(self.socks, other as int) && held(self.socks, slot as int));
            }
        }
    }

    /// A poll request is handed to the driver only for a socket of which
    /// the kernel holds none. The socket is then the one whose update is
    /// under way, and its state is ready for the answer: where the driver
    /// comes back with the answer at once, the answer is applied.
    pub proof fn lemma_poll_for_idle_only(self)
        requires
            self.advance_call() is Some,
        ensures
            self.advance().updating == Some(self.advance_call()->0.sock),
            self.advance().occupied(self.advance_call()->0.sock as int),
            !self.advance().state(self.advance_call()->0.sock as int).delete_pending,
            self.advance_call()->0.request is Poll ==> !self.advance().state(
                self.advance_call()->0.sock as int,
            ).in_flight(),
            self.advance_call()->0.request == self.advance().state(
                self.advance_call()->0.sock as int,
            ).spec_update_request()->0,
            self.advance_call()->0.overlapped == spec_into_overlapped(self.advance_call()->0.sock),
            forall|answer: Result<(), i32>| #[trigger]
                self.advance().answer_applies(Some(answer)),
        decreases self.update_queue.len(),
    {
        if self.update_queue.len() > 0 && !self.head_needs_call() {
            self.pop().reap(self.update_queue[0] as int).lemma_poll_for_idle_only();
        }
    }

    /// Once the kernel took the poll request of the update under way, it
    /// holds a request of that socket, and the state stays in its place.
    pub proof fn lemma_taken_request_is_held(self, answer: Result<(), i32>)
        requires
            self.answer_applies(Some(answer)),
            self.state(self.updating->0 as int).spec_update_request() matches Some(
                SockRequest::Poll { .. },
            ),
            SockState::accepted(answer),
        ensures
            self.resume(Some(answer)).occupied(self.updating->0 as int),
            self.resume(Some(answer)).state(self.updating->0 as int).poll_status
                == SockPollStatus::Pending,
    {
    }

    /// Whether an operation is the completion, seen or drained, of the
    /// request of the state at `sock`.
    pub open spec fn completes(self, op: SelectorOp, sock: usize) -> bool {
        match op {
            SelectorOp::Completion(completion) => self.completed_sock(completion) == Some(sock),
            SelectorOp::Drain(completion) => self.completed_sock(completion) == Some(sock),
            _ => false,
        }
    }

    /// Whether the kernel holds a request of the state at `sock`.
    pub open spec fn kernel_holds(self, sock: usize) -> bool {
        self.occupied(sock as int) && self.state(sock as int).in_flight()
    }

    proof fn lemma_reap_keeps_held(self, reaped: int, sock: usize)
        requires
            self.kernel_holds(sock),
        ensures
            self.reap(reaped).kernel_holds(sock),
            self.reap(reaped).state(sock as int) == self.state(sock as int),
    {
    }

    proof fn lemma_advance_keeps_held(self, sock: usize)
        requires
            self.kernel_holds(sock),
        ensures
            self.advance().kernel_holds(sock),
            self.advance().state(sock as int) == self.state(sock as int),
        decreases self.update_queue.len(),
    {
        if self.update_queue.len() > 0 && !self.head_needs_call() {
            let head = self.update_queue[0];
            self.pop().lemma_reap_keeps_held(head as int, sock);
            self.pop().reap(head as int).lemma_advance_keeps_held(sock);
        }
    }

    /// The kernel holds a request until it completes: whatever else is
    /// done to the selector, the state stays in its place, pending or
    /// cancelled. With `lemma_poll_for_idle_only` this is why no socket ever
    /// has two requests with the kernel.
    pub proof fn lemma_held_until_completed(self, op: SelectorOp, sock: usize)
        requires
            self.inv(),
            self.kernel_holds(sock),
            !self.completes(op, sock),
        ensures
            self.step(op).kernel_holds(sock),
    {
        match op {
            SelectorOp::Register { socket, base_socket, token, interests } => {
                lemma_first_free(self.socks, 0);
                let slot = first_free(self.socks, 0);
                assert(slot != sock);
            },
            SelectorOp::Reregister { socket, token, interests } => {
                lemma_first_holding(self.socks, socket, 0);
            },
            SelectorOp::Deregister { socket, answer } => {
                lemma_first_holding(self.socks, socket, 0);
                if let Some(slot) = self.slot_of(socket) {
                    let detached = SockSelectorView {
                        socks: self.socks.update(
                            slot as int,
                            Some(
                                SockEntry {
                                    state: self.state(slot as int).spec_mark_delete(answer),
                                    attached: false,
                                },
                            ),
                        ),
                        ..self
                    };
                    if slot == sock {
                        assert(detached.kernel_holds(sock));
                    }
                    detached.lemma_reap_keeps_held(slot as int, sock);
                }
            },
            SelectorOp::Update(answer) => {
                let resumed = self.resume(answer);
                assert(resumed.kernel_holds(sock));
                if self.resume_result(answer) is Ok {
                    resumed.lemma_advance_keeps_held(sock);
                }
            },
            SelectorOp::PollStart => {},
            SelectorOp::PollEnd => {},
            SelectorOp::Completion(completion) => {},
            SelectorOp::Drain(completion) => {},
        }
    }

    /// At teardown, the completion of a request whose socket was
    /// deregistered releases the state: its place is free, and the poll
    /// handle that served it counts one reference less.
    pub proof fn lemma_drain_releases(self, completion: CompletionStatus)
        requires
            self.inv(),
            self.completed_sock(completion) is Some,
            !self.socks[self.completed_sock(completion)->0 as int]->0.attached,
            !self.update_queue.contains(self.completed_sock(completion)->0),
            self.updating != self.completed_sock(completion),
        ensures
            !self.drain(completion).occupied(self.completed_sock(completion)->0 as int),
            self.drain(completion).afd_counts == after_release(
                self.afd_counts,
                self.state(self.completed_sock(completion)->0 as int).afd,
            ),
            self.drain(completion).afd_counts[self.state(
                self.completed_sock(completion)->0 as int,
            ).afd as int] == self.afd_counts[self.state(
                self.completed_sock(completion)->0 as int,
            ).afd as int] - 1,
    {
        let sock = self.completed_sock(completion)->0;
        let afd = self.state(sock as int).afd;
        assert(held(self.socks, sock as int));
        assert(count_ok(self.socks, self.afd_counts, afd as int));
        lemma_users_some(self.socks, sock as int, afd);
    }

    /// Whether the update under way asks for a poll request.
    pub open spec fn polls_next(self) -> bool {
        self.state(self.updating->0 as int).spec_update_request() matches Some(
            SockRequest::Poll { .. },
        )
    }

    /// The place whose poll request the kernel takes in an operation: that
    /// of the update under way, where the answer to its poll request is that
    /// the kernel took it.
    pub open spec fn submits(self, op: SelectorOp) -> Option<usize> {
        match op {
            SelectorOp::Update(Some(answer)) => if self.answer_applies(Some(answer))
                && self.polls_next() && SockState::accepted(answer) {
                self.updating
            } else {
                None
            },
            _ => None,
        }
    }

    /// The number of poll requests for the state at `sock` that the kernel
    /// took along a sequence of operations, less the number of their
    /// completions.
    pub open spec fn outstanding(self, ops: Seq<SelectorOp>, sock: usize) -> int
        decreases ops.len(),
    {
        if ops.len() == 0 {
            0
        } else {
            let before = self.run(ops.drop_last());
            self.outstanding(ops.drop_last(), sock) + (if before.submits(ops.last()) == Some(sock) {
                1int
            } else {
                0int
            }) - (if before.completes(ops.last(), sock) {
                1int
            } else {
                0int
            })
        }
    }

    proof fn lemma_reap_keeps_idle(self, reaped: int, sock: usize)
        requires
            !self.kernel_holds(sock),
        ensures
            !self.reap(reaped).kernel_holds(sock),
    {
    }

    proof fn lemma_advance_keeps_idle(self, sock: usize)
        requires
            !self.kernel_holds(sock),
        ensures
            !self.advance().kernel_holds(sock),
        decreases self.update_queue.len(),
    {
        if self.update_queue.len() > 0 && !self.head_needs_call() {
            let head = self.update_queue[0];
            self.pop().lemma_reap_keeps_idle(head as int, sock);
            self.pop().reap(head as int).lemma_advance_keeps_idle(sock);
        }
    }

    /// The kernel holds no request of a socket until it takes one: nothing
    /// but the answer that the kernel took the poll request makes a state
    /// pending.
    pub proof fn lemma_idle_until_taken(self, op: SelectorOp, sock: usize)
        requires
            self.inv(),
            !self.kernel_holds(sock),
            self.submits(op) != Some(sock),
        ensures
            !self.step(op).kernel_holds(sock),
    {
        match op {
            SelectorOp::Register { socket, base_socket, token, interests } => {
                lemma_first_free(self.socks, 0);
            },
            SelectorOp::Reregister { socket, token, interests } => {
                lemma_first_holding(self.socks, socket, 0);
            },
            SelectorOp::Deregister { socket, answer } => {
                lemma_first_holding(self.socks, socket, 0);
                if let Some(slot) = self.slot_of(socket) {
                    let detached = SockSelectorView {
                        socks: self.socks.update(
                            slot as int,
                            Some(
                                SockEntry {
                                    state: self.state(slot as int).spec_mark_delete(answer),
                                    attached: false,
                                },
                            ),
                        ),
                        ..self
                    };
                    assert(!detached.kernel_holds(sock));
                    detached.lemma_reap_keeps_idle(slot as int, sock);
                }
            },
            SelectorOp::Update(answer) => {
                let resumed = self.resume(answer);
                assert(!resumed.kernel_holds(sock));
                if self.resume_result(answer) is Ok {
                    resumed.lemma_advance_keeps_idle(sock);
                }
            },
            SelectorOp::PollStart => {},
            SelectorOp::PollEnd => {},
            SelectorOp::Completion(completion) => {},
            SelectorOp::Drain(completion) => {},
        }
    }

    /// The step at which the kernel takes the poll request of a socket
    /// finds the socket idle and leaves it pending.
    pub proof fn lemma_taken_when_idle(self, op: SelectorOp, sock: usize)
        requires
            self.inv(),
            self.submits(op) == Some(sock),
        ensures
            !self.kernel_holds(sock),
            self.step(op).kernel_holds(sock),
    {
        if let SelectorOp::Update(Some(answer)) = op {
            self.lemma_taken_request_is_held(answer);
            let resumed = self.resume(Some(answer));
            if self.resume_result(Some(answer)) is Ok {
                resumed.lemma_advance_keeps_held(sock);
            }
        }
    }

    /// The completion of the request of a socket leaves the socket idle,
    /// or its place free.
    pub proof fn lemma_completed_is_idle(self, op: SelectorOp, sock: usize)
        requires
            self.completes(op, sock),
        ensures
            self.kernel_holds(sock),
            !self.step(op).kernel_holds(sock),
    {
    }

    /// No socket ever has two poll requests with the kernel. Along any
    /// sequence of registrations, updates, waits and completions, for every
    /// place, the requests that the kernel took less those that completed
    /// number one while the state there is pending or cancelled, and none
    /// otherwise.
    pub proof fn lemma_at_most_one_request_per_socket(self, ops: Seq<SelectorOp>, sock: usize)
        requires
            self.inv(),
            self.fits(ops),
            !self.kernel_holds(sock),
        ensures
            self.outstanding(ops, sock) == (if self.run(ops).kernel_holds(sock) {
                1int
            } else {
                0int
            }),
            0 <= self.outstanding(ops, sock) <= 1,
        decreases ops.len(),
    {
        if ops.len() > 0 {
            let before = ops.drop_last();
            assert forall|k: int| 0 <= k <= before.len() implies (#[trigger] self.run(
                before.take(k),
            )).socks.len() <= usize::MAX && self.run(before.take(k)).afd_counts.len()
                <= usize::MAX by {
                assert(before.take(k) == ops.take(k));
            }
            self.lemma_at_most_one_request_per_socket(before, sock);
            self.lemma_always_in_order(before);
            let at = self.run(before);
            let op = ops.last();
            if at.submits(op) == Some(sock) {
                at.lemma_taken_when_idle(op, sock);
            } else if at.completes(op, sock) {
                at.lemma_completed_is_idle(op, sock);
            } else if at.kernel_holds(sock) {
                at.lemma_held_until_completed(op, sock);
            } else {
                at.lemma_idle_until_taken(op, sock);
            }
        }
    }
}

} // verus!
