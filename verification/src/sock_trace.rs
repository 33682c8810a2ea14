//! What holds of a socket over any sequence of operations.

use vstd::prelude::*;
use crate::afd::{AfdPollInfo, IoStatusBlock, READABLE_FLAGS, WRITABLE_FLAGS};
use crate::event::Event;
use crate::sock_state::{SockRequest, SockState};

verus! {

/// One thing that happens to the poll state of a socket.
pub enum SockOp {
    /// The caller registers, or registers again, with these flags and value.
    SetEvent(Event),
    /// The state is updated; the kernel gave this answer to the call that
    /// was due.
    Update(Result<(), i32>),
    /// The state is marked for release; the kernel gave this answer to the
    /// cancellation, if one was due.
    MarkDelete(Result<(), i32>),
    /// A request completes; the kernel left these blocks.
    Completion(IoStatusBlock, AfdPollInfo),
}

/// Whether an event is there and carries a flag of `mask`.
pub open spec fn reports(event: Option<Event>, mask: u32) -> bool {
    event matches Some(e) && e.flags & mask != 0
}

impl SockState {
    /// The state after one operation. A state marked for release is not
    /// updated any more.
    pub open spec fn step(self, op: SockOp) -> SockState {
        match op {
            SockOp::SetEvent(ev) => self.spec_set_event(ev),
            SockOp::Update(answer) => if self.delete_pending {
                self
            } else {
                self.spec_update(answer)
            },
            SockOp::MarkDelete(answer) => self.spec_mark_delete(answer),
            SockOp::Completion(iosb, poll_info) => self.with_blocks(iosb, poll_info).spec_feed_event(),
        }
    }

    /// The event that one operation hands to the caller.
    pub open spec fn step_event(self, op: SockOp) -> Option<Event> {
        match op {
            SockOp::Completion(iosb, poll_info) => self.with_blocks(iosb, poll_info).spec_fed_event(),
            _ => None,
        }
    }

    /// Whether one operation hands a poll request to the kernel, which takes
    /// it.
    pub open spec fn step_submits(self, op: SockOp) -> bool {
        &&& op matches SockOp::Update(answer)
        &&& !self.delete_pending
        &&& self.spec_update_request() matches Some(SockRequest::Poll { .. })
        &&& Self::accepted(answer)
    }

    /// The state after a sequence of operations.
    pub open spec fn run(self, ops: Seq<SockOp>) -> SockState
        decreases ops.len(),
    {
        if ops.len() == 0 {
            self
        } else {
            self.run(ops.drop_last()).step(ops.last())
        }
    }

    /// The number of poll requests that the kernel took along a sequence of
    /// operations, less the number of completions.
    pub open spec fn outstanding(self, ops: Seq<SockOp>) -> int
        decreases ops.len(),
    {
        if ops.len() == 0 {
            0
        } else {
            let before = self.run(ops.drop_last());
            self.outstanding(ops.drop_last()) + (if before.step_submits(ops.last()) {
                1int
            } else {
                0int
            }) - (if ops.last() is Completion {
                1int
            } else {
                0int
            })
        }
    }

    /// Whether every completion in a sequence of operations comes while the
    /// kernel holds a request: the kernel completes nothing that it was not
    /// given.
    pub open spec fn completions_answer_requests(self, ops: Seq<SockOp>) -> bool {
        forall|k: int|
            0 <= k < ops.len() && #[trigger] ops[k] is Completion ==> self.run(
                ops.take(k),
            ).in_flight()
    }

    /// A socket has at most one poll request with the kernel: along any
    /// sequence of operations on an idle socket, in which the kernel
    /// completes only what it was given, the requests taken and not yet
    /// completed number one while the state is pending or cancelled, and
    /// none while it is idle.
    pub proof fn lemma_at_most_one_request(self, ops: Seq<SockOp>)
        requires
            !self.in_flight(),
            self.completions_answer_requests(ops),
        ensures
            self.outstanding(ops) == (if self.run(ops).in_flight() {
                1int
            } else {
                0int
            }),
            0 <= self.outstanding(ops) <= 1,
        decreases ops.len(),
    {
        if ops.len() > 0 {
            let before = ops.drop_last();
            assert forall|k: int| 0 <= k < before.len() && #[trigger] before[k] is Completion implies self.run(
                before.take(k),
            ).in_flight() by {
                assert(before.take(k) == ops.take(k));
                assert(ops[k] is Completion);
            }
            self.lemma_at_most_one_request(before);
            let k = ops.len() - 1;
            assert(ops.take(k) == before);
            assert(ops[k] == ops.last());
        }
    }

    /// A poll request is submitted only for an idle socket.
    pub proof fn lemma_submits_only_when_idle(self, op: SockOp)
        requires
            self.step_submits(op),
        ensures
            !self.in_flight(),
            self.step(op).in_flight(),
    {
    }

    /// Readiness is reported once: after an event with a readable flag,
    /// no later completion reports a readable flag until the caller
    /// registers again; the same holds of the writable flag. `first` and
    /// `second` are two places in `ops` at which requests complete, and no
    /// operation between them is a registration.
    pub proof fn lemma_reported_once(self, ops: Seq<SockOp>, first: int, second: int)
        requires
            0 <= first < second < ops.len(),
            ops[first] is Completion,
            ops[second] is Completion,
            forall|k: int| first < k < second ==> !(#[trigger] ops[k] is SetEvent),
        ensures
            ({
                let early = self.run(ops.take(first)).step_event(ops[first]);
                let late = self.run(ops.take(second)).step_event(ops[second]);
                &&& reports(early, READABLE_FLAGS) ==> !reports(late, READABLE_FLAGS)
                &&& reports(early, WRITABLE_FLAGS) ==> !reports(late, WRITABLE_FLAGS)
            }),
    {
        let at_first = self.run(ops.take(first));
        let early = at_first.step_event(ops[first]);
        let after_first = self.run(ops.take(first + 1));
        assert(ops.take(first + 1).drop_last() == ops.take(first));
        assert(ops.take(first + 1).last() == ops[first]);
        assert(after_first == at_first.step(ops[first]));
        let at_second = self.run(ops.take(second));
        if reports(early, READABLE_FLAGS) {
            Self::lemma_completion_clears(at_first, ops[first]);
            self.lemma_cleared_stays(ops, first + 1, second, READABLE_FLAGS);
            Self::lemma_event_within_interest(at_second, ops[second], READABLE_FLAGS);
        }
        if reports(early, WRITABLE_FLAGS) {
            Self::lemma_completion_clears(at_first, ops[first]);
            self.lemma_cleared_stays(ops, first + 1, second, WRITABLE_FLAGS);
            Self::lemma_event_within_interest(at_second, ops[second], WRITABLE_FLAGS);
        }
    }

    /// A completion that reports a readable flag leaves no readable flag
    /// wanted, and likewise for writable.
    proof fn lemma_completion_clears(state: SockState, op: SockOp)
        requires
            op is Completion,
        ensures
            reports(state.step_event(op), READABLE_FLAGS) ==> state.step(op).user_evts
                & READABLE_FLAGS == 0,
            reports(state.step_event(op), WRITABLE_FLAGS) ==> state.step(op).user_evts
                & WRITABLE_FLAGS == 0,
    {
        let u = state.user_evts;
        assert((u & !READABLE_FLAGS) & READABLE_FLAGS == 0) by (bit_vector);
        assert(((u & !READABLE_FLAGS) & !WRITABLE_FLAGS) & READABLE_FLAGS == 0) by (bit_vector);
        assert((u & !WRITABLE_FLAGS) & WRITABLE_FLAGS == 0) by (bit_vector);
        assert(((u & !READABLE_FLAGS) & !WRITABLE_FLAGS) & WRITABLE_FLAGS == 0) by (bit_vector);
    }

    /// An event carries only flags that were wanted.
    proof fn lemma_event_within_interest(state: SockState, op: SockOp, mask: u32)
        requires
            state.user_evts & mask == 0,
        ensures
            !reports(state.step_event(op), mask),
    {
        if let SockOp::Completion(iosb, poll_info) = op {
            let fed = state.with_blocks(iosb, poll_info);
            let r = fed.reported_events();
            let u = state.user_evts;
            assert(u & mask == 0 ==> (r & u) & mask == 0) by (bit_vector);
        }
    }

    /// Flags that are not wanted stay unwanted while nobody registers.
    proof fn lemma_cleared_stays(self, ops: Seq<SockOp>, from: int, to: int, mask: u32)
        requires
            0 <= from <= to <= ops.len(),
            self.run(ops.take(from)).user_evts & mask == 0,
            forall|k: int| from <= k < to ==> !(#[trigger] ops[k] is SetEvent),
        ensures
            self.run(ops.take(to)).user_evts & mask == 0,
        decreases to - from,
    {
        if from < to {
            self.lemma_cleared_stays(ops, from, to - 1, mask);
            let before = self.run(ops.take(to - 1));
            assert(ops.take(to).drop_last() == ops.take(to - 1));
            assert(ops.take(to).last() == ops[to - 1]);
            let u = before.user_evts;
            assert(u & mask == 0 ==> (u & !READABLE_FLAGS) & mask == 0) by (bit_vector);
            assert(u & mask == 0 ==> (u & !WRITABLE_FLAGS) & mask == 0) by (bit_vector);
            assert(u & mask == 0 ==> ((u & !READABLE_FLAGS) & !WRITABLE_FLAGS) & mask == 0)
                by (bit_vector);
        }
    }
}

} // verus!
