//! What holds of the sockets of a selector whatever happens to them.

use vstd::prelude::*;
use crate::afd_group::{
    lemma_trimmed, lemma_trimmed_last, next_member, pool_ok, trimmed, POLL_GROUP_MAX_GROUP_SIZE,
};
use crate::interest::{Interest, Token};
use crate::sock_selector::{
    first_free, first_holding, holds_socket, registration_event, CompletionStatus, SockEntry,
    SockSelectorView,
};
use crate::sock_state::SockState;

verus! {

/// Whether a place holds the state of a socket that the poll handle `afd`
/// serves.
pub open spec fn uses(entry: Option<SockEntry>, afd: usize) -> bool {
    entry matches Some(e) && e.state.afd == afd
}

/// The number of sockets that the poll handle `afd` serves.
pub open spec fn users(socks: Seq<Option<SockEntry>>, afd: usize) -> nat
    decreases socks.len(),
{
    if socks.len() == 0 {
        0
    } else {
        users(socks.drop_last(), afd) + (if uses(socks.last(), afd) {
            1nat
        } else {
            0nat
        })
    }
}

/// Whether the count of the member `afd` is what it should be: a member
/// that is alive counts its sockets and one for the pool, a reclaimed one
/// serves none.
pub open spec fn count_ok(socks: Seq<Option<SockEntry>>, counts: Seq<usize>, afd: int) -> bool {
    if counts[afd] == 0 {
        users(socks, afd as usize) == 0
    } else {
        counts[afd] == users(socks, afd as usize) + 1
    }
}

proof fn lemma_users_push(socks: Seq<Option<SockEntry>>, entry: Option<SockEntry>, afd: usize)
    ensures
        users(socks.push(entry), afd) == users(socks, afd) + (if uses(entry, afd) {
            1nat
        } else {
            0nat
        }),
{
    assert(socks.push(entry).drop_last() == socks);
}

proof fn lemma_users_update(
    socks: Seq<Option<SockEntry>>,
    i: int,
    entry: Option<SockEntry>,
    afd: usize,
)
    requires
        0 <= i < socks.len(),
    ensures
        users(socks.update(i, entry), afd) + (if uses(socks[i], afd) {
            1nat
        } else {
            0nat
        }) == users(socks, afd) + (if uses(entry, afd) {
            1nat
        } else {
            0nat
        }),
    decreases socks.len(),
{
    if i == socks.len() - 1 {
        assert(socks.update(i, entry).drop_last() == socks.drop_last());
    } else {
        assert(socks.update(i, entry).drop_last() == socks.drop_last().update(i, entry));
        lemma_users_update(socks.drop_last(), i, entry, afd);
    }
}

proof fn lemma_users_none(socks: Seq<Option<SockEntry>>, afd: usize)
    requires
        forall|i: int| 0 <= i < socks.len() ==> !uses(#[trigger] socks[i], afd),
    ensures
        users(socks, afd) == 0,
    decreases socks.len(),
{
    if socks.len() > 0 {
        assert(!uses(socks[socks.len() - 1], afd));
        lemma_users_none(socks.drop_last(), afd);
    }
}

pub proof fn lemma_users_some(socks: Seq<Option<SockEntry>>, i: int, afd: usize)
    requires
        0 <= i < socks.len(),
        uses(socks[i], afd),
    ensures
        users(socks, afd) >= 1,
    decreases socks.len(),
{
    if i < socks.len() - 1 {
        lemma_users_some(socks.drop_last(), i, afd);
    }
}

/// The first place that holds a socket holds it, and no place before it
/// does; where there is none, no place holds it.
pub proof fn lemma_first_holding(socks: Seq<Option<SockEntry>>, socket: u64, from: int)
    requires
        0 <= from,
        socks.len() <= usize::MAX,
    ensures
        match first_holding(socks, socket, from) {
            Some(slot) => from <= slot < socks.len() && holds_socket(socks[slot as int], socket),
            None => forall|i: int| from <= i < socks.len() ==> !holds_socket(#[trigger] socks[i], socket),
        },
    decreases socks.len() - from,
{
    if from < socks.len() && !holds_socket(socks[from], socket) {
        lemma_first_holding(socks, socket, from + 1);
    }
}

/// The first free place is free, unless it is the length.
pub proof fn lemma_first_free(socks: Seq<Option<SockEntry>>, from: int)
    requires
        0 <= from,
    ensures
        from <= first_free(socks, from) || first_free(socks, from) == socks.len(),
        0 <= first_free(socks, from) <= socks.len(),
        first_free(socks, from) < socks.len() ==> socks[first_free(socks, from)] is None,
    decreases socks.len() - from,
{
    if from < socks.len() && socks[from] is Some {
        lemma_first_free(socks, from + 1);
    }
}

/// Whether a place holds a poll state.
pub open spec fn held(socks: Seq<Option<SockEntry>>, sock: int) -> bool {
    0 <= sock < socks.len() && socks[sock] is Some
}

/// Whether no two registered sockets are the same.
pub open spec fn sockets_distinct(socks: Seq<Option<SockEntry>>) -> bool {
    forall|i: int, j: int|
        #![trigger socks[i], socks[j]]
        held(socks, i) && held(socks, j) && i != j && socks[i]->0.attached && socks[j]->0.attached
            ==> socks[i]->0.state.raw_socket != socks[j]->0.state.raw_socket
}

/// Whether the pool counts its references rightly: each member that is
/// alive one for the pool and one for each state that it serves, and no
/// state is served by a member that is not there.
pub open spec fn pool_counts_users(socks: Seq<Option<SockEntry>>, counts: Seq<usize>) -> bool {
    &&& socks.len() <= usize::MAX
    &&& counts.len() <= usize::MAX
    &&& pool_ok(counts)
    &&& forall|i: int| #[trigger] held(socks, i) ==> socks[i]->0.state.afd < counts.len()
    &&& forall|a: int| 0 <= a < counts.len() ==> #[trigger] count_ok(socks, counts, a)
}

/// Whether every place on the queue holds a state.
pub open spec fn queue_held(socks: Seq<Option<SockEntry>>, queue: Seq<usize>) -> bool {
    forall|k: int| 0 <= k < queue.len() ==> held(socks, #[trigger] queue[k] as int)
}

/// Whether somebody refers to the state at a place: the socket, the
/// kernel, the queue, or the update that is under way.
pub open spec fn referred(
    socks: Seq<Option<SockEntry>>,
    queue: Seq<usize>,
    updating: Option<usize>,
    sock: int,
) -> bool {
    socks[sock]->0.attached || socks[sock]->0.state.in_flight() || queue.contains(sock as usize)
        || updating == Some(sock as usize)
}

/// Whether somebody refers to every state that is held, but for the one
/// at `hole`.
pub open spec fn none_lost(
    socks: Seq<Option<SockEntry>>,
    queue: Seq<usize>,
    updating: Option<usize>,
    hole: int,
) -> bool {
    forall|i: int| #[trigger] held(socks, i) && i != hole ==> referred(socks, queue, updating, i)
}

impl SockSelectorView {
    /// Whether all is in order, but that the state at `hole` may be one
    /// that nobody refers to.
    pub open spec fn inv_but(self, hole: int) -> bool {
        &&& pool_counts_users(self.socks, self.afd_counts)
        &&& sockets_distinct(self.socks)
        &&& queue_held(self.socks, self.update_queue)
        &&& (self.updating matches Some(u) ==> held(self.socks, u as int))
        &&& none_lost(self.socks, self.update_queue, self.updating, hole)
    }

    /// Whether all is in order:
    /// - no member of the pool serves more sockets than it may, and each
    ///   counts one reference for the pool and one for each state that it
    ///   serves;
    /// - every place on the queue, and the place of the update under way,
    ///   holds a state;
    /// - somebody refers to every state that is held: the socket, the
    ///   kernel, the queue or the update under way;
    /// - no two registered sockets are the same.
    pub open spec fn inv(self) -> bool {
        self.inv_but(-1)
    }

    /// The selector without the head of its queue.
    pub open spec fn pop(self) -> SockSelectorView {
        SockSelectorView {
            update_queue: self.update_queue.subrange(1, self.update_queue.len() as int),
            ..self
        }
    }
}

/// Another entry at a place that is held, for the same socket and the same
/// poll handle, leaves the pool and the queue in order.
proof fn lemma_replace(
    socks: Seq<Option<SockEntry>>,
    counts: Seq<usize>,
    queue: Seq<usize>,
    sock: int,
    entry: SockEntry,
)
    requires
        held(socks, sock),
        entry.state.afd == socks[sock]->0.state.afd,
        entry.state.raw_socket == socks[sock]->0.state.raw_socket,
        entry.attached ==> socks[sock]->0.attached,
        pool_counts_users(socks, counts),
        sockets_distinct(socks),
        queue_held(socks, queue),
    ensures
        pool_counts_users(socks.update(sock, Some(entry)), counts),
        sockets_distinct(socks.update(sock, Some(entry))),
        queue_held(socks.update(sock, Some(entry)), queue),
        forall|i: int| held(socks.update(sock, Some(entry)), i) <==> held(socks, i),
{
    let after = socks.update(sock, Some(entry));
    assert forall|i: int| held(after, i) <==> held(socks, i) by {}
    assert forall|i: int| #[trigger] held(after, i) implies after[i]->0.state.afd < counts.len() by {
        assert(held(socks, i));
    }
    assert forall|a: int| 0 <= a < counts.len() implies #[trigger] count_ok(after, counts, a) by {
        assert(count_ok(socks, counts, a));
        lemma_users_update(socks, sock, Some(entry), a as usize);
    }
    assert forall|i: int, j: int|
        #![trigger after[i], after[j]]
        held(after, i) && held(after, j) && i != j && after[i]->0.attached && after[j]->0.attached
            implies after[i]->0.state.raw_socket != after[j]->0.state.raw_socket by {
        let _ = (socks[i], socks[j]);
    }
    assert forall|k: int| 0 <= k < queue.len() implies held(after, #[trigger] queue[k] as int) by {
        assert(held(socks, queue[k] as int));
    }
}

/// One more place on the queue takes no reference away.
proof fn lemma_push_keeps(queue: Seq<usize>, sock: usize, other: usize)
    ensures
        queue.contains(other) ==> queue.push(sock).contains(other),
        queue.push(sock).contains(sock),
{
    assert(queue.push(sock)[queue.len() as int] == sock);
    if queue.contains(other) {
        let k = choose|k: int| 0 <= k < queue.len() && queue[k] == other;
        assert(queue.push(sock)[k] == other);
    }
}

/// Without its head the queue still refers to every other place.
proof fn lemma_pop_keeps(queue: Seq<usize>, other: usize)
    requires
        queue.len() > 0,
        queue[0] != other,
    ensures
        queue.contains(other) ==> queue.subrange(1, queue.len() as int).contains(other),
{
    if queue.contains(other) {
        let k = choose|k: int| 0 <= k < queue.len() && queue[k] == other;
        assert(queue.subrange(1, queue.len() as int)[k - 1] == other);
    }
}

impl SockSelectorView {
    proof fn lemma_with_state(self, sock: int, state: SockState)
        requires
            self.inv_but(sock),
            self.occupied(sock),
            state.afd == self.state(sock).afd,
            state.raw_socket == self.state(sock).raw_socket,
        ensures
            self.with_state(sock, state).inv_but(sock),
            self.with_state(sock, state).occupied(sock),
    {
        let entry = SockEntry { state, attached: self.socks[sock]->0.attached };
        lemma_replace(self.socks, self.afd_counts, self.update_queue, sock, entry);
        let after = self.with_state(sock, state);
        assert forall|i: int| #[trigger] held(after.socks, i) && i != sock implies referred(
            after.socks,
            after.update_queue,
            after.updating,
            i,
        ) by {
            assert(held(self.socks, i));
        }
    }

    proof fn lemma_detach(self, sock: int, state: SockState)
        requires
            self.inv(),
            self.occupied(sock),
            state.afd == self.state(sock).afd,
            state.raw_socket == self.state(sock).raw_socket,
        ensures
            (SockSelectorView {
                socks: self.socks.update(sock, Some(SockEntry { state, attached: false })),
                ..self
            }).inv_but(sock),
    {
        let entry = SockEntry { state, attached: false };
        lemma_replace(self.socks, self.afd_counts, self.update_queue, sock, entry);
        let after = self.socks.update(sock, Some(entry));
        assert forall|i: int| #[trigger] held(after, i) && i != sock implies referred(
            after,
            self.update_queue,
            self.updating,
            i,
        ) by {
            assert(held(self.socks, i));
        }
    }

    proof fn lemma_enqueue(self, sock: usize)
        requires
            self.inv_but(sock as int),
            self.occupied(sock as int),
        ensures
            self.enqueue(sock).inv(),
    {
        let after = self.enqueue(sock);
        assert forall|k: int| 0 <= k < after.update_queue.len() implies held(
            after.socks,
            #[trigger] after.update_queue[k] as int,
        ) by {
            if k < self.update_queue.len() {
                assert(held(self.socks, self.update_queue[k] as int));
            }
        }
        assert forall|i: int| #[trigger] held(after.socks, i) && i != -1 implies referred(
            after.socks,
            after.update_queue,
            after.updating,
            i,
        ) by {
            lemma_push_keeps(self.update_queue, sock, i as usize);
        }
    }

    proof fn lemma_pop(self)
        requires
            self.inv(),
            self.update_queue.len() > 0,
        ensures
            self.pop().inv_but(self.update_queue[0] as int),
            self.occupied(self.update_queue[0] as int),
    {
        let after = self.pop();
        let head = self.update_queue[0];
        assert(held(self.socks, self.update_queue[0] as int));
        assert forall|k: int| 0 <= k < after.update_queue.len() implies held(
            after.socks,
            #[trigger] after.update_queue[k] as int,
        ) by {
            assert(held(self.socks, self.update_queue[k + 1] as int));
        }
        assert forall|i: int| #[trigger] held(after.socks, i) && i != head as int implies referred(
            after.socks,
            after.update_queue,
            after.updating,
            i,
        ) by {
            lemma_pop_keeps(self.update_queue, i as usize);
        }
    }

    proof fn lemma_set_updating(self, sock: usize)
        requires
            self.inv_but(sock as int),
            self.occupied(sock as int),
            self.updating is None,
        ensures
            (SockSelectorView { updating: Some(sock), ..self }).inv(),
    {
    }

    proof fn lemma_clear_updating(self)
        requires
            self.inv(),
            self.updating is Some,
        ensures
            (SockSelectorView { updating: None, ..self }).inv_but(self.updating->0 as int),
    {
    }

    pub proof fn lemma_reap(self, sock: int)
        requires
            self.inv_but(sock),
        ensures
            self.reap(sock).inv(),
            self.reap(sock).updating == self.updating,
            self.reap(sock).update_queue == self.update_queue,
    {
        let after = self.reap(sock);
        if self.occupied(sock) && !self.referenced(sock) {
            let afd = self.state(sock).afd;
            assert(held(self.socks, sock));
            assert(count_ok(self.socks, self.afd_counts, afd as int));
            lemma_users_some(self.socks, sock, afd);
            assert forall|i: int| #[trigger] held(after.socks, i) implies after.socks[i]->0.state.afd
                < after.afd_counts.len() by {
                assert(held(self.socks, i));
            }
            assert forall|a: int| 0 <= a < after.afd_counts.len() implies #[trigger] count_ok(
                after.socks,
                after.afd_counts,
                a,
            ) by {
                assert(count_ok(self.socks, self.afd_counts, a));
                lemma_users_update(self.socks, sock, None, a as usize);
            }
            assert forall|i: int, j: int|
                #![trigger after.socks[i], after.socks[j]]
                held(after.socks, i) && held(after.socks, j) && i != j && after.socks[i]->0.attached
                    && after.socks[j]->0.attached implies after.socks[i]->0.state.raw_socket
                != after.socks[j]->0.state.raw_socket by {
                let _ = (self.socks[i], self.socks[j]);
            }
            assert forall|k: int| 0 <= k < after.update_queue.len() implies held(
                after.socks,
                #[trigger] after.update_queue[k] as int,
            ) by {
                assert(held(self.socks, self.update_queue[k] as int));
            }
            assert forall|i: int| #[trigger] held(after.socks, i) && i != -1 implies referred(
                after.socks,
                after.update_queue,
                after.updating,
                i,
            ) by {
                assert(held(self.socks, i));
            }
        } else {
            assert forall|i: int| #[trigger] held(self.socks, i) && i != -1 implies referred(
                self.socks,
                self.update_queue,
                self.updating,
                i,
            ) by {}
        }
    }

    proof fn lemma_release_unused(self)
        requires
            self.inv(),
        ensures
            self.release_unused().inv(),
    {
        let after = self.release_unused();
        let marked = Seq::new(
            self.afd_counts.len(),
            |i: int|
                if self.afd_counts[i] == 1 {
                    0usize
                } else {
                    self.afd_counts[i]
                },
        );
        assert(after.afd_counts == trimmed(marked));
        lemma_trimmed_last(marked);
        if marked.len() > 0 {
            lemma_trimmed(marked, 0);
        }
        assert forall|i: int| 0 <= i < after.afd_counts.len() implies #[trigger] after.afd_counts[i]
            <= POLL_GROUP_MAX_GROUP_SIZE + 1 by {
            lemma_trimmed(marked, i);
        }
        assert forall|i: int| #[trigger] held(after.socks, i) implies after.socks[i]->0.state.afd
            < after.afd_counts.len() by {
            let afd = self.socks[i]->0.state.afd;
            assert(count_ok(self.socks, self.afd_counts, afd as int));
            lemma_users_some(self.socks, i, afd);
            lemma_trimmed(marked, afd as int);
        }
        assert forall|a: int| 0 <= a < after.afd_counts.len() implies #[trigger] count_ok(
            after.socks,
            after.afd_counts,
            a,
        ) by {
            lemma_trimmed(marked, a);
            assert(count_ok(self.socks, self.afd_counts, a));
        }
    }
}

impl SockSelectorView {
    /// Registration keeps the selector in order. The places and the pool
    /// must still fit the machine afterwards.
    pub proof fn lemma_register_inv(
        self,
        socket: u64,
        base_socket: u64,
        token: Token,
        interests: Interest,
    )
        requires
            self.inv(),
            self.register(socket, base_socket, token, interests).socks.len() <= usize::MAX,
            self.register(socket, base_socket, token, interests).afd_counts.len() <= usize::MAX,
        ensures
            self.register(socket, base_socket, token, interests).inv(),
    {
        let after = self.register(socket, base_socket, token, interests);
        lemma_first_holding(self.socks, socket, 0);
        lemma_first_free(self.socks, 0);
        if self.slot_of(socket) is None {
            let afd = next_member(self.afd_counts) as usize;
            let slot = first_free(self.socks, 0);
            let entry = after.socks[slot];
            assert(entry is Some && entry->0.attached && entry->0.state.afd == afd
                && entry->0.state.raw_socket == socket);
            assert forall|i: int| held(after.socks, i) <==> (held(self.socks, i) || i == slot) by {}
            assert forall|i: int| held(self.socks, i) implies after.socks[i] == self.socks[i] by {}
            assert forall|i: int| #[trigger] held(after.socks, i) implies after.socks[i]->0.state.afd
                < after.afd_counts.len() by {
                if i != slot {
                    assert(held(self.socks, i));
                }
            }
            assert forall|a: int| 0 <= a < after.afd_counts.len() implies #[trigger] count_ok(
                after.socks,
                after.afd_counts,
                a,
            ) by {
                if slot < self.socks.len() {
                    lemma_users_update(self.socks, slot, entry, a as usize);
                } else {
                    lemma_users_push(self.socks, entry, a as usize);
                }
                if a < self.afd_counts.len() {
                    assert(count_ok(self.socks, self.afd_counts, a));
                } else {
                    assert forall|i: int| 0 <= i < self.socks.len() implies !uses(
                        #[trigger] self.socks[i],
                        a as usize,
                    ) by {
                        if self.socks[i] is Some {
                            assert(held(self.socks, i));
                        }
                    }
                    lemma_users_none(self.socks, a as usize);
                }
            }
            assert forall|i: int, j: int|
                #![trigger after.socks[i], after.socks[j]]
                held(after.socks, i) && held(after.socks, j) && i != j && after.socks[i]->0.attached
                    && after.socks[j]->0.attached implies after.socks[i]->0.state.raw_socket
                != after.socks[j]->0.state.raw_socket by {
                if i != slot && j != slot {
                    let _ = (self.socks[i], self.socks[j]);
                } else if i == slot {
                    assert(!holds_socket(self.socks[j], socket));
                } else {
                    assert(!holds_socket(self.socks[i], socket));
                }
            }
            assert forall|k: int| 0 <= k < after.update_queue.len() implies held(
                after.socks,
                #[trigger] after.update_queue[k] as int,
            ) by {
                if k < self.update_queue.len() {
                    assert(held(self.socks, self.update_queue[k] as int));
                }
            }
            assert forall|i: int| #[trigger] held(after.socks, i) && i != -1 implies referred(
                after.socks,
                after.update_queue,
                after.updating,
                i,
            ) by {
                if i != slot {
                    assert(held(self.socks, i));
                    lemma_push_keeps(self.update_queue, slot as usize, i as usize);
                }
            }
        }
    }

    /// Registering again keeps the selector in order.
    pub proof fn lemma_reregister_inv(self, socket: u64, token: Token, interests: Interest)
        requires
            self.inv(),
        ensures
            self.reregister(socket, token, interests).inv(),
    {
        lemma_first_holding(self.socks, socket, 0);
        if let Some(slot) = self.slot_of(socket) {
            let state = self.state(slot as int).spec_set_event(registration_event(token, interests));
            self.lemma_with_state(slot as int, state);
            self.with_state(slot as int, state).lemma_enqueue(slot);
        }
    }

    /// Deregistration keeps the selector in order.
    pub proof fn lemma_deregister_inv(self, socket: u64, answer: Result<(), i32>)
        requires
            self.inv(),
        ensures
            self.deregister(socket, answer).inv(),
    {
        lemma_first_holding(self.socks, socket, 0);
        if let Some(slot) = self.slot_of(socket) {
            let state = self.state(slot as int).spec_mark_delete(answer);
            let detached = SockSelectorView {
                socks: self.socks.update(slot as int, Some(SockEntry { state, attached: false })),
                ..self
            };
            self.lemma_detach(slot as int, state);
            detached.lemma_reap(slot as int);
            detached.reap(slot as int).lemma_release_unused();
        }
    }

    /// The answer of the kernel keeps the selector in order, and ends the
    /// update that was under way.
    pub proof fn lemma_resume_inv(self, answer: Option<Result<(), i32>>)
        requires
            self.inv(),
        ensures
            self.resume(answer).inv(),
            self.resume(answer).updating is None,
    {
        if let Some(sock) = self.updating {
            let cleared = SockSelectorView { updating: None, ..self };
            self.lemma_clear_updating();
            if self.answer_applies(answer) {
                let state = self.state(sock as int).spec_update(answer->0);
                cleared.lemma_with_state(sock as int, state);
                cleared.with_state(sock as int, state).lemma_reap(sock as int);
            } else {
                cleared.lemma_reap(sock as int);
            }
        }
    }

    /// Working off the queue keeps the selector in order.
    pub proof fn lemma_advance_inv(self)
        requires
            self.inv(),
            self.updating is None,
        ensures
            self.advance().inv(),
        decreases self.update_queue.len(),
    {
        if self.update_queue.len() == 0 {
            self.lemma_release_unused();
        } else {
            let sock = self.update_queue[0];
            self.lemma_pop();
            if self.head_needs_call() {
                self.pop().lemma_set_updating(sock);
            } else {
                self.pop().lemma_reap(sock as int);
                self.pop().reap(sock as int).lemma_advance_inv();
            }
        }
    }

    /// A round of updates keeps the selector in order at each of its
    /// steps.
    pub proof fn lemma_flush_inv(self, answer: Option<Result<(), i32>>)
        requires
            self.inv(),
        ensures
            self.flush(answer).inv(),
    {
        self.lemma_resume_inv(answer);
        if self.resume_result(answer) is Ok {
            self.resume(answer).lemma_advance_inv();
        }
    }

    /// A completion keeps the selector in order.
    pub proof fn lemma_handle_completion_inv(self, completion: CompletionStatus)
        requires
            self.inv(),
        ensures
            self.handle_completion(completion).inv(),
    {
        if let Some(sock) = self.completed_sock(completion) {
            let fed = self.state(sock as int).with_blocks(
                completion.iosb,
                completion.poll_info,
            ).spec_feed_event();
            self.lemma_with_state(sock as int, fed);
            let after = self.with_state(sock as int, fed);
            if fed.delete_pending {
                after.lemma_reap(sock as int);
                after.reap(sock as int).lemma_release_unused();
            } else {
                after.lemma_enqueue(sock);
                after.enqueue(sock).lemma_release_unused();
            }
        }
    }

    /// Taking a completion off the port at teardown keeps the selector in
    /// order.
    pub proof fn lemma_drain_inv(self, completion: CompletionStatus)
        requires
            self.inv(),
        ensures
            self.drain(completion).inv(),
    {
        if let Some(sock) = self.completed_sock(completion) {
            let state = self.state(sock as int).spec_abandon();
            self.lemma_with_state(sock as int, state);
            self.with_state(sock as int, state).lemma_reap(sock as int);
        }
    }
}

} // verus!
