//! The pool of poll handles.
//!
//! Sockets share poll handles, so that the kernel has few of them to keep.
//! A member of the pool serves up to `POLL_GROUP_MAX_GROUP_SIZE` sockets. A
//! member is named by the place at which it was allocated, and keeps that
//! name for as long as it lives.

use vstd::prelude::*;

verus! {

/// The number of sockets that one member of the pool serves at most.
pub const POLL_GROUP_MAX_GROUP_SIZE: usize = 32;

/// The pool of poll handles, as the reference count of each member that was
/// ever allocated and is not forgotten: the pool's own reference and one for
/// each socket that the member serves. A count of zero stands for a member
/// that was reclaimed.
#[derive(Debug)]
pub struct AfdGroup {
    counts: Vec<usize>,
}

impl View for AfdGroup {
    type V = Seq<usize>;

    closed spec fn view(&self) -> Seq<usize> {
        self.counts@
    }
}

/// The counts without the reclaimed members at their end.
pub open spec fn trimmed(counts: Seq<usize>) -> Seq<usize>
    decreases counts.len(),
{
    if counts.len() > 0 && counts.last() == 0 {
        trimmed(counts.drop_last())
    } else {
        counts
    }
}

/// The counts after every member that serves no socket has been reclaimed.
pub open spec fn without_unused(counts: Seq<usize>) -> Seq<usize> {
    trimmed(
        Seq::new(
            counts.len(),
            |i: int|
                if counts[i] == 1 {
                    0usize
                } else {
                    counts[i]
                },
        ),
    )
}

/// Whether a socket that asks now gets a new member: when the pool is empty,
/// or its last member is full.
pub open spec fn needs_new_member(counts: Seq<usize>) -> bool {
    counts.len() == 0 || counts.last() >= POLL_GROUP_MAX_GROUP_SIZE + 1
}

/// The member that a socket that asks now is given.
pub open spec fn next_member(counts: Seq<usize>) -> int {
    if needs_new_member(counts) {
        counts.len() as int
    } else {
        counts.len() - 1
    }
}

/// The counts after a socket was given a member.
pub open spec fn after_acquire(counts: Seq<usize>) -> Seq<usize> {
    if needs_new_member(counts) {
        counts.push(2)
    } else {
        counts.update(counts.len() - 1, (counts.last() + 1) as usize)
    }
}

/// The counts after a socket gave up its reference to `afd`.
pub open spec fn after_release(counts: Seq<usize>, afd: usize) -> Seq<usize> {
    if afd < counts.len() && counts[afd as int] > 1 {
        counts.update(afd as int, (counts[afd as int] - 1) as usize)
    } else {
        counts
    }
}

/// Whether the counts of a pool are in order: no member serves more sockets
/// than it may, and the last member is alive.
pub open spec fn pool_ok(counts: Seq<usize>) -> bool {
    &&& forall|i: int| 0 <= i < counts.len() ==> #[trigger] counts[i] <= POLL_GROUP_MAX_GROUP_SIZE + 1
    &&& counts.len() > 0 ==> counts.last() != 0
}

impl AfdGroup {
    /// Whether the pool is in order.
    pub open spec fn wf(&self) -> bool {
        pool_ok(self@)
    }

    /// Whether `afd` names a member that is alive.
    pub open spec fn spec_is_member(&self, afd: usize) -> bool {
        afd < self@.len() && self@[afd as int] != 0
    }

    /// The reference count of `afd`; zero where it names no member.
    pub open spec fn spec_strong_count(&self, afd: usize) -> usize {
        if afd < self@.len() {
            self@[afd as int]
        } else {
            0
        }
    }

    /// Whether a socket that asks now gets a new member.
    pub open spec fn spec_needs_afd(&self) -> bool {
        needs_new_member(self@)
    }

    /// An empty pool.
    pub fn new() -> (pool: AfdGroup)
        ensures
            pool@ == Seq::<usize>::empty(),
            pool.wf(),
    {
        AfdGroup { counts: Vec::new() }
    }

    /// The number of members, alive or reclaimed, that the pool remembers.
    pub fn len(&self) -> (len: usize)
        ensures
            len == self@.len(),
    {
        self.counts.len()
    }

    /// Whether `afd` names a member that is alive.
    #[verifier::when_used_as_spec(spec_is_member)]
    pub fn is_member(&self, afd: usize) -> (alive: bool)
        ensures
            alive == self.spec_is_member(afd),
    {
        afd < self.counts.len() && self.counts[afd] != 0
    }

    /// The reference count of `afd`: one for the pool and one for each
    /// socket that `afd` serves; zero where `afd` names no member.
    #[verifier::when_used_as_spec(spec_strong_count)]
    pub fn strong_count(&self, afd: usize) -> (count: usize)
        ensures
            count == self.spec_strong_count(afd),
    {
        if afd < self.counts.len() {
            self.counts[afd]
        } else {
            0
        }
    }

    /// Whether the next `acquire` allocates a member, for which the driver
    /// has to open a poll handle: when the pool is empty, or its last member
    /// is full.
    #[verifier::when_used_as_spec(spec_needs_afd)]
    pub fn needs_afd(&self) -> (needed: bool)
        ensures
            needed == self.spec_needs_afd(),
    {
        let n = self.counts.len();
        n == 0 || self.counts[n - 1] >= POLL_GROUP_MAX_GROUP_SIZE + 1
    }

    /// The member that the next `acquire` hands out.
    pub fn next_afd(&self) -> (afd: usize)
        ensures
            afd == next_member(self@),
    {
        let n = self.counts.len();
        if n == 0 || self.counts[n - 1] >= POLL_GROUP_MAX_GROUP_SIZE + 1 {
            n
        } else {
            n - 1
        }
    }

    /// Gives a socket a member of the pool: the last one, or a new one when
    /// the pool is empty or the last member is full. The member counts one
    /// reference more.
    pub fn acquire(&mut self) -> (afd: usize)
        requires
            old(self).wf(),
        ensures
            final(self).wf(),
            final(self)@ == after_acquire(old(self)@),
            afd == next_member(old(self)@),
            final(self).spec_is_member(afd),
    {
        let n = self.counts.len();
        if n == 0 || self.counts[n - 1] >= POLL_GROUP_MAX_GROUP_SIZE + 1 {
            self.counts.push(2);
            n
        } else {
            let count = self.counts[n - 1];
            self.counts.set(n - 1, count + 1);
            n - 1
        }
    }

    /// Takes back the reference of a socket to `afd`. The pool's own
    /// reference stays; where `afd` holds no other, nothing changes.
    pub fn release(&mut self, afd: usize)
        requires
            old(self).wf(),
        ensures
            final(self).wf(),
            final(self)@ == after_release(old(self)@, afd),
    {
        if afd < self.counts.len() {
            let count = self.counts[afd];
            if count > 1 {
                self.counts.set(afd, count - 1);
            }
        }
    }

    /// Reclaims every member that serves no socket.
    pub fn release_unused_afd(&mut self)
        requires
            old(self).wf(),
        ensures
            final(self).wf(),
            final(self)@ == without_unused(old(self)@),
    {
        let ghost before = self@;
        let n = self.counts.len();
        let mut i: usize = 0;
        while i < n
            invariant
                i <= n,
                n == before.len(),
                self@.len() == n,
                forall|j: int|
                    0 <= j < i ==> #[trigger] self@[j] == (if before[j] == 1 {
                        0usize
                    } else {
                        before[j]
                    }),
                forall|j: int| i <= j < n ==> #[trigger] self@[j] == before[j],
                forall|j: int| 0 <= j < n ==> #[trigger] before[j] <= POLL_GROUP_MAX_GROUP_SIZE + 1,
            decreases n - i,
        {
            if self.counts[i] == 1 {
                self.counts.set(i, 0);
            }
            i += 1;
        }
        let ghost marked = self@;
        assert(marked == Seq::new(
            before.len(),
            |i: int|
                if before[i] == 1 {
                    0usize
                } else {
                    before[i]
                },
        ));
        while self.counts.len() > 0 && self.counts[self.counts.len() - 1] == 0
            invariant
                trimmed(self@) == trimmed(marked),
                forall|j: int| 0 <= j < self@.len() ==> #[trigger] self@[j] <= POLL_GROUP_MAX_GROUP_SIZE + 1,
            decreases self@.len(),
        {
            self.counts.pop();
        }
    }

    /// A member that is reclaimed served no socket, and a member that
    /// serves a socket is kept, under its name and with its count.
    pub proof fn lemma_without_unused(counts: Seq<usize>, afd: int)
        requires
            0 <= afd < counts.len(),
        ensures
            without_unused(counts).len() <= counts.len(),
            counts[afd] > 1 ==> afd < without_unused(counts).len() && without_unused(counts)[afd]
                == counts[afd],
            counts[afd] <= 1 ==> (afd < without_unused(counts).len() ==> without_unused(counts)[afd]
                == 0),
    {
        let marked = Seq::new(
            counts.len(),
            |i: int|
                if counts[i] == 1 {
                    0usize
                } else {
                    counts[i]
                },
        );
        lemma_trimmed(marked, afd);
    }
}

/// What is left after trimming ends with a member that is alive.
pub proof fn lemma_trimmed_last(counts: Seq<usize>)
    ensures
        trimmed(counts).len() > 0 ==> trimmed(counts).last() != 0,
    decreases counts.len(),
{
    if counts.len() > 0 && counts.last() == 0 {
        lemma_trimmed_last(counts.drop_last());
    }
}

/// Trimming takes away reclaimed members only, from the end.
pub proof fn lemma_trimmed(counts: Seq<usize>, i: int)
    requires
        0 <= i < counts.len(),
    ensures
        trimmed(counts).len() <= counts.len(),
        i < trimmed(counts).len() ==> trimmed(counts)[i] == counts[i],
        counts[i] != 0 ==> i < trimmed(counts).len(),
    decreases counts.len(),
{
    if counts.last() == 0 {
        let shorter = counts.drop_last();
        if i < shorter.len() {
            lemma_trimmed(shorter, i);
        } else if shorter.len() > 0 {
            lemma_trimmed(shorter, 0);
        } else {
            assert(trimmed(shorter) == shorter);
        }
    }
}

} // verus!
