//! Admission control of a fixed pool of inference sessions.
//!
//! The pool has `N` sessions and `N` admission permits. A caller first takes
//! a permit, then claims a session, evaluates on it, and releases it, which
//! also returns the permit. The pool decides; whoever runs the evaluations
//! waits where the pool tells it to, and reports back what it finished.
//! A claim names the session that its caller alone may use until release, so
//! a caller that holds a permit never finds the pool without a free session.

use crate::error::EmbedError;
use vstd::prelude::*;

verus! {

/// Sessions of the accelerated backend where evaluation is heavy on memory.
pub const GPU_SESSIONS: usize = 3;

/// Sessions of the accelerated backend on the lighter execution path.
pub const LIGHT_SESSIONS: usize = 25;

/// The pool as a value: which sessions are under evaluation, and how many
/// permits are left to hand out.
pub struct PoolState {
    pub busy: Seq<bool>,
    pub permits: nat,
}

/// Number of sessions marked as under evaluation.
pub open spec fn count_busy(busy: Seq<bool>) -> nat
    decreases busy.len(),
{
    if busy.len() == 0 {
        0
    } else {
        count_busy(busy.drop_last()) + if busy.last() {
            1nat
        } else {
            0nat
        }
    }
}

/// Whether `slot` is the first session that is not under evaluation.
pub open spec fn is_first_free(busy: Seq<bool>, slot: int) -> bool {
    &&& 0 <= slot < busy.len()
    &&& !busy[slot]
    &&& forall|j: int| 0 <= j < slot ==> busy[j]
}

impl PoolState {
    /// The fixed number of sessions, which is also the number of permits.
    pub open spec fn capacity(self) -> nat {
        self.busy.len()
    }

    /// Number of sessions under evaluation.
    pub open spec fn active(self) -> nat {
        count_busy(self.busy)
    }

    /// Number of permits that callers hold.
    pub open spec fn issued(self) -> int {
        self.capacity() - self.permits
    }

    /// No more evaluations than permits held, no more permits held than
    /// sessions.
    pub open spec fn wf(self) -> bool {
        self.active() + self.permits <= self.capacity()
    }

    /// Whether some caller holds a permit and has no session yet.
    pub open spec fn has_waiting_permit(self) -> bool {
        self.active() < self.issued()
    }

    /// A pool of `n` idle sessions with all permits at hand.
    pub open spec fn idle(n: nat) -> PoolState {
        PoolState { busy: Seq::new(n, |i: int| false), permits: n }
    }

    /// The pool after one permit was handed out.
    pub open spec fn admitted(self) -> PoolState {
        PoolState { busy: self.busy, permits: (self.permits - 1) as nat }
    }

    /// The pool after `slot` went under evaluation.
    pub open spec fn claimed(self, slot: int) -> PoolState {
        PoolState { busy: self.busy.update(slot, true), permits: self.permits }
    }

    /// The pool after the evaluation on `slot` ended and its permit came back.
    pub open spec fn released(self, slot: int) -> PoolState {
        PoolState { busy: self.busy.update(slot, false), permits: self.permits + 1 }
    }

    /// The pool after a permit came back that was never used for a session.
    pub open spec fn cancelled(self) -> PoolState {
        PoolState { busy: self.busy, permits: self.permits + 1 }
    }
}

/// Marking a free session adds one to the count; freeing a marked one takes
/// one off.
pub proof fn lemma_count_update(busy: Seq<bool>, slot: int, mark: bool)
    requires
        0 <= slot < busy.len(),
        busy[slot] != mark,
    ensures
        mark ==> count_busy(busy.update(slot, mark)) == count_busy(busy) + 1,
        !mark ==> count_busy(busy.update(slot, mark)) == count_busy(busy) - 1,
    decreases busy.len(),
{
    let updated = busy.update(slot, mark);
    if slot == busy.len() - 1 {
        assert(updated.drop_last() =~= busy.drop_last());
    } else {
        assert(updated.drop_last() =~= busy.drop_last().update(slot, mark));
        lemma_count_update(busy.drop_last(), slot, mark);
    }
}

/// The count never exceeds the number of sessions, and reaches it only when
/// every session is marked.
pub proof fn lemma_count_bound(busy: Seq<bool>)
    ensures
        count_busy(busy) <= busy.len(),
        count_busy(busy) == busy.len() <==> forall|j: int| 0 <= j < busy.len() ==> busy[j],
    decreases busy.len(),
{
    if busy.len() > 0 {
        let front = busy.drop_last();
        lemma_count_bound(front);
        if count_busy(busy) == busy.len() {
            assert forall|j: int| 0 <= j < busy.len() implies busy[j] by {
                if j < front.len() {
                    assert(front[j]);
                }
            }
        }
        if forall|j: int| 0 <= j < busy.len() ==> busy[j] {
            assert forall|j: int| 0 <= j < front.len() implies front[j] by {
                assert(busy[j]);
            }
        }
    }
}

/// No session is marked in an idle pool.
pub proof fn lemma_idle_count(n: nat)
    ensures
        count_busy(PoolState::idle(n).busy) == 0,
    decreases n,
{
    if n > 0 {
        assert(PoolState::idle(n).busy.drop_last() =~= PoolState::idle((n - 1) as nat).busy);
        lemma_idle_count((n - 1) as nat);
    }
}

/// At no time are more sessions under evaluation than permits are held, nor
/// more permits held than the pool has sessions.
pub proof fn lemma_evaluations_bounded(pool: PoolState)
    requires
        pool.wf(),
    ensures
        pool.active() <= pool.issued() <= pool.capacity(),
{
}

/// The bounds hold of the idle pool and every step keeps them, so they hold
/// of every state that the pool can reach.
pub proof fn lemma_steps_keep_bounds(pool: PoolState, slot: int)
    requires
        pool.wf(),
    ensures
        PoolState::idle(pool.capacity()).wf(),
        pool.permits > 0 ==> pool.admitted().wf(),
        pool.has_waiting_permit() && is_first_free(pool.busy, slot) ==> pool.claimed(slot).wf(),
        0 <= slot < pool.capacity() && pool.busy[slot] ==> pool.released(slot).wf(),
        pool.has_waiting_permit() ==> pool.cancelled().wf(),
{
    lemma_idle_count(pool.capacity());
    if is_first_free(pool.busy, slot) {
        lemma_count_update(pool.busy, slot, true);
    }
    if 0 <= slot < pool.capacity() && pool.busy[slot] {
        lemma_count_update(pool.busy, slot, false);
    }
}

/// Where the sessions before `from` are all under evaluation and a later one
/// is not, some session is the first free one.
proof fn lemma_first_free_from(busy: Seq<bool>, from: int)
    requires
        0 <= from <= busy.len(),
        forall|j: int| 0 <= j < from ==> busy[j],
        exists|j: int| from <= j < busy.len() && !busy[j],
    ensures
        exists|slot: int| is_first_free(busy, slot),
    decreases busy.len() - from,
{
    if from < busy.len() && !busy[from] {
        assert(is_first_free(busy, from));
    } else {
        lemma_first_free_from(busy, from + 1);
    }
}

/// A caller that holds a permit and has no session yet finds a session that
/// is free: the pool is never exhausted under a permit.
pub proof fn lemma_permit_finds_session(pool: PoolState)
    requires
        pool.wf(),
        pool.has_waiting_permit(),
    ensures
        exists|slot: int| is_first_free(pool.busy, slot),
{
    lemma_count_bound(pool.busy);
    lemma_first_free_from(pool.busy, 0);
}

/// Two claims with no release between them name different sessions: no
/// session is under two evaluations at once.
pub proof fn lemma_claims_distinct(pool: PoolState, first: int, second: int)
    requires
        is_first_free(pool.busy, first),
        is_first_free(pool.claimed(first).busy, second),
    ensures
        first != second,
{
}

/// After an evaluation ends a permit is at hand, so a caller that waits is
/// let in: as long as evaluations end, no caller waits for ever.
pub proof fn lemma_release_readmits(pool: PoolState, slot: int)
    requires
        pool.wf(),
        0 <= slot < pool.capacity(),
        pool.busy[slot],
    ensures
        pool.released(slot).wf(),
        pool.released(slot).permits > 0,
        pool.released(slot).admitted().permits == pool.permits,
        pool.released(slot).active() == pool.active() - 1,
{
    lemma_count_update(pool.busy, slot, false);
}

/// The admission gate and the session marks of one accelerated backend.
pub struct SessionPool {
    busy: Vec<bool>,
    permits: usize,
    active: usize,
}

impl View for SessionPool {
    type V = PoolState;

    closed spec fn view(&self) -> PoolState {
        PoolState { busy: self.busy@, permits: self.permits as nat }
    }
}

impl SessionPool {
    /// The running count of evaluations agrees with the session marks.
    pub closed spec fn counted(&self) -> bool {
        self.active == count_busy(self.busy@)
    }

    /// The pool keeps its bounds and its count.
    pub open spec fn wf(&self) -> bool {
        self@.wf() && self.counted()
    }

    /// A pool of `n` idle sessions and `n` permits.
    pub fn new(n: usize) -> (pool: Self)
        ensures
            pool.wf(),
            pool@ == PoolState::idle(n as nat),
            pool@.active() == 0,
    {
        let mut busy: Vec<bool> = Vec::new();
        while busy.len() < n
            invariant
                busy.len() <= n,
                forall|j: int| 0 <= j < busy.len() ==> !busy@[j],
            decreases n - busy.len(),
        {
            busy.push(false);
        }
        proof {
            assert(busy@ =~= PoolState::idle(n as nat).busy);
            lemma_idle_count(n as nat);
        }
        SessionPool { busy, permits: n, active: 0 }
    }

    /// The pool of the accelerated backend: few sessions where evaluation
    /// runs on the GPU, more on the lighter path.
    pub fn for_backend(gpu: bool) -> (pool: Self)
        ensures
            pool.wf(),
            pool@ == PoolState::idle(
                if gpu {
                    GPU_SESSIONS as nat
                } else {
                    LIGHT_SESSIONS as nat
                },
            ),
            pool@.active() == 0,
    {
        if gpu {
            SessionPool::new(GPU_SESSIONS)
        } else {
            SessionPool::new(LIGHT_SESSIONS)
        }
    }

    /// The fixed number of sessions.
    pub fn capacity(&self) -> (n: usize)
        ensures
            n == self@.capacity(),
    {
        self.busy.len()
    }

    /// Number of permits that can still be handed out.
    pub fn available(&self) -> (n: usize)
        ensures
            n == self@.permits,
    {
        self.permits
    }

    /// Number of sessions under evaluation.
    pub fn active(&self) -> (n: usize)
        requires
            self.wf(),
        ensures
            n == self@.active(),
    {
        self.active
    }

    /// Hands out one permit where one is left. On `false` the caller waits
    /// until a release and asks again.
    pub fn try_admit(&mut self) -> (granted: bool)
        requires
            old(self).wf(),
        ensures
            final(self).wf(),
            granted == (old(self)@.permits > 0),
            final(self)@ == if granted {
                old(self)@.admitted()
            } else {
                old(self)@
            },
    {
        if self.permits > 0 {
            self.permits = self.permits - 1;
            true
        } else {
            false
        }
    }

    /// Gives the caller that holds a permit the first session that is not
    /// under evaluation, and marks it. Without a permit to back the claim
    /// nothing changes and the fault is reported.
    pub fn claim(&mut self) -> (claimed: Result<usize, EmbedError>)
        requires
            old(self).wf(),
        ensures
            final(self).wf(),
            match claimed {
                Ok(slot) => {
                    &&& old(self)@.has_waiting_permit()
                    &&& is_first_free(old(self)@.busy, slot as int)
                    &&& final(self)@ == old(self)@.claimed(slot as int)
                    &&& final(self)@.active() == old(self)@.active() + 1
                },
                Err(error) => {
                    &&& !old(self)@.has_waiting_permit()
                    &&& error == EmbedError::PoolExhausted
                    &&& final(self)@ == old(self)@
                },
            },
    {
        if self.active >= self.busy.len() - self.permits {
            return Err(EmbedError::PoolExhausted);
        }
        let mut slot: usize = 0;
        while slot < self.busy.len()
            invariant
                slot <= self.busy.len(),
                *self == *old(self),
                self.wf(),
                self@.has_waiting_permit(),
                forall|j: int| 0 <= j < slot ==> self.busy@[j],
            decreases self.busy.len() - slot,
        {
            if !self.busy[slot] {
                proof {
                    lemma_count_update(self.busy@, slot as int, true);
                }
                self.busy.set(slot, true);
                self.active = self.active + 1;
                return Ok(slot);
            }
            slot = slot + 1;
        }
        proof {
            lemma_count_bound(self.busy@);
        }
        Err(EmbedError::PoolExhausted)
    }

    /// Takes a permit and claims a session in one step. With a permit at
    /// hand the caller gets the first free session, which there always is;
    /// with none nothing changes and the caller waits for a release.
    pub fn acquire(&mut self) -> (session: Option<usize>)
        requires
            old(self).wf(),
        ensures
            final(self).wf(),
            match session {
                Some(slot) => {
                    &&& old(self)@.permits > 0
                    &&& is_first_free(old(self)@.busy, slot as int)
                    &&& final(self)@ == old(self)@.admitted().claimed(slot as int)
                    &&& final(self)@.active() == old(self)@.active() + 1
                },
                None => old(self)@.permits == 0 && final(self)@ == old(self)@,
            },
    {
        if !self.try_admit() {
            return None;
        }
        match self.claim() {
            Ok(slot) => Some(slot),
            Err(_) => None,
        }
    }

    /// Ends the evaluation on `slot`: the session is free again and its
    /// permit is back. A slot that is not under evaluation changes nothing.
    pub fn release(&mut self, slot: usize) -> (done: bool)
        requires
            old(self).wf(),
        ensures
            final(self).wf(),
            done == (slot < old(self)@.capacity() && old(self)@.busy[slot as int]),
            final(self)@ == if done {
                old(self)@.released(slot as int)
            } else {
                old(self)@
            },
            final(self)@.active() == if done {
                old(self)@.active() - 1
            } else {
                old(self)@.active() as int
            },
    {
        if slot < self.busy.len() && self.busy[slot] {
            proof {
                lemma_count_update(self.busy@, slot as int, false);
                lemma_count_bound(self.busy@);
            }
            self.busy.set(slot, false);
            self.active = self.active - 1;
            self.permits = self.permits + 1;
            true
        } else {
            false
        }
    }

    /// Takes back a permit whose holder gave up before claiming a session.
    /// Where every permit that is out backs an evaluation nothing changes.
    pub fn cancel(&mut self) -> (done: bool)
        requires
            old(self).wf(),
        ensures
            final(self).wf(),
            done == old(self)@.has_waiting_permit(),
            final(self)@ == if done {
                old(self)@.cancelled()
            } else {
                old(self)@
            },
    {
        if self.active < self.busy.len() - self.permits {
            self.permits = self.permits + 1;
            true
        } else {
            false
        }
    }
}

} // verus!
