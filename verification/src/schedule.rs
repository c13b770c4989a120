//! Whole schedules on the pool: any number of callers, each of which waits
//! for a permit, claims a session, evaluates and releases, with their steps
//! interleaved in any order.
//!
//! Three things hold of every schedule. No more sessions are under
//! evaluation than the pool has. Every step that is taken brings the end
//! nearer, so a schedule of `c` callers has at most `3 * c` steps. And as
//! long as a caller has not returned, some step can be taken. So every
//! caller returns, provided that each evaluation ends.

use crate::pool::{
    count_busy, is_first_free, lemma_count_bound, lemma_count_update, lemma_idle_count,
    lemma_permit_finds_session, PoolState,
};
use vstd::prelude::*;

verus! {

/// The pool together with the callers that have not been admitted yet.
pub struct Service {
    pub pool: PoolState,
    pub waiting: nat,
}

/// One step of one caller.
pub enum Step {
    /// A waiting caller takes a permit.
    Admit,
    /// A caller that holds a permit claims the first free session.
    Claim,
    /// The evaluation on a session ends; session and permit come back.
    Release { slot: int },
    /// A caller that holds a permit gives up before it claims a session.
    Cancel,
}

/// The first session that is not under evaluation, where there is one.
pub open spec fn first_free(busy: Seq<bool>) -> int {
    choose|slot: int| is_first_free(busy, slot)
}

impl Service {
    /// An idle pool of `n` sessions and `callers` callers that wait.
    pub open spec fn start(n: nat, callers: nat) -> Service {
        Service { pool: PoolState::idle(n), waiting: callers }
    }

    /// Whether the step can be taken.
    pub open spec fn enabled(self, step: Step) -> bool {
        match step {
            Step::Admit => self.waiting > 0 && self.pool.permits > 0,
            Step::Claim => self.pool.has_waiting_permit(),
            Step::Release { slot } => 0 <= slot < self.pool.capacity() && self.pool.busy[slot],
            Step::Cancel => self.pool.has_waiting_permit(),
        }
    }

    /// The service after the step.
    pub open spec fn after(self, step: Step) -> Service {
        match step {
            Step::Admit => Service {
                pool: self.pool.admitted(),
                waiting: (self.waiting - 1) as nat,
            },
            Step::Claim => Service {
                pool: self.pool.claimed(first_free(self.pool.busy)),
                waiting: self.waiting,
            },
            Step::Release { slot } => Service {
                pool: self.pool.released(slot),
                waiting: self.waiting,
            },
            Step::Cancel => Service { pool: self.pool.cancelled(), waiting: self.waiting },
        }
    }

    /// The steps that the callers who hold a permit still have to take: two
    /// for each who has no session yet, one for each who evaluates.
    pub open spec fn outstanding(self) -> int {
        2 * self.pool.issued() - self.pool.active()
    }

    /// The steps that are left until every caller has returned: three for
    /// each caller that waits, and those of the callers who hold a permit.
    pub open spec fn steps_left(self) -> int {
        3 * self.waiting + self.outstanding()
    }

    /// Every caller has returned: none waits, none holds a permit, and no
    /// session is under evaluation.
    pub open spec fn done(self) -> bool {
        &&& self.waiting == 0
        &&& self.pool.permits == self.pool.capacity()
        &&& self.pool.active() == 0
    }
}

/// Whether each of the steps can be taken in its turn, from `from` on.
pub open spec fn is_run(from: Service, steps: Seq<Step>) -> bool
    decreases steps.len(),
{
    steps.len() == 0 || (is_run(from, steps.drop_last()) && after_run(
        from,
        steps.drop_last(),
    ).enabled(steps.last()))
}

/// The service after the steps, taken in their order from `from` on.
pub open spec fn after_run(from: Service, steps: Seq<Step>) -> Service
    decreases steps.len(),
{
    if steps.len() == 0 {
        from
    } else {
        after_run(from, steps.drop_last()).after(steps.last())
    }
}

/// Where some session is under evaluation, one can be named.
proof fn lemma_some_busy(busy: Seq<bool>)
    requires
        count_busy(busy) > 0,
    ensures
        exists|slot: int| 0 <= slot < busy.len() && busy[slot],
    decreases busy.len(),
{
    if busy.len() > 0 {
        if busy.last() {
            assert(busy[busy.len() - 1]);
        } else {
            lemma_some_busy(busy.drop_last());
            let slot = choose|slot: int| 0 <= slot < busy.drop_last().len() && busy.drop_last()[slot];
            assert(busy[slot]);
        }
    }
}

/// The session that a claim is given is the first free one, and there is
/// only one such session.
pub proof fn lemma_first_free_is_claimed(pool: PoolState, slot: int)
    requires
        is_first_free(pool.busy, slot),
    ensures
        first_free(pool.busy) == slot,
{
    let other = first_free(pool.busy);
    assert(is_first_free(pool.busy, other));
    if other < slot {
        assert(pool.busy[other]);
    }
    if slot < other {
        assert(pool.busy[slot]);
    }
}

/// Every step that can be taken keeps the bounds of the pool and brings the
/// end nearer: by one step, or by two where a caller gives up.
pub proof fn lemma_step_makes_progress(service: Service, step: Step)
    requires
        service.pool.wf(),
        service.enabled(step),
    ensures
        service.after(step).pool.wf(),
        service.after(step).pool.capacity() == service.pool.capacity(),
        service.after(step).pool.active() <= service.pool.capacity(),
        service.after(step).steps_left() == service.steps_left() - if step is Cancel {
            2int
        } else {
            1int
        },
{
    let pool = service.pool;
    match step {
        Step::Admit => {},
        Step::Claim => {
            lemma_permit_finds_session(pool);
            let slot = first_free(pool.busy);
            assert(is_first_free(pool.busy, slot));
            lemma_count_update(pool.busy, slot, true);
        },
        Step::Release { slot } => {
            lemma_count_update(pool.busy, slot, false);
        },
        Step::Cancel => {},
    }
}

/// The steps that are left are never fewer than none, and none is left
/// exactly when every caller has returned.
pub proof fn lemma_steps_left(service: Service)
    requires
        service.pool.wf(),
    ensures
        service.steps_left() >= 0,
        service.steps_left() == 0 <==> service.done(),
{
}

/// As long as a caller has not returned, some step can be taken: no state
/// that the service reaches is a deadlock.
pub proof fn lemma_never_stuck(service: Service)
    requires
        service.pool.wf(),
        service.pool.capacity() > 0,
        !service.done(),
    ensures
        exists|step: Step| service.enabled(step),
{
    let pool = service.pool;
    if pool.has_waiting_permit() {
        assert(service.enabled(Step::Claim));
    } else if pool.active() > 0 {
        lemma_some_busy(pool.busy);
        let slot = choose|slot: int| 0 <= slot < pool.busy.len() && pool.busy[slot];
        assert(service.enabled(Step::Release { slot }));
    } else {
        assert(service.enabled(Step::Admit));
    }
}

/// Of every schedule of `callers` callers on a pool of `n` sessions: at
/// each of its moments no more than `n` sessions are under evaluation, and
/// the steps taken and the steps left make up no more than three for each
/// caller. So no schedule has more than `3 * callers` steps.
pub proof fn lemma_schedule(n: nat, callers: nat, steps: Seq<Step>)
    requires
        is_run(Service::start(n, callers), steps),
    ensures
        after_run(Service::start(n, callers), steps).pool.wf(),
        after_run(Service::start(n, callers), steps).pool.capacity() == n,
        after_run(Service::start(n, callers), steps).pool.active() <= n,
        after_run(Service::start(n, callers), steps).pool.active() <= after_run(
            Service::start(n, callers),
            steps,
        ).pool.issued(),
        0 <= after_run(Service::start(n, callers), steps).steps_left() <= 3 * callers
            - steps.len(),
        steps.len() <= 3 * callers,
    decreases steps.len(),
{
    let from = Service::start(n, callers);
    if steps.len() == 0 {
        lemma_idle_count(n);
        lemma_steps_left(from);
    } else {
        lemma_schedule(n, callers, steps.drop_last());
        let before = after_run(from, steps.drop_last());
        lemma_step_makes_progress(before, steps.last());
        lemma_steps_left(before.after(steps.last()));
        lemma_count_bound(before.after(steps.last()).pool.busy);
    }
}

/// Every caller returns: a schedule that has not brought every caller back
/// can go on, and it cannot go on for more than `3 * callers` steps.
pub proof fn lemma_every_caller_returns(n: nat, callers: nat, steps: Seq<Step>)
    requires
        n > 0,
        is_run(Service::start(n, callers), steps),
    ensures
        steps.len() <= 3 * callers,
        !after_run(Service::start(n, callers), steps).done() ==> exists|step: Step|
            is_run(Service::start(n, callers), steps.push(step)),
        steps.len() == 3 * callers ==> after_run(Service::start(n, callers), steps).done(),
{
    let from = Service::start(n, callers);
    let now = after_run(from, steps);
    lemma_schedule(n, callers, steps);
    lemma_steps_left(now);
    if !now.done() {
        lemma_never_stuck(now);
        let step = choose|step: Step| now.enabled(step);
        assert(steps.push(step).drop_last() =~= steps);
        assert(is_run(from, steps.push(step)));
    }
}

} // verus!
