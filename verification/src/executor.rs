//! Cleanup Executor: walks a plan's deletion set one branch at a time,
//! letting the surrounding binary perform each deletion, and aggregates the
//! per-branch outcomes. One branch's failure never aborts the batch: the
//! executor advances whatever outcome is recorded.

use vstd::prelude::*;
use crate::branch::Branch;
use crate::planner::CleanupPlan;

verus! {

/// Failure of one branch's deletion.
#[derive(Clone, Copy, Debug, PartialEq, Eq, Structural)]
pub enum DeleteError {
    /// The ref is protected on the version-control side.
    ProtectedRef,
    /// The remote refused or timed out.
    RemoteRejected,
    /// The ref no longer exists.
    NotFound,
}

/// Batch state: the plan's deletion set, fixed at construction, and the
/// outcomes recorded so far. The branch at position `outcomes.len()` is the
/// one being worked on.
pub struct Executor {
    pub pending: Vec<Branch>,
    pub outcomes: Vec<Result<(), DeleteError>>,
}

impl Executor {
    /// No more outcomes than targets.
    pub open spec fn wf(&self) -> bool {
        self.outcomes@.len() <= self.pending@.len()
    }

    /// Every planned branch has its outcome.
    pub open spec fn is_done(&self) -> bool {
        self.outcomes@.len() == self.pending@.len()
    }

    /// Starts a batch over exactly the plan's deletion set; branches the
    /// plan holds back are not targets.
    pub fn new(plan: CleanupPlan) -> (r: Executor)
        ensures
            r.wf(),
            r.pending@ == plan.included@,
            r.outcomes@.len() == 0,
    {
        Executor { pending: plan.included, outcomes: Vec::new() }
    }

    /// The branch to delete next, while work remains: always the next
    /// branch of the input plan, never one from outside it.
    pub fn next_target(&self) -> (r: Option<&Branch>)
        requires
            self.wf(),
        ensures
            match r {
                Some(b) => !self.is_done() && *b == self.pending@[self.outcomes@.len() as int],
                None => self.is_done(),
            },
    {
        if self.outcomes.len() < self.pending.len() {
            Some(&self.pending[self.outcomes.len()])
        } else {
            None
        }
    }

    /// Records the current target's outcome. The executor advances to the
    /// next branch whether the deletion succeeded or failed.
    pub fn record(&mut self, outcome: Result<(), DeleteError>)
        requires
            old(self).wf(),
            !old(self).is_done(),
        ensures
            final(self).wf(),
            final(self).pending@ == old(self).pending@,
            final(self).outcomes@ == old(self).outcomes@.push(outcome),
    {
        self.outcomes.push(outcome);
    }

    /// Pairs every planned branch with its recorded outcome, in plan order.
    pub fn into_report(self) -> (r: Vec<(Branch, Result<(), DeleteError>)>)
        requires
            self.is_done(),
        ensures
            r@.len() == self.pending@.len(),
            forall|i: int|
                0 <= i < r@.len() ==> r@[i].0 == self.pending@[i] && r@[i].1 == self.outcomes@[i],
    {
        let ghost gp = self.pending@;
        let ghost go = self.outcomes@;
        let mut pending = self.pending;
        let mut outcomes = self.outcomes;
        let mut r: Vec<(Branch, Result<(), DeleteError>)> = Vec::new();
        proof {
            assert(gp.skip(0) =~= gp);
            assert(go.skip(0) =~= go);
        }
        while pending.len() > 0
            invariant
                r@.len() + pending@.len() == gp.len(),
                go.len() == gp.len(),
                pending@ == gp.skip(r@.len() as int),
                outcomes@ == go.skip(r@.len() as int),
                forall|i: int| 0 <= i < r@.len() ==> r@[i].0 == gp[i] && r@[i].1 == go[i],
            decreases pending@.len(),
        {
            let ghost k = r@.len() as int;
            let b = pending.remove(0);
            let o = outcomes.remove(0);
            proof {
                assert(b == gp[k]);
                assert(o == go[k]);
                assert(gp.skip(k).skip(1) =~= gp.skip(k + 1));
                assert(go.skip(k).skip(1) =~= go.skip(k + 1));
            }
            r.push((b, o));
        }
        r
    }
}

/// One recording step, abstractly: the outcome joins the log and the set of
/// branches still to delete is unchanged in content and order.
pub open spec fn spec_record_step(
    pending: Seq<Branch>,
    outcomes: Seq<Result<(), DeleteError>>,
    outcome: Result<(), DeleteError>,
) -> (Seq<Branch>, Seq<Result<(), DeleteError>>) {
    (pending, outcomes.push(outcome))
}

/// A failure on one branch never prevents the others' deletion: recording a
/// failure leaves the executor exactly as far along, over exactly the same
/// targets, as recording a success would.
pub proof fn lemma_failure_does_not_block(
    pending: Seq<Branch>,
    outcomes: Seq<Result<(), DeleteError>>,
    e: DeleteError,
)
    ensures
        spec_record_step(pending, outcomes, Ok(())).0 == spec_record_step(
            pending,
            outcomes,
            Err(e),
        ).0,
        spec_record_step(pending, outcomes, Ok(())).1.len() == spec_record_step(
            pending,
            outcomes,
            Err(e),
        ).1.len(),
{
}

} // verus!
