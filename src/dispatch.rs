use vstd::prelude::*;
use crate::label::{Label, copy_string, labels_view};
use crate::plan::{Operation, SyncMode, batches_view, plan_batches, planned_batches};

verus! {

/// A failure that the service reported for one call.
#[derive(Debug, Clone, PartialEq, Eq)]
pub struct RemoteError {
    pub message: String,
}

/// One repository to reconcile.
#[derive(Debug, Clone, PartialEq, Eq)]
pub struct Target {
    pub owner: String,
    pub repository: String,
}

pub struct TargetView {
    pub owner: Seq<char>,
    pub repository: Seq<char>,
}

impl View for Target {
    type V = TargetView;

    open spec fn view(&self) -> TargetView {
        TargetView { owner: self.owner@, repository: self.repository@ }
    }
}

impl Target {
    pub fn new(owner: String, repository: String) -> (r: Target)
        ensures
            r@ == (TargetView { owner: owner@, repository: repository@ }),
    {
        Target { owner, repository }
    }

    pub fn duplicate(&self) -> (r: Target)
        ensures
            r@ == self@,
    {
        Target { owner: copy_string(&self.owner), repository: copy_string(&self.repository) }
    }
}

/// Why the reconciliation of a repository stopped.
#[derive(Debug, Clone, PartialEq, Eq)]
pub enum ReconciliationError {
    /// The labels of the repository could not be listed.
    ListFailed { target: Target, cause: RemoteError },
    /// An operation of a dispatched batch failed.
    OperationFailed { target: Target, operation: Operation, cause: RemoteError },
}

/// The index of the first failed outcome, if any failed.
pub open spec fn first_failure(outcomes: Seq<Result<(), RemoteError>>) -> Option<int> {
    if exists|i: int| 0 <= i < outcomes.len() && #[trigger] outcomes[i] is Err {
        Some(
            choose|i: int|
                0 <= i < outcomes.len() && #[trigger] outcomes[i] is Err && forall|j: int|
                    0 <= j < i ==> #[trigger] outcomes[j] is Ok,
        )
    } else {
        None
    }
}

proof fn lemma_first_failure(outcomes: Seq<Result<(), RemoteError>>, i: int)
    requires
        0 <= i < outcomes.len(),
        outcomes[i] is Err,
        forall|j: int| 0 <= j < i ==> #[trigger] outcomes[j] is Ok,
    ensures
        first_failure(outcomes) == Some(i),
{
    let k = choose|k: int|
        0 <= k < outcomes.len() && #[trigger] outcomes[k] is Err && forall|j: int|
            0 <= j < k ==> #[trigger] outcomes[j] is Ok;
    assert(!(k < i));
    assert(!(i < k));
}

/// Settles a dispatched batch once all of its operations have finished: the
/// batch succeeds where every operation did, and fails otherwise with the
/// first failed operation in batch order, its target and the error the
/// service gave.
pub fn settle_batch(
    target: &Target,
    batch: &Vec<Operation>,
    outcomes: &Vec<Result<(), RemoteError>>,
) -> (r: Result<(), ReconciliationError>)
    requires
        outcomes.len() == batch.len(),
    ensures
        r is Ok <==> first_failure(outcomes@) is None,
        r is Ok <==> forall|i: int| 0 <= i < outcomes.len() ==> #[trigger] outcomes@[i] is Ok,
        r matches Err(e) ==> ({
            let i = first_failure(outcomes@)->0;
            &&& e matches ReconciliationError::OperationFailed { target: t, operation, cause }
            &&& t@ == target@
            &&& operation@ == batch@[i]@
            &&& outcomes@[i] == Err::<(), RemoteError>(cause)
        }),
{
    let mut i: usize = 0;
    while i < outcomes.len()
        invariant
            i <= outcomes.len(),
            outcomes.len() == batch.len(),
            forall|j: int| 0 <= j < i ==> #[trigger] outcomes@[j] is Ok,
        decreases outcomes.len() - i,
    {
        match &outcomes[i] {
            Ok(()) => {},
            Err(e) => {
                proof {
                    lemma_first_failure(outcomes@, i as int);
                }
                let operation = batch[i].duplicate();
                return Err(
                    ReconciliationError::OperationFailed {
                        target: target.duplicate(),
                        operation,
                        cause: RemoteError { message: e.message.clone() },
                    },
                );
            },
        }
        i = i + 1;
    }
    Ok(())
}

} // verus!

verus! {

/// What the driver asks for next.
#[derive(Debug, Clone, Copy, PartialEq, Eq, Structural)]
pub enum Step {
    /// List the labels of the current target.
    Fetch,
    /// Dispatch the current batch of the current target and report all of
    /// its outcomes.
    Dispatch,
    /// Every target has been reconciled.
    Done,
    /// A target failed; the remaining targets are not touched.
    Failed,
}

/// Reconciles the targets one after the other. Within a target the batches
/// of its plan run in order, each dispatched whole and awaited in full.
/// The first failure ends the run.
pub struct Reconciler {
    pub desired: Vec<Label>,
    pub mode: SyncMode,
    pub targets: Vec<Target>,
    /// The target being reconciled.
    pub current: usize,
    /// The plan of the current target, once its labels were listed.
    pub batches: Option<Vec<Vec<Operation>>>,
    /// The batch of the plan that is dispatched next.
    pub next_batch: usize,
    pub failure: Option<ReconciliationError>,
}

impl Reconciler {
    pub open spec fn wf(&self) -> bool {
        &&& self.current <= self.targets.len()
        &&& self.batches matches Some(b) ==> self.current < self.targets.len() && self.next_batch
            < b.len()
    }

    pub open spec fn step_spec(&self) -> Step {
        if self.failure is Some {
            Step::Failed
        } else if self.current >= self.targets.len() {
            Step::Done
        } else if self.batches is None {
            Step::Fetch
        } else {
            Step::Dispatch
        }
    }

    /// Starts a run over the targets in their order.
    pub fn new(desired: Vec<Label>, mode: SyncMode, targets: Vec<Target>) -> (r: Reconciler)
        ensures
            r.wf(),
            r.desired == desired,
            r.mode == mode,
            r.targets == targets,
            r.current == 0,
            r.batches is None,
            r.next_batch == 0,
            r.failure is None,
    {
        Reconciler { desired, mode, targets, current: 0, batches: None, next_batch: 0, failure: None }
    }

    pub fn next_step(&self) -> (r: Step)
        ensures
            r == self.step_spec(),
    {
        if self.failure.is_some() {
            Step::Failed
        } else if self.current >= self.targets.len() {
            Step::Done
        } else if self.batches.is_none() {
            Step::Fetch
        } else {
            Step::Dispatch
        }
    }

    /// The target being reconciled.
    pub fn current_target(&self) -> (r: &Target)
        requires
            self.wf(),
            self.current < self.targets.len(),
        ensures
            r == self.targets@[self.current as int],
    {
        &self.targets[self.current]
    }

    /// The batch to dispatch now.
    pub fn current_batch(&self) -> (r: &Vec<Operation>)
        requires
            self.wf(),
            self.step_spec() == Step::Dispatch,
        ensures
            r == self.batches->0@[self.next_batch as int],
    {
        let b = self.batches.as_ref().unwrap();
        &b[self.next_batch]
    }

    /// Takes the labels listed for the current target and plans its batches.
    pub fn labels_listed(&mut self, remote: &Vec<Label>)
        requires
            old(self).wf(),
            old(self).step_spec() == Step::Fetch,
        ensures
            final(self).wf(),
            final(self).desired == old(self).desired,
            final(self).mode == old(self).mode,
            final(self).targets == old(self).targets,
            final(self).current == old(self).current,
            final(self).failure == old(self).failure,
            final(self).next_batch == 0,
            final(self).batches matches Some(b) && batches_view(b@) == planned_batches(
                labels_view(old(self).desired@),
                labels_view(remote@),
                old(self).mode,
            ),
            final(self).step_spec() == Step::Dispatch,
    {
        let plan = plan_batches(&self.desired, remote, self.mode);
        assert(plan@.len() > 0) by {
            assert(batches_view(plan@).len() == plan@.len());
        }
        self.batches = Some(plan);
        self.next_batch = 0;
    }

    /// Records that the labels of the current target could not be listed.
    pub fn listing_failed(&mut self, cause: RemoteError)
        requires
            old(self).wf(),
            old(self).step_spec() == Step::Fetch,
        ensures
            final(self).wf(),
            final(self).desired == old(self).desired,
            final(self).targets == old(self).targets,
            final(self).current == old(self).current,
            final(self).batches == old(self).batches,
            final(self).failure matches Some(ReconciliationError::ListFailed { target, cause: c })
                && target@ == old(self).targets@[old(self).current as int]@ && c == cause,
            final(self).step_spec() == Step::Failed,
    {
        let target = self.targets[self.current].duplicate();
        self.failure = Some(ReconciliationError::ListFailed { target, cause });
    }

    /// Takes the outcomes of the current batch, one per operation in batch
    /// order. Where all succeeded the run moves to the next batch, or to the
    /// next target after the last batch; otherwise it fails with the first
    /// failed operation.
    pub fn batch_settled(&mut self, outcomes: &Vec<Result<(), RemoteError>>)
        requires
            old(self).wf(),
            old(self).step_spec() == Step::Dispatch,
            outcomes.len() == old(self).batches->0@[old(self).next_batch as int].len(),
        ensures
            final(self).wf(),
            final(self).desired == old(self).desired,
            final(self).mode == old(self).mode,
            final(self).targets == old(self).targets,
            ({
                let b = old(self).batches->0;
                let batch = b@[old(self).next_batch as int];
                match first_failure(outcomes@) {
                    Some(i) => {
                        &&& final(self).current == old(self).current
                        &&& final(self).batches == old(self).batches
                        &&& final(self).next_batch == old(self).next_batch
                        &&& final(self).failure matches Some(
                            ReconciliationError::OperationFailed { target, operation, cause },
                        )
                        &&& target@ == old(self).targets@[old(self).current as int]@
                        &&& operation@ == batch@[i]@
                        &&& outcomes@[i] == Err::<(), RemoteError>(cause)
                    },
                    None => {
                        &&& final(self).failure is None
                        &&& if old(self).next_batch + 1 < b@.len() {
                            &&& final(self).current == old(self).current
                            &&& final(self).batches == old(self).batches
                            &&& final(self).next_batch == old(self).next_batch + 1
                        } else {
                            &&& final(self).current == old(self).current + 1
                            &&& final(self).batches is None
                            &&& final(self).next_batch == 0
                        }
                    },
                }
            }),
    {
        let settled = match &self.batches {
            Some(b) => settle_batch(&self.targets[self.current], &b[self.next_batch], outcomes),
            None => Ok(()),
        };
        match settled {
            Err(e) => {
                self.failure = Some(e);
            },
            Ok(()) => {
                let n = match &self.batches {
                    Some(b) => b.len(),
                    None => 0,
                };
                if self.next_batch + 1 < n {
                    self.next_batch = self.next_batch + 1;
                } else {
                    self.current = self.current + 1;
                    self.batches = None;
                    self.next_batch = 0;
                }
            },
        }
    }
}

} // verus!
