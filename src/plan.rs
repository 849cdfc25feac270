use vstd::prelude::*;
use crate::label::{Label, LabelOptions, LabelOptionsView, LabelView, labels_view, options_of};

verus! {

/// How remote labels are brought in line with the declared ones.
#[derive(Debug, Clone, Copy, PartialEq, Eq, Structural)]
pub enum SyncMode {
    /// Delete every remote label, then create every declared one.
    FullSync,
    /// Create the declared labels that are missing; labels already present
    /// are updated only where `update_existing` is set.
    Incremental { update_existing: bool },
}

/// One action against the labels of one repository.
#[derive(Debug, Clone, PartialEq, Eq)]
pub enum Operation {
    Create(LabelOptions),
    Update(String, LabelOptions),
    Delete(String),
}

pub enum OperationView {
    Create(LabelOptionsView),
    Update(Seq<char>, LabelOptionsView),
    Delete(Seq<char>),
}

impl View for Operation {
    type V = OperationView;

    open spec fn view(&self) -> OperationView {
        match self {
            Operation::Create(o) => OperationView::Create(o@),
            Operation::Update(n, o) => OperationView::Update(n@, o@),
            Operation::Delete(n) => OperationView::Delete(n@),
        }
    }
}

pub open spec fn ops_view(s: Seq<Operation>) -> Seq<OperationView> {
    s.map_values(|o: Operation| o@)
}

pub open spec fn batches_view(s: Seq<Vec<Operation>>) -> Seq<Seq<OperationView>> {
    s.map_values(|b: Vec<Operation>| ops_view(b@))
}

/// The name of the label an operation acts on.
pub open spec fn op_name(op: OperationView) -> Seq<char> {
    match op {
        OperationView::Create(o) => o.name,
        OperationView::Update(n, _) => n,
        OperationView::Delete(n) => n,
    }
}

/// Some label of `r` is named exactly `n` (same characters, same case).
pub open spec fn has_name(r: Seq<LabelView>, n: Seq<char>) -> bool {
    exists|i: int| 0 <= i < r.len() && #[trigger] r[i].name == n
}

/// What the incremental policy does for one declared label.
pub open spec fn incremental_op(
    d: LabelView,
    r: Seq<LabelView>,
    update_existing: bool,
) -> Seq<OperationView> {
    if !has_name(r, d.name) {
        seq![OperationView::Create(options_of(d))]
    } else if update_existing {
        seq![OperationView::Update(d.name, options_of(d))]
    } else {
        Seq::empty()
    }
}

/// The incremental policy over the declared labels, in their order.
pub open spec fn incremental_ops(
    ds: Seq<LabelView>,
    r: Seq<LabelView>,
    update_existing: bool,
) -> Seq<OperationView>
    decreases ds.len(),
{
    if ds.len() == 0 {
        Seq::empty()
    } else {
        incremental_ops(ds.drop_last(), r, update_existing) + incremental_op(
            ds.last(),
            r,
            update_existing,
        )
    }
}

/// A delete for every remote label, in the order they were listed.
pub open spec fn deletions(r: Seq<LabelView>) -> Seq<OperationView> {
    r.map_values(|l: LabelView| OperationView::Delete(l.name))
}

/// A create for every declared label, in the declared order.
pub open spec fn creations(ds: Seq<LabelView>) -> Seq<OperationView> {
    ds.map_values(|d: LabelView| OperationView::Create(options_of(d)))
}

/// The batches a policy dispatches, in order: each batch is awaited in full
/// before the next one starts.
pub open spec fn planned_batches(
    ds: Seq<LabelView>,
    r: Seq<LabelView>,
    mode: SyncMode,
) -> Seq<Seq<OperationView>> {
    match mode {
        SyncMode::FullSync => seq![deletions(r), creations(ds)],
        SyncMode::Incremental { update_existing } => seq![incremental_ops(ds, r, update_existing)],
    }
}

/// Tells whether some remote label carries exactly this name.
pub fn label_exists(remote: &Vec<Label>, name: &String) -> (r: bool)
    ensures
        r == has_name(labels_view(remote@), name@),
{
    let ghost rv = labels_view(remote@);
    let mut i: usize = 0;
    while i < remote.len()
        invariant
            i <= remote.len(),
            rv == labels_view(remote@),
            forall|j: int| 0 <= j < i ==> rv[j].name != name@,
        decreases remote.len() - i,
    {
        if remote[i].name == *name {
            assert(rv[i as int].name == name@);
            return true;
        }
        i = i + 1;
    }
    false
}

/// A delete for each remote label.
pub fn delete_operations(remote: &Vec<Label>) -> (r: Vec<Operation>)
    ensures
        ops_view(r@) == deletions(labels_view(remote@)),
{
    let ghost rv = labels_view(remote@);
    let mut out: Vec<Operation> = Vec::new();
    let mut i: usize = 0;
    while i < remote.len()
        invariant
            i <= remote.len(),
            rv == labels_view(remote@),
            out@.len() == i,
            ops_view(out@) =~= deletions(rv.take(i as int)),
        decreases remote.len() - i,
    {
        let ghost prev = out@;
        out.push(Operation::Delete(remote[i].name.clone()));
        assert(rv[i as int] == remote@[i as int]@);
        assert forall|k: int| 0 <= k <= i implies #[trigger] ops_view(out@)[k] == deletions(
            rv.take(i + 1),
        )[k] by {
            if k < i {
                assert(out@[k] == prev[k]);
                assert(ops_view(prev)[k] == deletions(rv.take(i as int))[k]);
            }
        }
        i = i + 1;
        assert(ops_view(out@) =~= deletions(rv.take(i as int)));
    }
    assert(rv.take(i as int) =~= rv);
    out
}

/// A create for each declared label.
pub fn create_operations(desired: &Vec<Label>) -> (r: Vec<Operation>)
    ensures
        ops_view(r@) == creations(labels_view(desired@)),
{
    let ghost dv = labels_view(desired@);
    let mut out: Vec<Operation> = Vec::new();
    let mut i: usize = 0;
    while i < desired.len()
        invariant
            i <= desired.len(),
            dv == labels_view(desired@),
            out@.len() == i,
            ops_view(out@) =~= creations(dv.take(i as int)),
        decreases desired.len() - i,
    {
        let ghost prev = out@;
        out.push(Operation::Create(desired[i].to_label_options()));
        assert(dv[i as int] == desired@[i as int]@);
        assert forall|k: int| 0 <= k <= i implies #[trigger] ops_view(out@)[k] == creations(
            dv.take(i + 1),
        )[k] by {
            if k < i {
                assert(out@[k] == prev[k]);
                assert(ops_view(prev)[k] == creations(dv.take(i as int))[k]);
            }
        }
        i = i + 1;
        assert(ops_view(out@) =~= creations(dv.take(i as int)));
    }
    assert(dv.take(i as int) =~= dv);
    out
}

/// The incremental policy: a create for each declared label that no remote
/// label is named after, an update for each one that is, where
/// `update_existing` is set, and nothing for it otherwise.
pub fn incremental_operations(
    desired: &Vec<Label>,
    remote: &Vec<Label>,
    update_existing: bool,
) -> (r: Vec<Operation>)
    ensures
        ops_view(r@) == incremental_ops(
            labels_view(desired@),
            labels_view(remote@),
            update_existing,
        ),
{
    let ghost dv = labels_view(desired@);
    let ghost rv = labels_view(remote@);
    let mut out: Vec<Operation> = Vec::new();
    let mut i: usize = 0;
    while i < desired.len()
        invariant
            i <= desired.len(),
            dv == labels_view(desired@),
            rv == labels_view(remote@),
            ops_view(out@) =~= incremental_ops(dv.take(i as int), rv, update_existing),
        decreases desired.len() - i,
    {
        let d = &desired[i];
        assert(dv.take(i + 1).drop_last() =~= dv.take(i as int));
        assert(dv.take(i + 1).last() == d@);
        if !label_exists(remote, &d.name) {
            out.push(Operation::Create(d.to_label_options()));
        } else if update_existing {
            out.push(Operation::Update(d.name.clone(), d.to_label_options()));
        }
        i = i + 1;
        assert(ops_view(out@) =~= incremental_ops(dv.take(i as int), rv, update_existing));
    }
    assert(dv.take(i as int) =~= dv);
    out
}

/// The batches to dispatch against one repository, in order. Under full
/// synchronisation the deletes of every remote label come first and the
/// creates of every declared label second; the incremental policy has one
/// batch.
pub fn plan_batches(desired: &Vec<Label>, remote: &Vec<Label>, mode: SyncMode) -> (r: Vec<
    Vec<Operation>,
>)
    ensures
        batches_view(r@) == planned_batches(labels_view(desired@), labels_view(remote@), mode),
{
    let mut out: Vec<Vec<Operation>> = Vec::new();
    match mode {
        SyncMode::FullSync => {
            out.push(delete_operations(remote));
            out.push(create_operations(desired));
        },
        SyncMode::Incremental { update_existing } => {
            out.push(incremental_operations(desired, remote, update_existing));
        },
    }
    assert(batches_view(out@) =~= planned_batches(
        labels_view(desired@),
        labels_view(remote@),
        mode,
    ));
    out
}

} // verus!

verus! {

impl Operation {
    /// A copy with the same contents.
    pub fn duplicate(&self) -> (r: Operation)
        ensures
            r@ == self@,
    {
        match self {
            Operation::Create(o) => Operation::Create(o.duplicate()),
            Operation::Update(n, o) => Operation::Update(n.clone(), o.duplicate()),
            Operation::Delete(n) => Operation::Delete(n.clone()),
        }
    }
}

} // verus!
