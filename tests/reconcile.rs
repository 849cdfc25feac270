use labelr::dispatch::{settle_batch, ReconciliationError, Reconciler, RemoteError, Step, Target};
use labelr::label::{no_pound, Label, LabelOptions, Labels};
use labelr::plan::{
    create_operations, delete_operations, incremental_operations, label_exists, plan_batches,
    Operation, SyncMode,
};

fn label(name: &str, color: &str, description: Option<&str>) -> Label {
    Label::new(color.to_string(), name.to_string(), description.map(|d| d.to_string()))
}

fn options(name: &str, color: &str, description: &str) -> LabelOptions {
    LabelOptions {
        name: name.to_string(),
        color: color.to_string(),
        description: description.to_string(),
    }
}

/// What the service would hold after carrying out the operations in order.
fn apply(remote: &[Label], ops: &[Operation]) -> Vec<Label> {
    let mut state: Vec<Label> = remote.to_vec();
    for op in ops {
        match op {
            Operation::Create(o) => state.push(label(&o.name, &o.color, Some(&o.description))),
            Operation::Update(n, o) => {
                for l in state.iter_mut() {
                    if &l.name == n {
                        *l = label(&o.name, &o.color, Some(&o.description));
                    }
                }
            }
            Operation::Delete(n) => state.retain(|l| &l.name != n),
        }
    }
    state
}

#[test]
fn new_label_is_created_by_both_policies() {
    let desired = vec![label("bug", "#d73a4a", Some("Something isn't working"))];
    let remote: Vec<Label> = vec![];
    let expected = Operation::Create(options("bug", "d73a4a", "Something isn't working"));
    for update_existing in [false, true] {
        let b = plan_batches(&desired, &remote, SyncMode::Incremental { update_existing });
        assert_eq!(b, vec![vec![expected.clone()]]);
    }
    let b = plan_batches(&desired, &remote, SyncMode::FullSync);
    assert_eq!(b, vec![vec![], vec![expected]]);
}

#[test]
fn existing_label_is_skipped_or_updated() {
    let desired = vec![label("bug", "ff0000", None)];
    let remote = vec![label("bug", "d73a4a", None)];
    let skip = incremental_operations(&desired, &remote, false);
    assert!(skip.is_empty());
    let update = incremental_operations(&desired, &remote, true);
    assert_eq!(update, vec![Operation::Update("bug".to_string(), options("bug", "ff0000", ""))]);
}

#[test]
fn full_sync_deletes_then_creates() {
    let desired = vec![label("a", "000000", None)];
    let remote = vec![label("x", "111111", None), label("y", "222222", None)];
    let b = plan_batches(&desired, &remote, SyncMode::FullSync);
    assert_eq!(
        b,
        vec![
            vec![Operation::Delete("x".to_string()), Operation::Delete("y".to_string())],
            vec![Operation::Create(options("a", "000000", ""))],
        ]
    );
}

#[test]
fn full_sync_driver_awaits_deletes_before_creates() {
    let desired = vec![label("a", "000000", None)];
    let remote = vec![label("x", "111111", None), label("y", "222222", None)];
    let target = Target::new("owner".to_string(), "repo".to_string());
    let mut run = Reconciler::new(desired, SyncMode::FullSync, vec![target]);
    assert_eq!(run.next_step(), Step::Fetch);
    run.labels_listed(&remote);
    assert_eq!(run.next_step(), Step::Dispatch);
    assert_eq!(run.current_batch().len(), 2);
    assert!(run.current_batch().iter().all(|o| matches!(o, Operation::Delete(_))));
    run.batch_settled(&vec![Ok(()), Ok(())]);
    assert_eq!(run.next_step(), Step::Dispatch);
    assert_eq!(run.current_batch(), &vec![Operation::Create(options("a", "000000", ""))]);
    run.batch_settled(&vec![Ok(())]);
    assert_eq!(run.next_step(), Step::Done);
}

#[test]
fn full_sync_counts_ignore_overlap() {
    let desired = vec![label("a", "1", None), label("b", "2", None), label("c", "3", None)];
    let remote = vec![label("a", "9", None), label("z", "8", None)];
    let b = plan_batches(&desired, &remote, SyncMode::FullSync);
    assert_eq!(b.len(), 2);
    assert_eq!(b[0].len(), 2);
    assert_eq!(b[1].len(), 3);
    assert!(b[0].iter().all(|o| matches!(o, Operation::Delete(_))));
    assert!(b[1].iter().all(|o| matches!(o, Operation::Create(_))));
    let emptied = apply(&remote, &b[0]);
    assert!(emptied.is_empty());
    let held = apply(&emptied, &b[1]);
    let expected: Vec<Label> = desired
        .iter()
        .map(|d| {
            let o = d.to_label_options();
            label(&o.name, &o.color, Some(&o.description))
        })
        .collect();
    assert_eq!(held, expected);
    assert_eq!(delete_operations(&remote), b[0]);
    assert_eq!(create_operations(&desired), b[1]);
}

#[test]
fn full_sync_with_no_labels_anywhere() {
    let b = plan_batches(&vec![], &vec![], SyncMode::FullSync);
    assert_eq!(b, vec![vec![], vec![]]);
}

#[test]
fn incremental_run_twice_converges() {
    let desired = vec![
        label("bug", "#ff0000", Some("broken")),
        label("docs", "0000ff", None),
        label("new", "00ff00", None),
    ];
    let remote = vec![label("bug", "d73a4a", None), label("docs", "0000ff", Some("")), label("old", "aaaaaa", None)];
    let first = incremental_operations(&desired, &remote, true);
    let after = apply(&remote, &first);
    let second = incremental_operations(&desired, &after, true);
    assert_eq!(second.len(), desired.len());
    assert!(second.iter().all(|o| matches!(o, Operation::Update(_, _))));
    assert_eq!(apply(&after, &second), after);
    assert!(incremental_operations(&desired, &after, false).is_empty());
}

#[test]
fn skip_law_emits_nothing_for_existing_names() {
    let desired = vec![label("bug", "1", None), label("new", "2", None), label("bug", "3", None)];
    let remote = vec![label("bug", "0", None)];
    let ops = incremental_operations(&desired, &remote, false);
    assert_eq!(ops, vec![Operation::Create(options("new", "2", ""))]);
}

#[test]
fn name_match_is_case_sensitive() {
    let remote = vec![label("bug", "d73a4a", None)];
    assert!(!label_exists(&remote, &"Bug".to_string()));
    assert!(label_exists(&remote, &"bug".to_string()));
    let desired = vec![label("Bug", "ff0000", None)];
    let ops = incremental_operations(&desired, &remote, false);
    assert_eq!(ops, vec![Operation::Create(options("Bug", "ff0000", ""))]);
}

#[test]
fn color_loses_only_its_leading_pound() {
    assert_eq!(no_pound("#FF0000"), "FF0000");
    assert_eq!(no_pound("FF0000"), "FF0000");
    assert_eq!(no_pound("##ab"), "#ab");
    assert_eq!(no_pound("a#b"), "a#b");
    assert_eq!(no_pound(""), "");
    let a = label("x", "#FF0000", None).to_label_options();
    let b = label("x", "FF0000", None).to_label_options();
    assert_eq!(a, b);
    assert_eq!(a.color, "FF0000");
}

#[test]
fn label_options_fill_in_description() {
    let o = label("bug", "#FEFEFE", Some("This is a bug")).to_label_options();
    assert_eq!(o, options("bug", "FEFEFE", "This is a bug"));
    let o = label("bug", "#FEFEFE", None).to_label_options();
    assert_eq!(o.description, "");
}

#[test]
fn labels_compare_by_fields() {
    let a = Labels { labels: vec![label("bug", "#FEFEFE", Some("This is a bug"))] };
    let b = Labels { labels: vec![label("bug", "#FEFEFE", Some("This is a bug"))] };
    let c = Labels { labels: vec![label("bug", "#FEFEFE", None)] };
    assert!(a == b);
    assert!(a != c);
    assert!(a != Labels { labels: vec![] });
    assert!(label("a", "1", None) != label("a", "2", None));
}

#[test]
fn duplicate_names_are_found() {
    let ok = Labels { labels: vec![label("a", "1", None), label("b", "2", None)] };
    assert_eq!(ok.duplicate_name(), None);
    let dup = Labels {
        labels: vec![label("a", "1", None), label("b", "2", None), label("a", "3", None)],
    };
    assert_eq!(dup.duplicate_name(), Some("a".to_string()));
    assert_eq!(Labels { labels: vec![] }.duplicate_name(), None);
}

#[test]
fn batch_fails_with_first_failure() {
    let target = Target::new("o".to_string(), "r".to_string());
    let batch = vec![
        Operation::Delete("a".to_string()),
        Operation::Delete("b".to_string()),
        Operation::Delete("c".to_string()),
    ];
    let err = |m: &str| Err(RemoteError { message: m.to_string() });
    let outcomes = vec![Ok(()), err("first"), err("second")];
    let r = settle_batch(&target, &batch, &outcomes);
    assert_eq!(
        r,
        Err(ReconciliationError::OperationFailed {
            target: target.clone(),
            operation: Operation::Delete("b".to_string()),
            cause: RemoteError { message: "first".to_string() },
        })
    );
    assert_eq!(settle_batch(&target, &batch, &vec![Ok(()), Ok(()), Ok(())]), Ok(()));
    assert_eq!(settle_batch(&target, &vec![], &vec![]), Ok(()));
}

#[test]
fn failure_stops_remaining_targets() {
    let desired = vec![label("a", "1", None)];
    let targets = vec![
        Target::new("o".to_string(), "one".to_string()),
        Target::new("o".to_string(), "two".to_string()),
        Target::new("o".to_string(), "three".to_string()),
    ];
    let mut run = Reconciler::new(desired, SyncMode::Incremental { update_existing: true }, targets);
    assert_eq!(run.current_target().repository, "one");
    run.labels_listed(&vec![label("a", "0", None)]);
    assert_eq!(
        run.current_batch(),
        &vec![Operation::Update("a".to_string(), options("a", "1", ""))]
    );
    run.batch_settled(&vec![Ok(())]);
    assert_eq!(run.next_step(), Step::Fetch);
    assert_eq!(run.current_target().repository, "two");
    run.labels_listed(&vec![]);
    run.batch_settled(&vec![Err(RemoteError { message: "rate limited".to_string() })]);
    assert_eq!(run.next_step(), Step::Failed);
    match &run.failure {
        Some(ReconciliationError::OperationFailed { target, operation, cause }) => {
            assert_eq!(target.repository, "two");
            assert_eq!(operation, &Operation::Create(options("a", "1", "")));
            assert_eq!(cause.message, "rate limited");
        }
        other => panic!("unexpected failure: {:?}", other),
    }
}

#[test]
fn listing_failure_stops_the_run() {
    let targets = vec![Target::new("o".to_string(), "one".to_string())];
    let mut run = Reconciler::new(vec![], SyncMode::FullSync, targets);
    run.listing_failed(RemoteError { message: "not found".to_string() });
    assert_eq!(run.next_step(), Step::Failed);
    assert_eq!(
        run.failure,
        Some(ReconciliationError::ListFailed {
            target: Target::new("o".to_string(), "one".to_string()),
            cause: RemoteError { message: "not found".to_string() },
        })
    );
}

#[test]
fn run_without_targets_is_done() {
    let run = Reconciler::new(vec![], SyncMode::FullSync, vec![]);
    assert_eq!(run.next_step(), Step::Done);
}

#[test]
fn label_from_transmitted_fields() {
    let l = Label::from_options(&options("bug", "#FEFEFE", "This is a bug"));
    assert!(l == label("bug", "FEFEFE", Some("This is a bug")));
    let l = Label::from_options(&options("x", "abc", ""));
    assert!(l == label("x", "abc", Some("")));
}
