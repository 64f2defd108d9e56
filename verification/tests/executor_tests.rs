use twig::branch::Branch;
use twig::executor::{DeleteError, Executor};
use twig::planner::CleanupPlan;

fn branch(name: &str) -> Branch {
    Branch {
        name: name.to_string(),
        is_local: true,
        is_remote: false,
        upstream: None,
        merged: true,
        last_commit_author: Some("a@x.com".to_string()),
    }
}

#[test]
fn targets_follow_plan_order() {
    let p = CleanupPlan {
        included: vec![branch("one"), branch("two")],
        excluded: Vec::new(),
    };
    let mut ex = Executor::new(p);
    assert_eq!(ex.next_target().unwrap().name, "one".to_string());
    ex.record(Ok(()));
    assert_eq!(ex.next_target().unwrap().name, "two".to_string());
    ex.record(Ok(()));
    assert!(ex.next_target().is_none());
}

#[test]
fn failure_on_one_branch_does_not_block_the_next() {
    let p = CleanupPlan {
        included: vec![branch("one"), branch("two")],
        excluded: Vec::new(),
    };
    let mut ex = Executor::new(p);
    assert_eq!(ex.next_target().unwrap().name, "one".to_string());
    ex.record(Err(DeleteError::RemoteRejected));
    // The batch goes on: branch two is still offered for deletion.
    assert_eq!(ex.next_target().unwrap().name, "two".to_string());
    ex.record(Ok(()));
    let report = ex.into_report();
    assert_eq!(report.len(), 2);
    assert_eq!(report[0].0.name, "one".to_string());
    assert_eq!(report[0].1, Err(DeleteError::RemoteRejected));
    assert_eq!(report[1].0.name, "two".to_string());
    assert_eq!(report[1].1, Ok(()));
}

#[test]
fn executor_only_targets_planned_branches() {
    // The excluded branch never becomes a target.
    let p = CleanupPlan {
        included: vec![branch("planned")],
        excluded: vec![(branch("held-back"), twig::planner::ExcludeReason::Unmerged)],
    };
    let mut ex = Executor::new(p);
    let mut targets: Vec<String> = Vec::new();
    while let Some(b) = ex.next_target() {
        targets.push(b.name.clone());
        ex.record(Ok(()));
    }
    assert_eq!(targets, vec!["planned".to_string()]);
}

#[test]
fn empty_plan_reports_nothing() {
    let p = CleanupPlan {
        included: Vec::new(),
        excluded: Vec::new(),
    };
    let ex = Executor::new(p);
    assert!(ex.next_target().is_none());
    assert_eq!(ex.into_report().len(), 0);
}

#[test]
fn every_error_kind_is_reported_in_place() {
    let p = CleanupPlan {
        included: vec![branch("a"), branch("b"), branch("c")],
        excluded: Vec::new(),
    };
    let mut ex = Executor::new(p);
    ex.record(Err(DeleteError::ProtectedRef));
    ex.record(Err(DeleteError::NotFound));
    ex.record(Err(DeleteError::RemoteRejected));
    let report = ex.into_report();
    assert_eq!(report[0].1, Err(DeleteError::ProtectedRef));
    assert_eq!(report[1].1, Err(DeleteError::NotFound));
    assert_eq!(report[2].1, Err(DeleteError::RemoteRejected));
}
