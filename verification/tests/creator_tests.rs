use twig::config::{ConfigScope, ConfigStore};
use twig::creator::{create, derive_name, CreateError, IssueRef};

fn issue(id: &str, ty: &str) -> IssueRef {
    IssueRef {
        issue_id: id.to_string(),
        issue_type: ty.to_string(),
    }
}

#[test]
fn typed_issue_gets_type_prefix_without_template() {
    let store = ConfigStore::new(true, true);
    let existing: Vec<String> = Vec::new();
    let spec = create(&issue("ISSUE-9", "feature"), false, &store, &existing).unwrap();
    assert_eq!(spec.name, "feature/ISSUE-9".to_string());
    assert_eq!(spec.base_ref, "HEAD".to_string());
    assert!(!spec.push);
}

#[test]
fn untyped_issue_is_the_bare_name() {
    let store = ConfigStore::new(true, true);
    let existing: Vec<String> = Vec::new();
    let spec = create(&issue("ISSUE-9", ""), false, &store, &existing).unwrap();
    assert_eq!(spec.name, "ISSUE-9".to_string());
}

#[test]
fn configured_template_beats_the_type() {
    let mut store = ConfigStore::new(true, true);
    store
        .set("branch.naming.feature", "feat", ConfigScope::Local)
        .unwrap();
    assert_eq!(
        derive_name("ISSUE-9", "feature", &store),
        "feat/ISSUE-9".to_string()
    );
}

#[test]
fn default_template_key_drives_untyped_issues() {
    let mut store = ConfigStore::new(true, true);
    store
        .set("branch.naming.default", "task", ConfigScope::Global)
        .unwrap();
    assert_eq!(derive_name("ISSUE-9", "", &store), "task/ISSUE-9".to_string());
}

#[test]
fn empty_issue_is_invalid() {
    let store = ConfigStore::new(true, true);
    let existing: Vec<String> = Vec::new();
    let r = create(&issue("", "feature"), false, &store, &existing);
    assert!(matches!(r, Err(CreateError::InvalidIssue)));
}

#[test]
fn second_create_of_same_issue_collides() {
    let store = ConfigStore::new(true, true);
    let mut existing: Vec<String> = Vec::new();
    let first = create(&issue("ISSUE-1", ""), false, &store, &existing).unwrap();
    existing.push(first.name.clone());
    let second = create(&issue("ISSUE-1", ""), false, &store, &existing);
    assert!(matches!(second, Err(CreateError::BranchExists)));
}

#[test]
fn collision_check_is_exact() {
    let store = ConfigStore::new(true, true);
    let existing = vec!["feature/ISSUE-10".to_string()];
    let spec = create(&issue("ISSUE-1", "feature"), false, &store, &existing).unwrap();
    assert_eq!(spec.name, "feature/ISSUE-1".to_string());
}

#[test]
fn push_flag_is_carried_through() {
    let store = ConfigStore::new(true, true);
    let existing: Vec<String> = Vec::new();
    let spec = create(&issue("ISSUE-9", ""), true, &store, &existing).unwrap();
    assert!(spec.push);
}

#[test]
fn configured_base_ref_is_used() {
    let mut store = ConfigStore::new(true, true);
    store
        .set("branch.base", "develop", ConfigScope::Local)
        .unwrap();
    let existing: Vec<String> = Vec::new();
    let spec = create(&issue("ISSUE-9", ""), false, &store, &existing).unwrap();
    assert_eq!(spec.base_ref, "develop".to_string());
}
