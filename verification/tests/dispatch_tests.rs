use twig::branch::{Branch, CleanScope};
use twig::config::{ConfigScope, ConfigStore};
use twig::dispatch::{execute, Request, Response};
use twig::planner::ExcludeReason;

fn local_branch(name: &str, merged: bool, author: &str) -> Branch {
    Branch {
        name: name.to_string(),
        is_local: true,
        is_remote: false,
        upstream: None,
        merged,
        last_commit_author: Some(author.to_string()),
    }
}

#[test]
fn config_set_then_get_round_trip() {
    let mut store = ConfigStore::new(true, true);
    let none: Vec<String> = Vec::new();
    let set = execute(
        Request::ConfigSet {
            name: "project.email".to_string(),
            value: "a@x.com".to_string(),
            scope: ConfigScope::Local,
        },
        &mut store,
        Vec::new(),
        "main",
        &none,
    );
    match set {
        Response::SetOutcome(r) => assert_eq!(r, Ok(())),
        _ => panic!("config set answered with the wrong response kind"),
    }
    let get = execute(
        Request::ConfigGet {
            name: "project.email".to_string(),
        },
        &mut store,
        Vec::new(),
        "main",
        &none,
    );
    match get {
        Response::Value(v) => assert_eq!(v, Some("a@x.com".to_string())),
        _ => panic!("config get answered with the wrong response kind"),
    }
}

#[test]
fn clean_request_plans_the_inventory() {
    let mut store = ConfigStore::new(true, true);
    let none: Vec<String> = Vec::new();
    let inventory = vec![
        local_branch("feat/1", true, "a@x.com"),
        local_branch("feat/2", false, "a@x.com"),
    ];
    let r = execute(
        Request::Clean {
            scope: CleanScope::Local,
            assignee: "a@x.com".to_string(),
            any: false,
        },
        &mut store,
        inventory,
        "main",
        &none,
    );
    match r {
        Response::Planned(p) => {
            assert_eq!(p.included.len(), 1);
            assert_eq!(p.included[0].name, "feat/1".to_string());
            assert_eq!(p.excluded[0].1, ExcludeReason::Unmerged);
        }
        _ => panic!("clean answered with the wrong response kind"),
    }
}

#[test]
fn create_request_derives_the_branch() {
    let mut store = ConfigStore::new(true, true);
    let none: Vec<String> = Vec::new();
    let r = execute(
        Request::Create {
            issue: "ISSUE-9".to_string(),
            issue_type: "feature".to_string(),
            push: true,
        },
        &mut store,
        Vec::new(),
        "main",
        &none,
    );
    match r {
        Response::Created(res) => {
            let spec = res.unwrap();
            assert_eq!(spec.name, "feature/ISSUE-9".to_string());
            assert!(spec.push);
        }
        _ => panic!("create answered with the wrong response kind"),
    }
}

#[test]
fn init_request_seeds_defaults() {
    let mut store = ConfigStore::new(true, true);
    let none: Vec<String> = Vec::new();
    let r = execute(Request::Init, &mut store, Vec::new(), "main", &none);
    match r {
        Response::InitOutcome(res) => assert_eq!(res, Ok(())),
        _ => panic!("init answered with the wrong response kind"),
    }
    assert_eq!(store.get_or_default("branch.protected"), "main".to_string());
}

#[test]
fn config_list_request_lists_entries() {
    let mut store = ConfigStore::new(true, true);
    store.set("a.key", "1", ConfigScope::Local).unwrap();
    let none: Vec<String> = Vec::new();
    let r = execute(
        Request::ConfigList { scope: None },
        &mut store,
        Vec::new(),
        "main",
        &none,
    );
    match r {
        Response::Entries(es) => {
            assert_eq!(es.len(), 1);
            assert_eq!(es[0].key, "a.key".to_string());
            assert_eq!(es[0].value, "1".to_string());
        }
        _ => panic!("config list answered with the wrong response kind"),
    }
}
