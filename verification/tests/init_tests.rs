use twig::config::{ConfigScope, ConfigStore};
use twig::init::{init, InitError};

#[test]
fn init_seeds_local_defaults() {
    let mut store = ConfigStore::new(true, true);
    init(&mut store).unwrap();
    assert_eq!(
        store.get_scoped("branch.protected", ConfigScope::Local),
        Some("main".to_string())
    );
    assert_eq!(
        store.get_scoped("branch.base", ConfigScope::Local),
        Some("HEAD".to_string())
    );
    assert_eq!(
        store.get_scoped("branch.naming.feature", ConfigScope::Local),
        Some("feature".to_string())
    );
    assert_eq!(
        store.get_scoped("branch.naming.bugfix", ConfigScope::Local),
        Some("bugfix".to_string())
    );
}

#[test]
fn init_never_overwrites_existing_values() {
    let mut store = ConfigStore::new(true, true);
    store
        .set("branch.protected", "trunk", ConfigScope::Local)
        .unwrap();
    init(&mut store).unwrap();
    assert_eq!(
        store.get_scoped("branch.protected", ConfigScope::Local),
        Some("trunk".to_string())
    );
    // The other defaults were still seeded.
    assert_eq!(
        store.get_scoped("branch.base", ConfigScope::Local),
        Some("HEAD".to_string())
    );
}

#[test]
fn init_twice_is_idempotent() {
    let mut store = ConfigStore::new(true, true);
    init(&mut store).unwrap();
    init(&mut store).unwrap();
    assert_eq!(
        store.get_scoped("branch.protected", ConfigScope::Local),
        Some("main".to_string())
    );
    assert_eq!(store.list(Some(ConfigScope::Local)).len(), 4);
}

#[test]
fn init_leaves_global_scope_alone() {
    let mut store = ConfigStore::new(true, true);
    init(&mut store).unwrap();
    assert_eq!(store.list(Some(ConfigScope::Global)).len(), 0);
}

#[test]
fn init_outside_repository_fails() {
    let mut store = ConfigStore::new(false, true);
    assert_eq!(init(&mut store), Err(InitError::WriteFailed));
    assert_eq!(store.get_scoped("branch.protected", ConfigScope::Local), None);
}
