use twig::config::{ConfigError, ConfigScope, ConfigStore};

#[test]
fn set_then_get_returns_value() {
    let mut store = ConfigStore::new(true, true);
    store
        .set("project.email", "a@x.com", ConfigScope::Local)
        .unwrap();
    assert_eq!(store.get("project.email"), Some("a@x.com".to_string()));
}

#[test]
fn local_overrides_global() {
    let mut store = ConfigStore::new(true, true);
    store
        .set("project.email", "global@x.com", ConfigScope::Global)
        .unwrap();
    store
        .set("project.email", "local@x.com", ConfigScope::Local)
        .unwrap();
    assert_eq!(store.get("project.email"), Some("local@x.com".to_string()));
    assert_eq!(
        store.get_scoped("project.email", ConfigScope::Global),
        Some("global@x.com".to_string())
    );
}

#[test]
fn global_fills_in_when_local_unset() {
    let mut store = ConfigStore::new(true, true);
    store
        .set("project.email", "global@x.com", ConfigScope::Global)
        .unwrap();
    assert_eq!(store.get("project.email"), Some("global@x.com".to_string()));
}

#[test]
fn unset_key_is_none_not_empty() {
    let store = ConfigStore::new(true, true);
    assert_eq!(store.get("project.email"), None);
}

#[test]
fn builtin_defaults_resolve() {
    let store = ConfigStore::new(true, true);
    assert_eq!(store.get_or_default("branch.protected"), "main".to_string());
    assert_eq!(store.get_or_default("branch.base"), "HEAD".to_string());
    assert_eq!(store.get_or_default("project.email"), "".to_string());
    assert_eq!(store.get_or_default("no.such.key"), "".to_string());
}

#[test]
fn configured_value_beats_builtin_default() {
    let mut store = ConfigStore::new(true, true);
    store
        .set("branch.protected", "trunk", ConfigScope::Global)
        .unwrap();
    assert_eq!(store.get_or_default("branch.protected"), "trunk".to_string());
}

#[test]
fn set_empty_key_is_invalid() {
    let mut store = ConfigStore::new(true, true);
    assert_eq!(
        store.set("", "v", ConfigScope::Local),
        Err(ConfigError::InvalidKey)
    );
}

#[test]
fn set_unwritable_scope_fails() {
    let mut store = ConfigStore::new(false, true);
    assert_eq!(
        store.set("project.email", "a@x.com", ConfigScope::Local),
        Err(ConfigError::WriteFailed)
    );
    assert_eq!(store.get("project.email"), None);
}

#[test]
fn set_overwrites_same_key() {
    let mut store = ConfigStore::new(true, true);
    store.set("k", "one", ConfigScope::Local).unwrap();
    store.set("k", "two", ConfigScope::Local).unwrap();
    assert_eq!(store.get("k"), Some("two".to_string()));
    assert_eq!(store.list(Some(ConfigScope::Local)).len(), 1);
}

#[test]
fn list_is_sorted_by_key() {
    let mut store = ConfigStore::new(true, true);
    store.set("zeta", "3", ConfigScope::Local).unwrap();
    store.set("alpha", "1", ConfigScope::Local).unwrap();
    store.set("mid", "2", ConfigScope::Local).unwrap();
    let entries = store.list(Some(ConfigScope::Local));
    let keys: Vec<&str> = entries.iter().map(|e| e.key.as_str()).collect();
    assert_eq!(keys, vec!["alpha", "mid", "zeta"]);
}

#[test]
fn list_without_scope_puts_local_first() {
    let mut store = ConfigStore::new(true, true);
    store.set("g.key", "g", ConfigScope::Global).unwrap();
    store.set("l.key", "l", ConfigScope::Local).unwrap();
    let entries = store.list(None);
    assert_eq!(entries.len(), 2);
    assert_eq!(entries[0].key, "l.key".to_string());
    assert_eq!(entries[0].scope, ConfigScope::Local);
    assert_eq!(entries[1].key, "g.key".to_string());
    assert_eq!(entries[1].scope, ConfigScope::Global);
}
