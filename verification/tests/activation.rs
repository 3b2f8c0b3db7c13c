use agent_skills::activation::{ActivationStore, ActiveSkill};

#[test]
fn new_store_has_no_active_skill() {
    assert!(ActivationStore::new().get_active().is_none());
}

#[test]
fn set_then_get_returns_the_record() {
    let mut store = ActivationStore::new();
    store.set_active("x", Some("Read".to_string()));
    let active = store.get_active().unwrap();
    assert_eq!(active.name, "x");
    assert_eq!(active.allowed_tools, Some("Read".to_string()));
}

#[test]
fn clear_then_get_returns_nothing() {
    let mut store = ActivationStore::new();
    store.set_active("x", Some("Read".to_string()));
    store.clear_active();
    assert!(store.get_active().is_none());
    store.clear_active();
    assert!(store.get_active().is_none());
}

#[test]
fn activating_another_skill_replaces_the_first() {
    let mut store = ActivationStore::new();
    store.set_active("a", Some("Read, Grep".to_string()));
    store.set_active("b", None);
    let active = store.get_active().unwrap();
    assert_eq!(active.name, "b");
    assert_eq!(active.allowed_tools, None);
}

#[test]
fn load_holds_what_was_read_back() {
    let record = ActiveSkill { name: "kept".to_string(), allowed_tools: Some("Bash".to_string()) };
    let store = ActivationStore::load(Some(record));
    let active = store.get_active().unwrap();
    assert_eq!(active.name, "kept");
    assert_eq!(active.allowed_tools, Some("Bash".to_string()));
    assert!(ActivationStore::load(None).get_active().is_none());
}

#[test]
fn get_does_not_change_the_store() {
    let mut store = ActivationStore::new();
    store.set_active("x", None);
    let _ = store.get_active();
    assert_eq!(store.get_active().unwrap().name, "x");
}
