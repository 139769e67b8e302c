use herdr_sidebar::root::{remembered_root_key, resolve_root, RootChoice};

#[test]
fn remembered_root_keys_are_project_stable_not_tab_scoped() {
    let key = remembered_root_key("acme", r"C:\Repo\Web", false);
    assert!(key.starts_with("acme::"));
    assert!(!key.contains('\\'));
    assert!(!key.contains("w1:t"));
    let key = remembered_root_key("acme", r"C:\Repo\Web", true);
    assert_eq!(key, "acme::c:/repo/web");
}

#[test]
fn root_choice_prefers_a_live_remembered_root() {
    assert_eq!(resolve_root(Some(true), Some((true, true))), RootChoice::Remembered);
    assert_eq!(resolve_root(Some(false), Some((true, true))), RootChoice::Legacy);
    assert_eq!(resolve_root(None, Some((true, false))), RootChoice::SpawnCwd);
    assert_eq!(resolve_root(None, None), RootChoice::SpawnCwd);
}

#[test]
fn a_remembered_choice_comes_back() {
    // the legacy root was chosen; once remembered, it is the remembered root
    assert_eq!(resolve_root(None, Some((true, true))), RootChoice::Legacy);
    for later in [None, Some((false, false)), Some((true, false)), Some((true, true))] {
        assert_eq!(resolve_root(Some(true), later), RootChoice::Remembered);
    }
}
