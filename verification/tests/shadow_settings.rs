use lpsettings::{Location, Settings, SettingsError, ShadowSettings};

fn tree_holding(entries: &[(&str, &str)]) -> Settings {
    let mut tree = Settings::new();
    for (key, value) in entries {
        assert_eq!(tree.set_value(key, value), Ok(()));
    }
    tree
}

fn stored(tree: Option<Settings>) -> Option<String> {
    tree.map(|tree| match tree.save() {
        Ok(text) => text,
        Err(error) => panic!("unexpected {:?}", error),
    })
}

fn loaded(global: Option<Settings>, local: Option<Settings>) -> ShadowSettings {
    let mut settings = ShadowSettings::new();
    let global = stored(global);
    let local = stored(local);
    settings.load(global.as_deref(), local.as_deref());
    settings
}

#[test]
fn local_wins_at_best_location() {
    let settings =
        loaded(Some(tree_holding(&[("x.y", "1")])), Some(tree_holding(&[("x.y", "2")])));
    assert_eq!(settings.get_value("x.y", Location::Best), Some("2".to_string()));
    assert_eq!(settings.get_value("x.y", Location::Global), Some("1".to_string()));
    assert_eq!(settings.get_value("x.y", Location::Local), Some("2".to_string()));
    assert_eq!(settings.get_value_global("x.y"), Some("1".to_string()));
    assert_eq!(settings.get_value_local("x.y"), Some("2".to_string()));
}

#[test]
fn global_is_the_fallback() {
    let settings = loaded(Some(tree_holding(&[("x.y", "1")])), None);
    assert_eq!(settings.get_value("x.y", Location::Best), Some("1".to_string()));
    assert_eq!(settings.get_value("x.y", Location::Global), Some("1".to_string()));
    assert_eq!(settings.get_value("x.y", Location::Local), None);
    assert_eq!(settings.get_value_local("x.y"), None);
}

#[test]
fn local_section_hides_global_value() {
    let settings =
        loaded(Some(tree_holding(&[("x.y", "1")])), Some(tree_holding(&[("x.y.z", "2")])));
    assert_eq!(settings.get_value("x.y", Location::Best), Some("is complex".to_string()));
    assert_eq!(settings.get_value("x.y", Location::Global), Some("1".to_string()));
}

#[test]
fn sections_are_not_blended() {
    let settings =
        loaded(Some(tree_holding(&[("x.a", "1")])), Some(tree_holding(&[("x.b", "2")])));
    assert_eq!(settings.get_value("x.a", Location::Best), Some("1".to_string()));
    assert_eq!(settings.get_value("x.b", Location::Best), Some("2".to_string()));
    assert_eq!(settings.get_value("x.a", Location::Local), None);
    assert_eq!(settings.get_value("x.b", Location::Global), None);
    assert_eq!(settings.get_value("x", Location::Best), Some("is complex".to_string()));
}

#[test]
fn new_shadow_settings_are_empty() {
    let settings = ShadowSettings::new();
    assert_eq!(settings.get_value("x.y", Location::Best), None);
    assert!(settings.keys_local().is_empty());
    assert!(settings.keys_global().is_empty());
    assert_eq!(settings.save(), Ok((None, None)));
}

#[test]
fn failed_load_leaves_empty_trees() {
    let mut settings = ShadowSettings::new();
    assert_eq!(settings.set_value_global("a.b", "1"), Ok(None));
    settings.load(None, Some("a.b = 2"));
    assert_eq!(settings.get_value("a.b", Location::Best), None);
    assert_eq!(settings.get_value("a", Location::Best), None);
    assert!(settings.keys_local().is_empty());
    assert!(settings.keys_global().is_empty());
    assert_eq!(settings.save(), Ok((None, None)));
}

#[test]
fn load_replaces_both_trees() {
    let mut settings = loaded(Some(tree_holding(&[("old.g", "1")])), Some(tree_holding(&[("old.l", "2")])));
    assert_eq!(settings.set_value_local("old.l", "3"), Ok(Some("2".to_string())));
    settings.load(Some("[new]\ng = \"4\"\n"), Some("[broken"));
    assert_eq!(settings.get_value("old.g", Location::Best), None);
    assert_eq!(settings.get_value("old.l", Location::Best), None);
    assert_eq!(settings.get_value("new.g", Location::Best), Some("4".to_string()));
    assert_eq!(settings.keys_global(), vec!["new".to_string()]);
    assert!(settings.keys_local().is_empty());
    assert_eq!(settings.save(), Ok((None, None)));
}

#[test]
fn set_local_returns_previous_best_value() {
    let mut settings = loaded(Some(tree_holding(&[("x.y", "1")])), None);
    assert_eq!(settings.set_value_local("x.y", "2"), Ok(Some("1".to_string())));
    assert_eq!(settings.set_value_local("x.y", "3"), Ok(Some("2".to_string())));
    assert_eq!(settings.get_value_global("x.y"), Some("1".to_string()));
    assert_eq!(settings.get_value_local("x.y"), Some("3".to_string()));
    assert_eq!(settings.get_value("x.y", Location::Best), Some("3".to_string()));
}

#[test]
fn set_global_returns_previous_best_value() {
    let mut settings = loaded(None, Some(tree_holding(&[("x.y", "local")])));
    assert_eq!(settings.set_value_global("x.y", "global"), Ok(Some("local".to_string())));
    assert_eq!(settings.get_value_global("x.y"), Some("global".to_string()));
    assert_eq!(settings.get_value_local("x.y"), Some("local".to_string()));
    assert_eq!(settings.set_value_global("q.r", "new"), Ok(None));
}

#[test]
fn set_value_goes_by_location() {
    let mut settings = ShadowSettings::new();
    assert_eq!(settings.set_value("a.b", "l", Location::Local), Ok(None));
    assert_eq!(settings.set_value("a.c", "g", Location::Global), Ok(None));
    assert_eq!(settings.set_value("a.d", "b", Location::Best), Ok(None));
    assert_eq!(settings.get_value_local("a.b"), Some("l".to_string()));
    assert_eq!(settings.get_value_global("a.b"), None);
    assert_eq!(settings.get_value_global("a.c"), Some("g".to_string()));
    assert_eq!(settings.get_value_global("a.d"), Some("b".to_string()));
    assert_eq!(settings.get_value_local("a.d"), None);
}

#[test]
fn refused_set_changes_nothing() {
    let mut settings = loaded(Some(tree_holding(&[("x.y", "1")])), None);
    assert_eq!(settings.set_value_local("x", "2"), Err(SettingsError::InvalidPath));
    assert_eq!(settings.set_value_global("x", "2"), Err(SettingsError::InvalidPath));
    assert_eq!(settings.set_value("x..y", "2", Location::Local), Err(SettingsError::InvalidPath));
    assert_eq!(settings.get_value("x.y", Location::Best), Some("1".to_string()));
    assert_eq!(settings.get_value("x", Location::Local), None);
    assert_eq!(settings.save(), Ok((None, None)));
}

#[test]
fn keys_per_tree() {
    let settings = loaded(
        Some(tree_holding(&[("user.name", "n"), ("user.email", "e"), ("build.os", "linux")])),
        Some(tree_holding(&[("project.root", "/")])),
    );
    let mut global = settings.keys_global();
    global.sort();
    assert_eq!(global, vec!["build".to_string(), "user".to_string()]);
    assert_eq!(settings.keys_local(), vec!["project".to_string()]);
}

#[test]
fn get_value_or_reads_best_location() {
    let settings =
        loaded(Some(tree_holding(&[("x.y", "1"), ("x.z", "g")])), Some(tree_holding(&[("x.y", "2")])));
    assert_eq!(settings.get_value_or("x.y", "d"), "2");
    assert_eq!(settings.get_value_or("x.z", "d"), "g");
    assert_eq!(settings.get_value_or("x.w", "d"), "d");
}

#[test]
fn save_writes_the_changed_trees() {
    let mut settings = loaded(Some(tree_holding(&[("x.y", "1")])), None);
    assert_eq!(settings.save(), Ok((None, None)));
    assert_eq!(settings.save_at(Location::Global), Ok(None));
    assert_eq!(settings.set_value_local("x.y", "2"), Ok(Some("1".to_string())));
    let first = settings.save();
    let (global, local) = match first.clone() {
        Ok(texts) => texts,
        Err(error) => panic!("unexpected {:?}", error),
    };
    assert_eq!(global, None);
    let local = match local {
        Some(text) => text,
        None => panic!("the local tree was written to"),
    };
    assert_eq!(Settings::load_from_or_empty(Some(&local)).get_value("x.y"), Some("2".to_string()));
    assert_eq!(settings.save(), first);
    assert_eq!(settings.save_at(Location::Local), Ok(Some(local)));
    assert_eq!(settings.save_at(Location::Global), Ok(None));
    assert_eq!(settings.save_at(Location::Best), Ok(None));

    assert_eq!(settings.set_value_global("x.z", "3"), Ok(None));
    let (global, local) = match settings.save() {
        Ok(texts) => texts,
        Err(error) => panic!("unexpected {:?}", error),
    };
    assert!(local.is_some());
    let global = match global {
        Some(text) => text,
        None => panic!("the global tree was written to"),
    };
    let global = Settings::load_from_or_empty(Some(&global));
    assert_eq!(global.get_value("x.y"), Some("1".to_string()));
    assert_eq!(global.get_value("x.z"), Some("3".to_string()));
    assert_eq!(settings.global().get_value("x.z"), Some("3".to_string()));
    assert_eq!(settings.local().get_value("x.y"), Some("2".to_string()));
}

#[test]
fn load_is_remembered() {
    let mut settings = ShadowSettings::new();
    assert!(!settings.is_loaded());
    assert_eq!(settings.set_value_local("a.b", "1"), Ok(None));
    assert!(!settings.is_loaded());
    settings.load(None, None);
    assert!(settings.is_loaded());
    assert_eq!(settings.get_value("a.b", Location::Best), None);
    assert_eq!(settings.set_value_global("a.b", "2"), Ok(None));
    assert!(settings.is_loaded());
}

#[test]
fn answer_is_kept_unless_empty() {
    let mut settings = loaded(Some(tree_holding(&[("user.name", "ada")])), None);
    assert_eq!(settings.answer_global("user.name", ""), Ok(false));
    assert_eq!(settings.get_value_global("user.name"), Some("ada".to_string()));
    assert_eq!(settings.save(), Ok((None, None)));
    assert_eq!(settings.answer_global("user.name", "grace"), Ok(true));
    assert_eq!(settings.get_value_global("user.name"), Some("grace".to_string()));
    assert_eq!(settings.get_value_local("user.name"), None);
    assert_eq!(settings.answer_global("user", "x"), Err(SettingsError::InvalidPath));
    assert_eq!(settings.answer_global("user", ""), Ok(false));
    assert!(matches!(settings.save(), Ok((Some(_), None))));
}
