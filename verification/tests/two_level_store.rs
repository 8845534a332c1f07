use lpsettings::helper::{add_to, lay_over, split_key};
use lpsettings::setting::{get_value as stored_value, set_value as store_value, Section, Setting};

fn section(entries: &[(&str, &str)]) -> Section {
    entries.iter().map(|(name, value)| (name.to_string(), value.to_string())).collect()
}

fn store(sections: &[(&str, &[(&str, &str)])]) -> Setting {
    sections.iter().map(|(name, entries)| (name.to_string(), section(entries))).collect()
}

#[test]
fn split_key_needs_exactly_one_dot() {
    assert_eq!(split_key("a.b"), Some(("a", "b")));
    assert_eq!(split_key("user.name"), Some(("user", "name")));
    assert_eq!(split_key("a"), None);
    assert_eq!(split_key(""), None);
    assert_eq!(split_key("a.b.c"), None);
}

#[test]
fn split_key_keeps_empty_halves() {
    assert_eq!(split_key("."), Some(("", "")));
    assert_eq!(split_key("a."), Some(("a", "")));
    assert_eq!(split_key(".b"), Some(("", "b")));
    assert_eq!(split_key("é.ü"), Some(("é", "ü")));
}

#[test]
fn store_value_then_read_it() {
    let mut settings: Setting = Vec::new();
    assert!(store_value(&mut settings, "user.name", "ada"));
    assert_eq!(stored_value(&settings, "user.name"), Some("ada".to_string()));
    assert_eq!(stored_value(&settings, "user.email"), None);
    assert_eq!(stored_value(&settings, "other.name"), None);
    assert!(store_value(&mut settings, "user.email", "ada@example.org"));
    assert!(store_value(&mut settings, "user.name", "grace"));
    assert_eq!(stored_value(&settings, "user.name"), Some("grace".to_string()));
    assert_eq!(stored_value(&settings, "user.email"), Some("ada@example.org".to_string()));
    assert_eq!(settings.len(), 1);
    assert_eq!(settings[0].1.len(), 2);
}

#[test]
fn store_value_refuses_other_keys() {
    let mut settings = store(&[("user", &[("name", "ada")])]);
    let before = settings.clone();
    assert!(!store_value(&mut settings, "user", "x"));
    assert!(!store_value(&mut settings, "", "x"));
    assert!(!store_value(&mut settings, "a.b.c", "x"));
    assert_eq!(settings, before);
    assert_eq!(stored_value(&settings, "user"), None);
    assert_eq!(stored_value(&settings, "user.name.first"), None);
}

#[test]
fn later_entries_shadow_earlier_ones() {
    let settings: Setting = vec![
        ("s".to_string(), section(&[("k", "old"), ("gone", "1")])),
        ("s".to_string(), section(&[("k", "mid"), ("k", "new")])),
    ];
    assert_eq!(stored_value(&settings, "s.k"), Some("new".to_string()));
    assert_eq!(stored_value(&settings, "s.gone"), None);
}

#[test]
fn lay_over_prefers_the_source() {
    let mut target = section(&[("a", "1"), ("b", "2")]);
    lay_over(&mut target, &section(&[("b", "3"), ("c", "4")]));
    let settings: Setting = vec![("s".to_string(), target)];
    assert_eq!(stored_value(&settings, "s.a"), Some("1".to_string()));
    assert_eq!(stored_value(&settings, "s.b"), Some("3".to_string()));
    assert_eq!(stored_value(&settings, "s.c"), Some("4".to_string()));
    assert_eq!(settings[0].1.len(), 3);
}

#[test]
fn add_to_overwrites_and_extends() {
    let mut original = store(&[("user", &[("name", "ada"), ("email", "a@x")]), ("ui", &[("theme", "dark")])]);
    let new = store(&[("user", &[("name", "grace")]), ("build", &[("os", "linux")])]);
    add_to(&mut original, Ok(new));
    assert_eq!(stored_value(&original, "user.name"), Some("grace".to_string()));
    assert_eq!(stored_value(&original, "user.email"), Some("a@x".to_string()));
    assert_eq!(stored_value(&original, "ui.theme"), Some("dark".to_string()));
    assert_eq!(stored_value(&original, "build.os"), Some("linux".to_string()));
    assert_eq!(original.len(), 3);
}

#[test]
fn add_to_ignores_an_error() {
    let mut original = store(&[("user", &[("name", "ada")])]);
    let before = original.clone();
    add_to(&mut original, Err("nothing to add"));
    assert_eq!(original, before);
}

#[test]
fn add_to_takes_only_the_visible_section() {
    let mut original = store(&[("s", &[("kept", "0")])]);
    let new: Setting = vec![
        ("s".to_string(), section(&[("hidden", "1")])),
        ("s".to_string(), section(&[("seen", "2")])),
    ];
    add_to(&mut original, Ok(new));
    assert_eq!(stored_value(&original, "s.kept"), Some("0".to_string()));
    assert_eq!(stored_value(&original, "s.seen"), Some("2".to_string()));
    assert_eq!(stored_value(&original, "s.hidden"), None);
}

#[test]
fn add_to_empty_store() {
    let mut original: Setting = Vec::new();
    add_to(&mut original, Ok(store(&[("a", &[("b", "c")])])));
    assert_eq!(stored_value(&original, "a.b"), Some("c".to_string()));
    add_to(&mut original, Ok(Vec::new()));
    assert_eq!(stored_value(&original, "a.b"), Some("c".to_string()));
    assert_eq!(original.len(), 1);
}
