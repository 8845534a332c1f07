use lpsettings::document::{node_of, table_of, tree_of, value_of};
use lpsettings::{Configuration, Found, Settings, SettingsError, Subsetting};

fn text(value: &str) -> toml::Value {
    toml::Value::String(value.to_string())
}

fn table(entries: Vec<(&str, toml::Value)>) -> toml::Value {
    toml::Value::Table(entries.into_iter().map(|(name, value)| (name.to_string(), value)).collect())
}

fn tree_made_of(entries: &[(&str, &str)]) -> Settings {
    let mut tree = Settings::new();
    for (key, value) in entries {
        assert_eq!(tree.set_value(key, value), Ok(()));
    }
    tree
}

fn read(buffer: &str) -> Settings {
    match (Configuration {}).from_str(buffer) {
        Ok(tree) => tree,
        Err(error) => panic!("unexpected {:?} for {:?}", error, buffer),
    }
}

fn written(tree: &Settings) -> String {
    match (Configuration {}).to_string(tree) {
        Ok(text) => text,
        Err(error) => panic!("unexpected {:?}", error),
    }
}

#[test]
fn document_of_tables_and_strings_is_a_tree() {
    let tree = read("top = \"t\"\n\n[user]\nname = \"ada\"\n\n[user.contact]\nemail = \"a@x\"\n");
    assert_eq!(tree.get_value("top"), Some("t".to_string()));
    assert_eq!(tree.get_value("user.name"), Some("ada".to_string()));
    assert_eq!(tree.get_value("user.contact.email"), Some("a@x".to_string()));
    assert_eq!(tree.lookup("user.contact"), Some(Found::Section));
    let mut keys = tree.keys();
    keys.sort();
    assert_eq!(keys, vec!["top".to_string(), "user".to_string()]);
}

#[test]
fn empty_document_is_an_empty_tree() {
    let tree = read("");
    assert!(tree.keys().is_empty());
    let tree = read("# nothing but a comment\n");
    assert!(tree.keys().is_empty());
}

#[test]
fn document_with_other_values_is_refused() {
    for buffer in [
        "a = 1\n",
        "a = 1.5\n",
        "a = true\n",
        "a = 1979-05-27T07:32:00Z\n",
        "a = [\"x\"]\n",
        "[s]\nok = \"x\"\nbad = 2\n",
        "[[s]]\nname = \"x\"\n",
        "[a.b.c]\nd = false\n",
    ] {
        assert!(
            matches!((Configuration {}).from_str(buffer), Err(SettingsError::ParseError)),
            "{:?}",
            buffer
        );
    }
}

#[test]
fn text_that_is_not_toml_is_refused() {
    for buffer in ["not toml", "a = ", "[a", "a = \"x\"\na = \"y\"\n", "= \"x\""] {
        assert!(
            matches!((Configuration {}).from_str(buffer), Err(SettingsError::ParseError)),
            "{:?}",
            buffer
        );
    }
}

#[test]
fn value_becomes_node() {
    assert!(matches!(node_of(&text("v")), Some(Subsetting::Single(held)) if held == "v"));
    assert!(matches!(node_of(&text("")), Some(Subsetting::Single(held)) if held.is_empty()));
    assert!(matches!(node_of(&table(vec![])), Some(Subsetting::Complex(held)) if held.is_empty()));
    assert!(node_of(&toml::Value::Integer(1)).is_none());
    assert!(node_of(&toml::Value::Boolean(true)).is_none());
    assert!(node_of(&toml::Value::Array(vec![text("v")])).is_none());
    assert!(node_of(&toml::Value::Array(vec![])).is_none());
    assert!(node_of(&table(vec![("a", text("v")), ("b", toml::Value::Integer(1))])).is_none());
    assert!(node_of(&table(vec![("a", table(vec![("b", toml::Value::Boolean(false))]))])).is_none());
}

#[test]
fn table_becomes_tree() {
    let value = table(vec![("a", table(vec![("b", text("1")), ("c", text("2"))])), ("d", text("3"))]);
    let tree = match tree_of(&value) {
        Ok(tree) => tree,
        Err(error) => panic!("unexpected {:?}", error),
    };
    assert_eq!(tree.get_value("a.b"), Some("1".to_string()));
    assert_eq!(tree.get_value("a.c"), Some("2".to_string()));
    assert_eq!(tree.get_value("d"), Some("3".to_string()));
    assert_eq!(tree.get_value("a.d"), None);
    assert_eq!(tree.parts().len(), 2);
}

#[test]
fn value_that_is_no_table_is_no_tree() {
    assert!(matches!(tree_of(&text("v")), Err(SettingsError::ParseError)));
    assert!(matches!(tree_of(&toml::Value::Integer(3)), Err(SettingsError::ParseError)));
    assert!(matches!(
        tree_of(&table(vec![("a", toml::Value::Integer(3))])),
        Err(SettingsError::ParseError)
    ));
}

#[test]
fn node_becomes_value() {
    assert_eq!(value_of(&Subsetting::Single("v".to_string())), text("v"));
    assert_eq!(value_of(&Subsetting::Complex(vec![])), table(vec![]));
    let node = Subsetting::Complex(vec![
        ("b".to_string(), Subsetting::Single("1".to_string())),
        ("a".to_string(), Subsetting::Complex(vec![("x".to_string(), Subsetting::Single("2".to_string()))])),
    ]);
    assert_eq!(value_of(&node), table(vec![("a", table(vec![("x", text("2"))])), ("b", text("1"))]));
}

#[test]
fn later_entry_wins_in_the_table() {
    let entries = vec![
        ("k".to_string(), Subsetting::Single("first".to_string())),
        ("k".to_string(), Subsetting::Single("second".to_string())),
    ];
    assert_eq!(table_of(&entries), table(vec![("k", text("second"))]));
}

#[test]
fn shadowed_entries_are_not_written() {
    let hidden = vec![("x".to_string(), Subsetting::Single("1".to_string()))];
    let shown = vec![
        ("y".to_string(), Subsetting::Single("old".to_string())),
        ("y".to_string(), Subsetting::Single("new".to_string())),
    ];
    let tree = Settings::from_parts(vec![
        ("k".to_string(), Subsetting::Single("first".to_string())),
        ("s".to_string(), Subsetting::Complex(hidden)),
        ("k".to_string(), Subsetting::Single("second".to_string())),
        ("s".to_string(), Subsetting::Complex(shown)),
    ]);
    let text = written(&tree);
    assert_eq!(text, "k = \"second\"\n\n[s]\ny = \"new\"\n");
    let again = read(&text);
    assert_eq!(again.get_value("k"), tree.get_value("k"));
    assert_eq!(again.get_value("s.y"), tree.get_value("s.y"));
    assert_eq!(again.get_value("s.x"), None);
    assert_eq!(tree.get_value("s.x"), None);
}

#[test]
fn tree_is_written_as_toml() {
    let tree = tree_made_of(&[("user.name", "ada")]);
    assert_eq!(written(&tree), "[user]\nname = \"ada\"\n");
    assert_eq!(written(&Settings::new()), "");
    let top = Settings::from_parts(vec![("k".to_string(), Subsetting::Single("v".to_string()))]);
    assert_eq!(written(&top), "k = \"v\"\n");
}

#[test]
fn values_are_written_before_sections() {
    let tree = Settings::from_parts(vec![
        ("a".to_string(), Subsetting::Complex(vec![("x".to_string(), Subsetting::Single("1".to_string()))])),
        ("z".to_string(), Subsetting::Single("2".to_string())),
    ]);
    let text = written(&tree);
    assert_eq!(text, "z = \"2\"\n\n[a]\nx = \"1\"\n");
    let again = read(&text);
    assert_eq!(again.get_value("a.x"), Some("1".to_string()));
    assert_eq!(again.get_value("z"), Some("2".to_string()));
}

#[test]
fn written_tree_reads_back() {
    let tree = tree_made_of(&[
        ("a.b.c.d", "mortan"),
        ("a.b.e", "with \"quotes\" and \\ backslash"),
        ("a.f", "line\nbreak"),
        ("odd key.with space", "v"),
        ("ünï.cödé", "日本語"),
        ("a.empty", ""),
    ]);
    let again = read(&written(&tree));
    for (key, value) in [
        ("a.b.c.d", "mortan"),
        ("a.b.e", "with \"quotes\" and \\ backslash"),
        ("a.f", "line\nbreak"),
        ("odd key.with space", "v"),
        ("ünï.cödé", "日本語"),
        ("a.empty", ""),
    ] {
        assert_eq!(again.get_value(key), Some(value.to_string()), "{:?}", key);
    }
    assert_eq!(again.lookup("a.b.c"), Some(Found::Section));
    assert_eq!(written(&again), written(&tree));
}
