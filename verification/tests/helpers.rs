use lpsettings::options::{OptionsMap, Standing};
use lpsettings::paths::{
    check_if_a_path, compress_parts, compress_path, get_settings_file_name,
    get_settings_folder_name,
};
use lpsettings::prompt::strip_line_ends;
use lpsettings::text::{has_char, same_text};
use lpsettings::options::{offered_given};
use lpsettings::{Configuration, Location, Settings};

fn parts_of(parts: &[&str]) -> Vec<String> {
    parts.iter().map(|part| part.to_string()).collect()
}

fn option(added: Option<&str>, removed: Option<&str>, init: Option<bool>) -> OptionsMap {
    OptionsMap {
        key: "user.name".to_string(),
        desc: "the name of the user".to_string(),
        added: added.map(|version| version.to_string()),
        removed: removed.map(|version| version.to_string()),
        replaced_by: None,
        init,
    }
}

#[test]
fn path_has_a_slash_or_backslash() {
    assert!(check_if_a_path("a/b"));
    assert!(check_if_a_path("a\\b"));
    assert!(check_if_a_path("/"));
    assert!(check_if_a_path("c:\\"));
    assert!(!check_if_a_path("plain"));
    assert!(!check_if_a_path(""));
    assert!(!check_if_a_path("a.b"));
}

#[test]
fn compress_undoes_parent_steps() {
    assert_eq!(compress_parts(&parts_of(&["a", "b", "..", "c"])), parts_of(&["a", "c"]));
    assert_eq!(compress_path(&parts_of(&["a", "b", "..", "c"])), "a\\c\\");
    assert_eq!(compress_path(&parts_of(&["c:", "\\", "x", "..", "..", "y"])), "y\\");
    assert_eq!(compress_path(&parts_of(&["..", "a"])), "a\\");
    assert_eq!(compress_path(&parts_of(&["a", "..", ".."])), "");
    assert_eq!(compress_path(&parts_of(&[])), "");
    assert_eq!(compress_path(&parts_of(&["a", ".", "b"])), "a\\.\\b\\");
}

#[test]
fn answer_loses_its_line_ends() {
    assert_eq!(strip_line_ends("ada\n"), "ada");
    assert_eq!(strip_line_ends("ada\r\n"), "ada");
    assert_eq!(strip_line_ends("\r\n"), "");
    assert_eq!(strip_line_ends(""), "");
    assert_eq!(strip_line_ends("a\nb\rc"), "abc");
    assert_eq!(strip_line_ends("no end"), "no end");
    assert_eq!(strip_line_ends("günther\n"), "günther");
}

#[test]
fn texts_compare_by_characters() {
    assert!(same_text("", ""));
    assert!(same_text("global", "global"));
    assert!(!same_text("global", "globaL"));
    assert!(!same_text("global", "globally"));
    assert!(!same_text("a", ""));
    assert!(has_char("a.b", '.'));
    assert!(!has_char("ab", '.'));
}

#[test]
fn option_is_offered_between_its_releases() {
    assert!(offered_given(None, None));
    assert!(offered_given(Some(Standing::Older), None));
    assert!(offered_given(Some(Standing::Same), None));
    assert!(!offered_given(Some(Standing::Newer), None));
    assert!(offered_given(None, Some(Standing::Newer)));
    assert!(!offered_given(None, Some(Standing::Same)));
    assert!(!offered_given(None, Some(Standing::Older)));
    assert!(offered_given(Some(Standing::Older), Some(Standing::Newer)));
    assert!(!offered_given(Some(Standing::Newer), Some(Standing::Newer)));
    assert!(!offered_given(Some(Standing::Older), Some(Standing::Older)));
}

#[test]
fn option_is_offered_by_version() {
    assert!(option(None, None, None).is_offered("0.2.0"));
    assert!(option(Some("0.1.0"), None, None).is_offered("0.2.0"));
    assert!(option(Some("0.2.0"), None, None).is_offered("0.2.0"));
    assert!(!option(Some("0.3.0"), None, None).is_offered("0.2.0"));
    assert!(!option(Some("1.0.0"), None, None).is_offered("0.9.9"));
    assert!(option(None, Some("0.3.0"), None).is_offered("0.2.0"));
    assert!(!option(None, Some("0.2.0"), None).is_offered("0.2.0"));
    assert!(!option(None, Some("0.1.5"), None).is_offered("0.2.0"));
    assert!(option(Some("0.1.0"), Some("0.3.0"), None).is_offered("0.2.0"));
    assert!(!option(Some("0.1.0"), Some("0.3.0"), None).is_offered("0.3.1"));
}

#[test]
fn unreadable_version_decides_nothing() {
    assert!(option(Some("soon"), Some("never"), None).is_offered("0.2.0"));
    assert!(option(Some("9.9.9"), Some("0.0.1"), None).is_offered("no version"));
}

#[test]
fn option_is_asked_only_when_marked() {
    assert!(option(None, None, Some(true)).is_asked("0.2.0"));
    assert!(!option(None, None, Some(false)).is_asked("0.2.0"));
    assert!(!option(None, None, None).is_asked("0.2.0"));
    assert!(!option(Some("0.3.0"), None, Some(true)).is_asked("0.2.0"));
    assert!(!option(None, Some("0.2.0"), Some(true)).is_asked("0.2.0"));
    assert!(option(Some("0.1.0"), Some("0.3.0"), Some(true)).is_asked("0.2.0"));
}

#[test]
fn settings_file_names() {
    let configuration = Configuration {};
    assert_eq!(configuration.filename(), "lovepack");
    assert_eq!(configuration.folder(), ".lovepack");
    assert_eq!(configuration.extension(), Some("toml".to_string()));
}

#[test]
fn location_from_flags() {
    assert_eq!(Location::from_flags(false, false, None), Location::Best);
    assert_eq!(Location::from_flags(true, false, None), Location::Local);
    assert_eq!(Location::from_flags(false, true, None), Location::Global);
    assert_eq!(Location::from_flags(true, true, None), Location::Global);
    assert_eq!(Location::from_flags(false, false, Some("global")), Location::Global);
    assert_eq!(Location::from_flags(false, false, Some("local")), Location::Local);
    assert_eq!(Location::from_flags(false, false, Some("anything")), Location::Local);
    assert_eq!(Location::from_flags(true, false, Some("global")), Location::Local);
}

#[test]
fn location_set_phrase() {
    assert_eq!(Location::Best.set_phrase(), "Set");
    assert_eq!(Location::Local.set_phrase(), "Locally set");
    assert_eq!(Location::Global.set_phrase(), "Globally set");
}

#[test]
fn listing_reads_each_top_level_name() {
    let mut tree = Settings::new();
    assert_eq!(tree.set_value("user.name", "ada"), Ok(()));
    assert_eq!(tree.set_value("build.os", "linux"), Ok(()));
    let mut top = tree.parts().iter().map(|(name, _)| name.clone()).collect::<Vec<String>>();
    top.sort();
    assert_eq!(top, parts_of(&["build", "user"]));
    let mut lines = tree.listing();
    lines.sort();
    assert_eq!(
        lines,
        vec![
            ("build".to_string(), Some("is complex".to_string())),
            ("user".to_string(), Some("is complex".to_string())),
        ]
    );
}

#[test]
fn listing_of_values_and_odd_names() {
    let parts = vec![
        ("plain".to_string(), lpsettings::Subsetting::Single("v".to_string())),
        ("dotted.name".to_string(), lpsettings::Subsetting::Single("w".to_string())),
        ("plain".to_string(), lpsettings::Subsetting::Single("v2".to_string())),
    ];
    let tree = Settings::from_parts(parts);
    let lines = tree.listing();
    assert_eq!(
        lines,
        vec![("plain".to_string(), Some("v2".to_string())), ("dotted.name".to_string(), None)]
    );
    assert!(Settings::new().listing().is_empty());
}

#[test]
fn settings_file_name_can_be_chosen() {
    assert_eq!(get_settings_file_name(None), "lovepack.toml");
    assert_eq!(get_settings_file_name(Some("other.toml")), "other.toml");
    assert_eq!(get_settings_file_name(Some("")), "");
    let configuration = Configuration {};
    assert_eq!(
        get_settings_file_name(None),
        format!("{}.{}", configuration.filename(), configuration.extension().unwrap_or_default())
    );
}

#[test]
fn settings_folder_name_can_be_chosen() {
    assert_eq!(get_settings_folder_name(None), ".lovepack");
    assert_eq!(get_settings_folder_name(Some(".config")), ".config");
    assert_eq!(get_settings_folder_name(None), (Configuration {}).folder());
}
