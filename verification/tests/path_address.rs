use lpsettings::path::split;
use lpsettings::{PathAddress, SettingsError};

fn segments(parts: &[&str]) -> Vec<String> {
    parts.iter().map(|part| part.to_string()).collect()
}

#[test]
fn split_cuts_at_every_dot() {
    assert_eq!(split("user.name"), segments(&["user", "name"]));
    assert_eq!(split("build.targets.windows"), segments(&["build", "targets", "windows"]));
    assert_eq!(split("single"), segments(&["single"]));
}

#[test]
fn split_keeps_empty_segments() {
    assert_eq!(split(""), segments(&[""]));
    assert_eq!(split("."), segments(&["", ""]));
    assert_eq!(split("a."), segments(&["a", ""]));
    assert_eq!(split(".a"), segments(&["", "a"]));
    assert_eq!(split("a..b"), segments(&["a", "", "b"]));
}

#[test]
fn split_agrees_with_std() {
    for key in ["", "a", "a.b", "..", "a.b.c.d", "x..y.", "héllo.wörld", "日本.語"] {
        let expected: Vec<String> = key.split('.').map(|part| part.to_string()).collect();
        assert_eq!(split(key), expected, "{:?}", key);
        assert_eq!(split(key).join("."), key);
    }
}

#[test]
fn parse_accepts_non_empty_segments() {
    let path = match PathAddress::parse("a.b.c") {
        Ok(path) => path,
        Err(error) => panic!("unexpected {:?}", error),
    };
    assert_eq!(path.len(), 3);
    assert_eq!(path.segment(0), "a");
    assert_eq!(path.segment(1), "b");
    assert_eq!(path.segment(2), "c");
    assert_eq!(path.segments(), &segments(&["a", "b", "c"]));
}

#[test]
fn parse_accepts_single_segment() {
    let path = match PathAddress::parse("solo") {
        Ok(path) => path,
        Err(error) => panic!("unexpected {:?}", error),
    };
    assert_eq!(path.len(), 1);
    assert_eq!(path.segment(0), "solo");
}

#[test]
fn parse_refuses_empty_segments() {
    for key in ["", ".", "a.", ".a", "a..b", "a.b."] {
        assert!(matches!(PathAddress::parse(key), Err(SettingsError::InvalidPath)), "{:?}", key);
    }
}
