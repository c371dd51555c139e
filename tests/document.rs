use std::collections::HashMap;

use desktop_file::{DesktopFile, DesktopFileError, LocalizedKey, ParseError};

fn as_maps(file: &DesktopFile) -> HashMap<String, HashMap<String, String>> {
    file.groups()
        .into_iter()
        .map(|(name, group)| {
            let entries = group
                .entries()
                .into_iter()
                .map(|(k, v)| (k.to_string(), v.to_string()))
                .collect();
            (name.to_string(), entries)
        })
        .collect()
}

fn owned(groups: Vec<(&str, Vec<(&str, &str)>)>) -> HashMap<String, HashMap<String, String>> {
    groups
        .into_iter()
        .map(|(name, entries)| {
            (
                name.to_string(),
                entries
                    .into_iter()
                    .map(|(k, v)| (k.to_string(), v.to_string()))
                    .collect(),
            )
        })
        .collect()
}

#[test]
fn file_desktop_file_empty() {
    let file = DesktopFile::parse("").unwrap();
    assert_eq!(as_maps(&file), HashMap::new());
}

#[test]
fn file_desktop_file_simple() {
    let file = DesktopFile::parse("[group1]\nk1=v1\nk2=v2\n[group2]\nk3=v3\n").unwrap();
    assert_eq!(
        as_maps(&file),
        owned(vec![
            ("group1", vec![("k1", "v1"), ("k2", "v2")]),
            ("group2", vec![("k3", "v3")]),
        ])
    );
}

#[test]
fn file_desktop_file_error_parse() {
    let err = DesktopFile::parse("[group[name]\nk=v\n").unwrap_err();
    assert_eq!(err, DesktopFileError::Parse(ParseError { line: 1, column: 1 }));
}

#[test]
fn file_desktop_file_error_entry_outside_of_group() {
    let err = DesktopFile::parse("k=v\n").unwrap_err();
    assert_eq!(err, DesktopFileError::EntryOutsideOfGroup("k".to_string()));
}

#[test]
fn file_desktop_file_error_duplicate_group() {
    let err = DesktopFile::parse("[group1]\nk1=v1\n[group2]\nk2=v2\n[group1]\nk3=v3\n").unwrap_err();
    assert_eq!(err, DesktopFileError::DuplicateGroup("group1".to_string()));
}

#[test]
fn file_desktop_file_error_duplicate_key() {
    let err = DesktopFile::parse("[group1]\nk1=v1\nk2=v2\nk1=v3\n").unwrap_err();
    assert_eq!(err, DesktopFileError::DuplicateKey("k1".to_string()));
}

#[test]
fn lib_desktop_file_empty() {
    // should simply succeed
    let _file = DesktopFile::parse("").unwrap();
}

#[test]
fn lib_desktop_file_simple() {
    let file = DesktopFile::parse("[group1]\nk1=v1\nk2=v2\n[group2]\nk3=v3\n").unwrap();

    assert_eq!(file.group("group1").unwrap().get_raw("k1").unwrap(), "v1");
    assert_eq!(file.group("group1").unwrap().get_raw("k2").unwrap(), "v2");
    assert!(file.group("group1").unwrap().get_raw("k3").is_none());

    assert!(file.group("group2").unwrap().get_raw("k1").is_none());
    assert!(file.group("group2").unwrap().get_raw("k2").is_none());
    assert_eq!(file.group("group2").unwrap().get_raw("k3").unwrap(), "v3");

    assert!(file.group("group3").is_none());
}

#[test]
fn desktop_file_localized() {
    let file = DesktopFile::parse(
        "[group]\nName=default value\nName[sr_YU]=localized sr_YU\nName[sr@Latn]=localized sr@Latn\nName[sr]=localized sr\n",
    )
    .unwrap();

    let group = file.group("group").unwrap();
    assert_eq!(
        group
            .get_raw(LocalizedKey {
                key: "Name",
                lang: "sr",
                country: Some("YU"),
                modifier: Some("Latn"),
            })
            .unwrap(),
        "localized sr_YU"
    );
    assert_eq!(
        group
            .get_raw(LocalizedKey {
                key: "Name",
                lang: "sr",
                country: Some("YU"),
                modifier: None,
            })
            .unwrap(),
        "localized sr_YU"
    );
    assert_eq!(
        group
            .get_raw(LocalizedKey {
                key: "Name",
                lang: "sr",
                country: None,
                modifier: Some("Latn"),
            })
            .unwrap(),
        "localized sr@Latn"
    );
    assert_eq!(
        group
            .get_raw(LocalizedKey {
                key: "Name",
                lang: "sr",
                country: None,
                modifier: None,
            })
            .unwrap(),
        "localized sr"
    );
    assert_eq!(
        group
            .get_raw(LocalizedKey {
                key: "Name",
                lang: "de",
                country: None,
                modifier: None,
            })
            .unwrap(),
        "default value"
    );
}

#[test]
fn lib_desktop_file_error_parse() {
    let err = DesktopFile::parse("[group[name]\nk=v\n").unwrap_err();
    assert!(matches!(err, DesktopFileError::Parse(_)));
}

#[test]
fn lib_desktop_file_error_entry_outside_of_group() {
    let err = DesktopFile::parse("k=v\n").unwrap_err();
    assert_eq!(err, DesktopFileError::EntryOutsideOfGroup("k".to_string()));
}

#[test]
fn lib_desktop_file_error_duplicate_group() {
    let err = DesktopFile::parse("[group1]\nk1=v1\n[group2]\nk2=v2\n[group1]\nk3=v3\n").unwrap_err();
    assert_eq!(err, DesktopFileError::DuplicateGroup("group1".to_string()));
}

#[test]
fn lib_desktop_file_error_duplicate_key() {
    let err = DesktopFile::parse("[group1]\nk1=v1\nk2=v2\nk1=v3\n").unwrap_err();
    assert_eq!(err, DesktopFileError::DuplicateKey("k1".to_string()));
}

#[test]
fn localized_key_matches() {
    // lang_COUNTRY@MODIFIER
    let locale_key = LocalizedKey {
        key: "key",
        lang: "de",
        country: Some("AT"),
        modifier: Some("euro"),
    };
    assert_eq!(
        locale_key.matches(),
        vec!["key[de_AT@euro]", "key[de_AT]", "key[de@euro]", "key[de]", "key",]
    );

    // lang_COUNTRY
    let locale_key = LocalizedKey {
        key: "key",
        lang: "de",
        country: Some("AT"),
        modifier: None,
    };
    assert_eq!(locale_key.matches(), vec!["key[de_AT]", "key[de]", "key",]);

    // lang@MODIFIER
    let locale_key = LocalizedKey {
        key: "key",
        lang: "de",
        country: None,
        modifier: Some("euro"),
    };
    assert_eq!(locale_key.matches(), vec!["key[de@euro]", "key[de]", "key",]);

    // lang
    let locale_key = LocalizedKey {
        key: "key",
        lang: "de",
        country: None,
        modifier: None,
    };
    assert_eq!(locale_key.matches(), vec!["key[de]", "key",]);
}

#[test]
fn duplicate_group_detection_is_order_sensitive() {
    let err = DesktopFile::parse("[g]\nk=v\n[h]\nk2=v2\n[g]\nk3=v3\n").unwrap_err();
    assert_eq!(err, DesktopFileError::DuplicateGroup("g".to_string()));
    let file = DesktopFile::parse("[g]\nk=v\nk3=v3\n[h]\nk2=v2\n").unwrap();
    assert_eq!(
        as_maps(&file),
        owned(vec![("g", vec![("k", "v"), ("k3", "v3")]), ("h", vec![("k2", "v2")])])
    );
}

#[test]
fn same_key_in_two_groups() {
    let file = DesktopFile::parse("[a]\nk=1\n[b]\nk=2\n").unwrap();
    assert_eq!(file.group("a").unwrap().get_raw("k"), Some("1"));
    assert_eq!(file.group("b").unwrap().get_raw("k"), Some("2"));
}

#[test]
fn group_may_be_empty_and_comments_are_skipped() {
    let file = DesktopFile::parse("# top\n[empty]\n\n[g]\n# c\nk=v\n").unwrap();
    assert_eq!(
        as_maps(&file),
        owned(vec![("empty", vec![]), ("g", vec![("k", "v")])])
    );
}

#[test]
fn missing_final_line_feed_fails_the_file() {
    let err = DesktopFile::parse("[g]\nk=v").unwrap_err();
    assert_eq!(err, DesktopFileError::Parse(ParseError { line: 2, column: 3 }));
    assert!(DesktopFile::parse("\n").is_ok());
}

#[test]
fn locale_keys_are_distinct_keys() {
    let file = DesktopFile::parse("[g]\nName=a\nName[de]=b\n").unwrap();
    let group = file.group("g").unwrap();
    assert_eq!(group.get_raw("Name[de]"), Some("b"));
    let key = LocalizedKey { key: "Name", lang: "fr", country: Some("CA"), modifier: None };
    assert_eq!(group.get_raw(key), Some("a"));
    let key = LocalizedKey { key: "Other", lang: "fr", country: None, modifier: None };
    assert_eq!(group.get_raw(key), None);
}
