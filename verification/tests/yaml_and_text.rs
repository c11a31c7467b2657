use sapling::env::{log_level_from_name, LogLevel};
use sapling::setting_yaml::{
    get_inner_value, get_value_from_value, search_for_item_in_vec_and_return_value,
    settings_from_text, Settings,
};
use sapling::text::{trim, trim_end_matches, trim_end_matches_str, trim_start_matches};
use sapling::yaml::{YamlEntry, YamlValue};

fn s(x: &str) -> YamlValue {
    YamlValue::String(x.to_string())
}

fn map(pairs: Vec<(&str, YamlValue)>) -> YamlValue {
    YamlValue::Mapping(
        pairs
            .into_iter()
            .map(|(k, v)| YamlEntry { key: s(k), value: v })
            .collect(),
    )
}

#[test]
fn trim_removes_unicode_white_space() {
    assert_eq!(trim(" \t\u{3000}abc d\n\u{85}"), "abc d");
    assert_eq!(trim("   "), "");
    assert_eq!(trim(""), "");
}

#[test]
fn trim_matches_remove_repeated_characters() {
    assert_eq!(trim_end_matches("blogs/x///", '/'), "blogs/x");
    assert_eq!(trim_start_matches("---a-b-", '-'), "a-b-");
    assert_eq!(trim_end_matches("////", '/'), "");
}

#[test]
fn trim_end_matches_str_removes_every_trailing_copy() {
    assert_eq!(trim_end_matches_str("post.md.md", ".md"), "post");
    assert_eq!(trim_end_matches_str("post.mdx", ".md"), "post.mdx");
    assert_eq!(trim_end_matches_str("notes", ""), "notes");
}

#[test]
fn get_and_set_key_on_mappings() {
    let mut v = map(vec![("title", s("Hello")), ("link", s("/a"))]);
    assert_eq!(v.get("title"), Some(&s("Hello")));
    assert_eq!(v.get("missing"), None);
    v.set_key("link", s("static/a/index.html"));
    assert_eq!(v.get("link"), Some(&s("static/a/index.html")));
    assert_eq!(v.get("title"), Some(&s("Hello")));
    v.set_key("author", s("me"));
    assert_eq!(v, map(vec![("title", s("Hello")), ("link", s("static/a/index.html")), ("author", s("me"))]));
}

#[test]
fn set_key_turns_null_into_a_mapping() {
    let mut v = YamlValue::Null;
    v.set_key("link", s("x"));
    assert_eq!(v, map(vec![("link", s("x"))]));
}

#[test]
fn get_on_non_mapping_is_none() {
    let v = s("template:index.html");
    assert_eq!(v.get("template"), None);
    assert_eq!(YamlValue::Sequence(vec![s("a")]).get("a"), None);
}

#[test]
fn duplicate_copies_nested_values() {
    let v = map(vec![("tags", YamlValue::Sequence(vec![s("a"), YamlValue::Number("3".to_string())]))]);
    assert_eq!(v.duplicate(), v);
}

fn settings() -> Settings {
    Settings {
        entries: vec![
            ("rss".to_string(), map(vec![("enable", YamlValue::Bool(true)), ("date_format", s("%Y"))])),
            ("logging".to_string(), map(vec![("level", s("DEBUG"))])),
        ],
    }
}

#[test]
fn get_inner_value_follows_the_key_path() {
    let st = settings();
    assert_eq!(
        get_inner_value(&st, &vec!["rss".to_string(), "enable".to_string()]),
        Some(YamlValue::Bool(true))
    );
    assert_eq!(
        get_inner_value(&st, &vec!["logging".to_string(), "level".to_string()]),
        Some(s("DEBUG"))
    );
    assert_eq!(
        get_inner_value(&st, &vec!["rss".to_string()]),
        Some(map(vec![("enable", YamlValue::Bool(true)), ("date_format", s("%Y"))]))
    );
}

#[test]
fn get_inner_value_falls_back_on_missing_keys() {
    let st = settings();
    assert_eq!(get_inner_value(&st, &vec![]), None);
    assert_eq!(get_inner_value(&st, &vec!["serve".to_string()]), None);
    assert_eq!(get_inner_value(&st, &vec!["rss".to_string(), "groups".to_string()]), None);
    assert_eq!(
        get_inner_value(&st, &vec!["logging".to_string(), "level".to_string(), "x".to_string()]),
        None
    );
}

#[test]
fn search_finds_first_item_with_the_value() {
    let items = vec![
        map(vec![("name", s("All")), ("url", s("all.xml"))]),
        s("stray"),
        map(vec![("name", s("Done")), ("url", s("done.xml"))]),
        map(vec![("name", s("Done")), ("url", s("second.xml"))]),
    ];
    assert_eq!(
        search_for_item_in_vec_and_return_value(&items, "name", "Done"),
        Some(map(vec![("name", s("Done")), ("url", s("done.xml"))]))
    );
    assert_eq!(search_for_item_in_vec_and_return_value(&items, "name", "None"), None);
    assert_eq!(search_for_item_in_vec_and_return_value(&items, "url", "all.xml"), Some(items[0].duplicate()));
}

#[test]
fn get_value_from_value_copies_the_field() {
    let v = map(vec![("port", YamlValue::Number("8000".to_string()))]);
    assert_eq!(get_value_from_value(&v, "port"), Some(YamlValue::Number("8000".to_string())));
    assert_eq!(get_value_from_value(&v, "host"), None);
}

#[test]
fn log_levels_from_names() {
    assert_eq!(log_level_from_name("OFF"), LogLevel::Off);
    assert_eq!(log_level_from_name("TRACE"), LogLevel::Trace);
    assert_eq!(log_level_from_name("DEBUG"), LogLevel::Debug);
    assert_eq!(log_level_from_name("WARN"), LogLevel::Warn);
    assert_eq!(log_level_from_name("ERROR"), LogLevel::Error);
    assert_eq!(log_level_from_name("INFO"), LogLevel::Info);
    assert_eq!(log_level_from_name("verbose"), LogLevel::Info);
}

#[test]
fn settings_from_text_reads_top_level_keys() {
    let st = settings_from_text("logging:\n  level: DEBUG\nrss:\n  enable: true\n");
    assert_eq!(st.entries.len(), 2);
    let path = vec!["logging".to_string(), "level".to_string()];
    assert_eq!(get_inner_value(&st, &path), Some(s("DEBUG")));
    let enable = vec!["rss".to_string(), "enable".to_string()];
    assert_eq!(get_inner_value(&st, &enable), Some(YamlValue::Bool(true)));
}

#[test]
fn settings_from_unreadable_text_is_empty() {
    assert!(settings_from_text("[1, 2").entries.is_empty());
    assert!(settings_from_text("- a\n- b\n").entries.is_empty());
}
