use waxum::state::AppState;
use waxum::tags::{parse_tag_file, TagFileError};
use waxum::text_set::TextSet;

fn state() -> AppState {
    AppState::new(None, None, None, None, None)
}

fn texts(list: &[&str]) -> Vec<String> {
    list.iter().map(|t| t.to_string()).collect()
}

fn sorted(mut list: Vec<String>) -> Vec<String> {
    list.sort();
    list
}

#[test]
fn tags_are_trimmed_unique_and_sorted() {
    let mut s = state();
    s.set_tags("a", texts(&[" vip ", "beta", "", "  ", "vip", "\u{3000}Alpha\n"]));
    assert_eq!(s.list_tags("a"), vec!["Alpha", "beta", "vip"]);
}

#[test]
fn tags_sort_by_code_point() {
    let mut s = state();
    s.set_tags("a", texts(&["b", "é", "B", "ab", "a", "\u{1F600}", "\u{FFFD}"]));
    assert_eq!(s.list_tags("a"), vec!["B", "a", "ab", "b", "é", "\u{FFFD}", "\u{1F600}"]);
}

#[test]
fn setting_no_tags_drops_the_entry() {
    let mut s = state();
    s.set_tags("a", texts(&["x"]));
    assert_eq!(s.all_session_ids_with_tags(), vec!["a"]);
    s.set_tags("a", texts(&[" ", ""]));
    assert!(s.all_session_ids_with_tags().is_empty());
    assert!(s.list_tags("a").is_empty());
}

#[test]
fn a_tag_is_added_once() {
    let mut s = state();
    assert!(s.add_tag("a", " x "));
    assert!(!s.add_tag("a", "x"));
    assert!(!s.add_tag("a", "  "));
    assert!(!s.add_tag("b", ""));
    assert_eq!(s.list_tags("a"), vec!["x"]);
    assert_eq!(s.all_session_ids_with_tags(), vec!["a"]);
}

#[test]
fn removing_the_last_tag_drops_the_entry() {
    let mut s = state();
    assert!(!s.remove_tag("a", "x"));
    s.add_tag("a", "x");
    s.add_tag("a", "y");
    assert!(s.remove_tag("a", "x"));
    assert!(!s.remove_tag("a", "x"));
    assert_eq!(s.list_tags("a"), vec!["y"]);
    assert!(s.remove_tag("a", "y"));
    assert!(s.all_session_ids_with_tags().is_empty());
}

#[test]
fn sessions_are_found_by_tag() {
    let mut s = state();
    s.add_tag("a", "x");
    s.add_tag("b", "x");
    s.add_tag("c", "y");
    assert_eq!(sorted(s.sessions_with_tag("x")), vec!["a", "b"]);
    assert_eq!(s.sessions_with_tag("y"), vec!["c"]);
    assert!(s.sessions_with_tag("z").is_empty());
    assert_eq!(sorted(s.all_session_ids_with_tags()), vec!["a", "b", "c"]);
    assert!(s.drop_tags_for("a"));
    assert!(!s.drop_tags_for("a"));
    assert_eq!(s.sessions_with_tag("x"), vec!["b"]);
}

#[test]
fn tags_survive_a_restart() {
    let mut s = state();
    s.set_tags("a", texts(&["x", "q\"uote\\ \u{1F600}\n1"]));
    s.add_tag("b", "y");
    let file = s.persist_tags().unwrap();
    let mut t = state();
    t.load_tags(&file).unwrap();
    assert_eq!(t.list_tags("a"), s.list_tags("a"));
    assert_eq!(t.list_tags("b"), vec!["y"]);
    assert_eq!(sorted(t.all_session_ids_with_tags()), vec!["a", "b"]);
}

#[test]
fn the_tag_file_is_a_json_object_of_lists() {
    let mut s = state();
    s.add_tag("a", "x");
    let file = s.persist_tags().unwrap();
    let value: serde_json::Value = serde_json::from_slice(&file).unwrap();
    assert_eq!(value["a"][0], "x");
    assert_eq!(state().persist_tags().unwrap(), b"{}");
}

#[test]
fn a_malformed_tag_file_changes_nothing() {
    let mut s = state();
    s.add_tag("a", "x");
    for bytes in ["", "[]", "{\"a\":1}", "{\"a\":[1]}", "{\"a\":[\"y\"]"] {
        assert_eq!(s.load_tags(bytes.as_bytes()), Err(TagFileError::Malformed));
    }
    assert_eq!(s.list_tags("a"), vec!["x"]);
}

#[test]
fn a_tag_file_replaces_the_sessions_it_names() {
    let mut s = state();
    s.add_tag("a", "old");
    s.add_tag("b", "kept");
    s.load_tags(b"{\"a\":[\"new\",\"new\"]}").unwrap();
    assert_eq!(s.list_tags("a"), vec!["new"]);
    assert_eq!(s.list_tags("b"), vec!["kept"]);
}

#[test]
fn lists_of_a_tag_file_are_read() {
    let lists = parse_tag_file(b"{\"a\":[\"x\",\"y\"]}").unwrap();
    assert_eq!(lists, vec![("a".to_string(), texts(&["x", "y"]))]);
    assert_eq!(parse_tag_file(b"nope"), Err(TagFileError::Malformed));
}

#[test]
fn sets_of_text_differ() {
    let a = TextSet::from_list(texts(&["x", "y", "x", "z"]));
    let b = TextSet::from_list(texts(&["y"]));
    assert_eq!(a.difference(&b), vec!["x", "z"]);
    assert!(b.difference(&a).is_empty());
    assert!(a.contains("z") && !b.contains("z"));
}
