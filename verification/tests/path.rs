use rmb::path::{has_dot, join, split};
use rmb::util::same_text;

fn parts(path: &str) -> Vec<String> {
    split(path)
}

fn owned(parts: &[&str]) -> Vec<String> {
    parts.iter().map(|p| p.to_string()).collect()
}

#[test]
fn split_of_a_name_is_the_name() {
    assert_eq!(parts("version"), owned(&["version"]));
}

#[test]
fn split_cuts_at_every_dot() {
    assert_eq!(parts("calculator.deep.test"), owned(&["calculator", "deep", "test"]));
}

#[test]
fn split_of_the_empty_path_is_one_empty_name() {
    assert_eq!(parts(""), owned(&[""]));
}

#[test]
fn split_keeps_empty_components() {
    assert_eq!(parts("a..b"), owned(&["a", "", "b"]));
    assert_eq!(parts("a."), owned(&["a", ""]));
    assert_eq!(parts(".a"), owned(&["", "a"]));
    assert_eq!(parts("."), owned(&["", ""]));
}

#[test]
fn split_counts_characters_not_bytes() {
    assert_eq!(parts("météo.zürich"), owned(&["météo", "zürich"]));
}

#[test]
fn split_agrees_with_the_standard_library() {
    for path in ["", "a", "a.b", "a.b.c", "..", "x.y.", "calculator.add"] {
        let expected: Vec<String> = path.split('.').map(|p| p.to_string()).collect();
        assert_eq!(parts(path), expected);
    }
}

#[test]
fn join_puts_a_dot_between() {
    assert_eq!(join("calculator", "add"), "calculator.add");
    assert_eq!(join("", ""), ".");
}

#[test]
fn split_undoes_join() {
    let path = join("calculator", &join("deep", "test"));
    assert_eq!(path, "calculator.deep.test");
    assert_eq!(parts(&path), owned(&["calculator", "deep", "test"]));
    assert_eq!(parts(&path).join("."), path);
}

#[test]
fn has_dot_finds_a_dot_anywhere() {
    assert!(has_dot("a.b"));
    assert!(has_dot("."));
    assert!(has_dot("ab."));
    assert!(!has_dot("ab"));
    assert!(!has_dot(""));
}

#[test]
fn same_text_compares_contents() {
    assert!(same_text("application/json", "application/json"));
    assert!(same_text("", ""));
    assert!(!same_text("application/json", "application/jsom"));
    assert!(!same_text("application/json", "application/json "));
    assert!(!same_text("é", "e"));
}
