use webxr_graph::strings::{join, trim, trim_end_matches, trim_start_matches, replace, first_line_of, contains};

fn c(s: &str) -> Vec<char> {
    s.chars().collect()
}

#[test]
fn trimming() {
    assert_eq!(trim(&c("\t a b \n")), c("a b"));
    assert_eq!(trim_start_matches(&c("0x0xFF"), &c("0x")), c("FF"));
    assert_eq!(trim_end_matches(&c("a.md.md"), &c(".md")), c("a"));
}

#[test]
fn replacing_and_joining() {
    assert_eq!(replace(&c("a.md.b.md"), &c(".md"), &c("")), c("a.b"));
    assert_eq!(join(&["a".to_string(), "b".to_string()], ", "), "a, b");
    assert_eq!(join(&[], ", "), "");
}

#[test]
fn lines_and_search() {
    assert_eq!(first_line_of(&c("one\r\ntwo")), c("one"));
    assert_eq!(first_line_of(&c("solo")), c("solo"));
    assert!(contains(&c("hello world"), &c("o w")));
    assert!(!contains(&c("hello"), &c("xyz")));
}
