use webxr_graph::file_service::{FileService, GithubFile, ReferenceInfo};

fn strings(v: &[&str]) -> Vec<String> {
    v.iter().map(|s| s.to_string()).collect()
}

#[test]
fn public_pages() {
    assert!(FileService::is_public_file("public:: true\n- content"));
    assert!(FileService::is_public_file("  public:: true  \r\nrest"));
    assert!(!FileService::is_public_file("- content\npublic:: true"));
    assert!(!FileService::is_public_file(""));
}

#[test]
fn node_names() {
    assert_eq!(FileService::node_name("Rust.md"), "Rust");
    assert_eq!(FileService::node_name("a.md.md"), "a");
    assert_eq!(FileService::node_name("notes"), "notes");
}

#[test]
fn listed_pages() {
    assert!(FileService::is_listed_page("file", "Rust.md", false));
    assert!(!FileService::is_listed_page("dir", "Rust.md", false));
    assert!(!FileService::is_listed_page("file", "Rust.txt", false));
    assert!(!FileService::is_listed_page("file", "Rust.md", true));
    assert!(FileService::is_listed_page("file", "Debug Test Page.md", true));
    assert!(FileService::is_listed_page("file", "debug linked node.md", true));
}

#[test]
fn references_and_topic_counts() {
    let nodes = strings(&["Rust", "Python", "AI", "Rust"]);
    let refs = FileService::extract_references("I like [[Rust]]. rust is good. AI!", &nodes);
    let counts = FileService::convert_references_to_topic_counts(refs);
    let mut counts: Vec<(String, usize)> = counts;
    counts.sort();
    assert_eq!(counts, vec![("AI".to_string(), 1), ("Rust".to_string(), 2)]);
}

#[test]
fn topic_counts_keep_entries() {
    let refs = vec![
        ("a".to_string(), ReferenceInfo { direct_mentions: 3 }),
        ("b".to_string(), ReferenceInfo { direct_mentions: 1 }),
    ];
    assert_eq!(
        FileService::convert_references_to_topic_counts(refs),
        vec![("a".to_string(), 3), ("b".to_string(), 1)]
    );
}

#[test]
fn hyperlinks() {
    assert_eq!(FileService::count_hyperlinks("[a](http://x) and [b](y) but [c]"), 2);
    assert_eq!(FileService::count_hyperlinks_checked("none"), Some(0));
}

#[test]
fn sha1_hex() {
    assert_eq!(
        FileService::calculate_sha1("abc"),
        "a9993e364706816aba3e25717850c26c9cd0d89d"
    );
    assert_eq!(
        FileService::calculate_sha1(""),
        "da39a3ee5e6b4b0d3255bfef95601890afd80709"
    );
}

#[test]
fn removed_local_files() {
    let local = strings(&["a.md", "b.md", "c.md"]);
    let github = strings(&["b.md", "d.md"]);
    assert_eq!(FileService::removed_files(&local, &github), strings(&["a.md", "c.md"]));
}

#[test]
fn files_needing_fetch() {
    let local = vec![
        ("a.md".to_string(), "111".to_string()),
        ("b.md".to_string(), "222".to_string()),
    ];
    let github = vec![
        ("a.md".to_string(), "111".to_string()),
        ("b.md".to_string(), "999".to_string()),
        ("c.md".to_string(), "333".to_string()),
    ];
    assert_eq!(FileService::files_to_process(&local, &github), vec![1, 2]);
}

#[test]
fn github_file_fields() {
    let f = GithubFile {
        name: "file1.md".to_string(),
        path: "pages/file1.md".to_string(),
        sha: "abc".to_string(),
        size: 8,
        url: "u".to_string(),
        download_url: "d".to_string(),
    };
    assert_eq!(FileService::node_name(&f.name), "file1");
}

#[test]
fn removed_files_once_each_in_local_order() {
    let local = strings(&["c.md", "a.md", "c.md", "b.md", "a.md"]);
    let github = strings(&["b.md"]);
    assert_eq!(FileService::removed_files(&local, &github), strings(&["c.md", "a.md"]));
}
