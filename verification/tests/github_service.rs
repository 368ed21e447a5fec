use webxr_graph::github_service::{pr_body, pr_branch_name, pr_title, repository_path, update_commit_message};

#[test]
fn branch_names() {
    assert_eq!(pr_branch_name("Rust.md", 1700000000), "perplexity-update-Rust-1700000000");
    assert_eq!(pr_branch_name("a.md.b", 0), "perplexity-update-a.b-0");
    assert_eq!(pr_branch_name("x", -42), "perplexity-update-x--42");
    assert_eq!(
        pr_branch_name("y", i64::MIN),
        format!("perplexity-update-y-{}", i64::MIN)
    );
}

#[test]
fn pull_request_texts() {
    assert_eq!(pr_title("Rust.md"), "Perplexity Enhancement: Rust.md");
    assert_eq!(
        pr_body("Rust.md", "abc", "def"),
        "This PR contains Perplexity-enhanced content for Rust.md.\n\nOriginal SHA: abc\nNew SHA: def"
    );
    assert_eq!(
        update_commit_message("pages/Rust.md"),
        "Update pages/Rust.md with Perplexity-enhanced content"
    );
    assert_eq!(repository_path("pages", "Rust.md"), "pages/Rust.md");
}

#[test]
fn update_request_encodes_content() {
    let r = webxr_graph::github_service::update_file_request("pages/a.md", "hello", "branch-1", "abc");
    assert_eq!(r.message, "Update pages/a.md with Perplexity-enhanced content");
    assert_eq!(r.content, "aGVsbG8=");
    assert_eq!(r.sha, "abc");
    assert_eq!(r.branch, "branch-1");
}

#[test]
fn listing_entries_reads_fields() {
    let listing = br#"[{"type":"file","name":"a.md","sha":"1","download_url":"u"},{"name":"b"}]"#;
    let entries = webxr_graph::github_service::listing_entries(listing).unwrap();
    assert_eq!(entries.len(), 2);
    assert_eq!(entries[0].item_type, "file");
    assert_eq!(entries[0].name, "a.md");
    assert_eq!(entries[0].sha, "1");
    assert_eq!(entries[0].download_url, "u");
    assert_eq!(entries[1].item_type, "");
    assert_eq!(entries[1].name, "b");
    assert_eq!(
        webxr_graph::github_service::listing_entries(br#"{"message":"Not Found"}"#).unwrap_err(),
        "expected a JSON array"
    );
    assert!(webxr_graph::github_service::listing_entries(b"<html>").is_err());
}

#[test]
fn last_commit_date_reads_first_commit() {
    let commits = br#"[{"commit":{"committer":{"date":"2024-01-02T03:04:05Z"}}},{}]"#;
    assert_eq!(
        webxr_graph::github_service::last_commit_date(commits).unwrap(),
        Some("2024-01-02T03:04:05Z".to_string())
    );
    assert_eq!(webxr_graph::github_service::last_commit_date(b"[]").unwrap(), None);
    assert!(webxr_graph::github_service::last_commit_date(b"{}").is_err());
}

#[test]
fn reference_sha_and_pull_request_url() {
    assert_eq!(webxr_graph::github_service::reference_sha(br#"{"object":{"sha":"f00"}}"#).unwrap(), "f00");
    assert_eq!(webxr_graph::github_service::reference_sha(br#"{}"#).unwrap_err(), "SHA not found");
    assert_eq!(
        webxr_graph::github_service::pull_request_url(br#"{"html_url":"https://x/pr/1"}"#).unwrap(),
        "https://x/pr/1"
    );
    assert_eq!(webxr_graph::github_service::pull_request_url(br#"{}"#).unwrap_err(), "PR URL not found");
}
