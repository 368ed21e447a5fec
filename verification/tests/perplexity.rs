use webxr_graph::perplexity::{
    block_needs_processing, clean_logseq_links, clean_logseq_links_checked,
    process_markdown_block, process_markdown_block_checked, request_messages, response_content,
    should_retry, Choice, PageRewrite, RewriteStep, Message, PerplexityError, PerplexityResponse, PerplexityServiceImpl,
};

fn strings(v: &[&str]) -> Vec<String> {
    v.iter().map(|s| s.to_string()).collect()
}

#[test]
fn clean_links() {
    assert_eq!(clean_logseq_links("see [[Rust]] and [[Web XR]]"), "see Rust and Web XR");
    assert_eq!(clean_logseq_links("no links"), "no links");
    assert_eq!(
        clean_logseq_links_checked("[[a]][[b]]"),
        Some("ab".to_string())
    );
}

#[test]
fn markdown_block_report() {
    let topics = strings(&["Rust", "AI"]);
    let out = process_markdown_block(
        "- uses [[Rust]]  ",
        "Explain",
        &topics,
        "Rust is fast. Rust and AI.",
    );
    assert_eq!(
        out,
        "- ```\nuses Rust```\nPrompt: Explain\nTopics: Rust, AI\nResponse: [[Rust]] is fast. Rust and [[AI]]."
    );
}

#[test]
fn markdown_block_topic_with_metacharacters() {
    let topics = strings(&["C++"]);
    let out = process_markdown_block_checked("x", "p", &topics, "about C++ here").unwrap();
    assert!(out.ends_with("Response: about C++ here"));
    let topics = strings(&["a$1"]);
    let out = process_markdown_block_checked("x", "p", &topics, "the a$1 word").unwrap();
    assert!(out.ends_with("Response: the [[a$1]] word"));
}

#[test]
fn request_messages_text() {
    let msgs = request_messages("  Summarise\n", &strings(&["one", "two"]), &strings(&["t1", "t2"]));
    assert_eq!(msgs.len(), 2);
    assert_eq!(msgs[0].role, "system");
    assert_eq!(msgs[0].content, "Summarise\nRelevant category topics are: t1, t2.");
    assert_eq!(msgs[1].role, "user");
    assert_eq!(msgs[1].content, "Context:\none\ntwo");
}

#[test]
fn retry_rule() {
    assert!(should_retry(1, 3));
    assert!(should_retry(2, 3));
    assert!(!should_retry(3, 3));
    assert!(!should_retry(1, 0));
}

#[test]
fn response_content_first_choice() {
    let resp = PerplexityResponse {
        id: None,
        model: None,
        object: None,
        created: None,
        choices: vec![Choice {
            index: 0,
            finish_reason: None,
            message: Message { role: "assistant".to_string(), content: "API Response".to_string() },
            delta: None,
        }],
        usage: None,
    };
    assert_eq!(response_content(&resp).unwrap(), "API Response");
    let empty = PerplexityResponse { choices: vec![], ..resp };
    match response_content(&empty) {
        Err(PerplexityError::Api(m)) => assert_eq!(m, "No content in API response"),
        other => panic!("unexpected {:?}", other),
    }
}

#[test]
fn blocks_needing_processing() {
    assert!(!block_needs_processing("   "));
    assert!(!block_needs_processing(" public:: true \n"));
    assert!(block_needs_processing("public:: false"));
    assert!(block_needs_processing("Some text"));
}

#[test]
fn service_new() {
    let _service = PerplexityServiceImpl::new();
}

#[test]
fn page_rewrite_keeps_plain_blocks() {
    let page = "public:: true\n\n- first\n- second\n";
    let mut rw = PageRewrite::new(page);
    let mut asked = Vec::new();
    let text = loop {
        match rw.next_step() {
            RewriteStep::Ask { block, context } => {
                assert!(context.contains(&block));
                asked.push(block.clone());
                if block == "first" {
                    rw.record_answer(Some("FIRST".to_string()));
                } else {
                    rw.record_answer(None);
                }
            }
            RewriteStep::Finished(text) => break text,
        }
    };
    assert_eq!(asked, vec!["first".to_string(), "second".to_string()]);
    assert_eq!(text, "public:: true\n\nFIRST\n\nsecond");
}

#[test]
fn topic_is_matched_literally() {
    let topics = vec!["a.b".to_string()];
    let out = webxr_graph::perplexity::process_markdown_block_checked("- x", "P", &topics, "axb a.b").unwrap();
    assert!(out.ends_with("Response: axb [[a.b]]"), "{}", out);
}
