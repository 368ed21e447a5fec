use webxr_graph::markdown::{blocks_from_events, context_blocks, select_context_blocks, split_markdown_blocks, MdEvent};

fn strings(v: &[&str]) -> Vec<String> {
    v.iter().map(|s| s.to_string()).collect()
}

#[test]
fn split_paragraphs() {
    assert_eq!(
        split_markdown_blocks("Test content\n\nAnother block"),
        strings(&["Test content", "Another block"])
    );
}

#[test]
fn split_list_items_and_headings() {
    assert_eq!(
        split_markdown_blocks("# Title\n\n- first\n- second\n"),
        strings(&["Title", "first", "second"])
    );
}

#[test]
fn split_empty_page() {
    assert!(split_markdown_blocks("").is_empty());
}

#[test]
fn blocks_from_events_groups_text() {
    let events = vec![
        MdEvent::StartItem,
        MdEvent::Text("a".to_string()),
        MdEvent::Other,
        MdEvent::Text("b".to_string()),
        MdEvent::EndItem,
        MdEvent::EndParagraph,
        MdEvent::StartHeading,
        MdEvent::Text("c".to_string()),
    ];
    assert_eq!(blocks_from_events(&events), strings(&["ab", "c"]));
}

#[test]
fn context_window_middle() {
    let blocks = strings(&["a", "b", "c", "d", "e", "f", "g"]);
    assert_eq!(context_blocks(&blocks, "d"), strings(&["b", "c", "d", "e", "f"]));
}

#[test]
fn context_window_edges() {
    let blocks = strings(&["a", "b", "c", "d"]);
    assert_eq!(context_blocks(&blocks, "a"), strings(&["a", "b", "c"]));
    assert_eq!(context_blocks(&blocks, "d"), strings(&["b", "c", "d"]));
    assert_eq!(context_blocks(&blocks, "zz"), strings(&["zz"]));
}

#[test]
fn select_context_from_page() {
    let page = "- a\n- b\n- c\n- d\n- e\n- f\n- g\n";
    assert_eq!(select_context_blocks(page, "d"), strings(&["b", "c", "d", "e", "f"]));
    assert_eq!(select_context_blocks(page, "x"), strings(&["x"]));
}

#[test]
fn context_window_first_match() {
    let blocks = strings(&["x", "a", "b", "c", "x"]);
    assert_eq!(context_blocks(&blocks, "x"), strings(&["x", "a", "b"]));
}
