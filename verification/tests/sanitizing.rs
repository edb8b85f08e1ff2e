use meetily_core::sanitizer::clean_llm_markdown_output;

#[test]
fn strips_thinking_block_and_markdown_fence() {
    let raw = "<thinking>reasoning</thinking>\n\n```markdown\nHello\n```";
    assert_eq!(clean_llm_markdown_output(raw), "Hello");
}

#[test]
fn strips_think_block() {
    assert_eq!(clean_llm_markdown_output("<think>x</think>abc"), "abc");
}

#[test]
fn strips_multiline_reasoning() {
    let raw = "<thinking>line one\nline two\n</thinking>\n# Title";
    assert_eq!(clean_llm_markdown_output(raw), "# Title");
}

#[test]
fn strips_several_blocks() {
    let raw = "a<think>1</think>b<thinking>2</thinking>c";
    assert_eq!(clean_llm_markdown_output(raw), "abc");
}

#[test]
fn mismatched_tags_still_close_lazily() {
    // the block ends at the first closer of either spelling
    assert_eq!(clean_llm_markdown_output("<think>a</thinking>b"), "b");
}

#[test]
fn unterminated_opener_is_kept() {
    assert_eq!(clean_llm_markdown_output("<think>abc"), "<think>abc");
}

#[test]
fn strips_bare_fence() {
    assert_eq!(clean_llm_markdown_output("```\nBody text\n```"), "Body text");
}

#[test]
fn fence_with_trailing_text_is_not_stripped() {
    let raw = "```\nBody\n``` tail";
    assert_eq!(clean_llm_markdown_output(raw), "```\nBody\n``` tail");
}

#[test]
fn other_language_fence_is_not_stripped() {
    let raw = "```json\n{ }\n```";
    assert_eq!(clean_llm_markdown_output(raw), "```json\n{ }\n```");
}

#[test]
fn trims_whitespace() {
    assert_eq!(clean_llm_markdown_output("  \n# Report\n\n  "), "# Report");
}

#[test]
fn clean_text_passes_unchanged() {
    let text = "# Report\n\n- item one\n- item two";
    assert_eq!(clean_llm_markdown_output(text), text);
}

#[test]
fn removal_can_splice_new_tags_together() {
    // removing the inner block leaves a freshly assembled pair behind,
    // which only a second pass would remove: removals never rescan
    let raw = "<th<think>a</think>ink>b</think>";
    let once = clean_llm_markdown_output(raw);
    assert_eq!(once, "<think>b</think>");
    assert_eq!(clean_llm_markdown_output(&once), "");
}

#[test]
fn sanitizing_twice_equals_once() {
    let cases = [
        "<thinking>reasoning</thinking>\n\n```markdown\nHello\n```",
        "```\nBody text\n```",
        "  plain  ",
        "# Report\n\nbody",
        "<think>a</think>b",
        "",
    ];
    for raw in cases {
        let once = clean_llm_markdown_output(raw);
        let twice = clean_llm_markdown_output(&once);
        assert_eq!(twice, once);
    }
}
