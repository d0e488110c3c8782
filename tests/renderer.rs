use cclv::model::{ContentBlock, ConversationEntry, EntryUuid, LogEntry, MalformedEntry};
use cclv::renderer::compute_entry_lines;
use cclv::types::WrapMode;

fn entry_with(uuid: &str, block: ContentBlock) -> ConversationEntry {
    ConversationEntry::Valid(LogEntry {
        uuid: EntryUuid::new(uuid).unwrap(),
        blocks: vec![block],
    })
}

fn create_entry_with_thinking(thinking_text: &str) -> ConversationEntry {
    entry_with(
        "test-uuid-001",
        ContentBlock::Thinking {
            thinking: thinking_text.to_string(),
        },
    )
}

fn create_entry_with_text(text: &str) -> ConversationEntry {
    entry_with(
        "test-text-001",
        ContentBlock::Text {
            text: text.to_string(),
        },
    )
}

fn create_entry_with_tool_result(content: &str, is_error: bool) -> ConversationEntry {
    entry_with(
        "test-tool-result-001",
        ContentBlock::ToolResult {
            content: content.to_string(),
            is_error,
        },
    )
}

fn create_entry_with_tool_use(tool_name: &str, input_json: &str) -> ConversationEntry {
    entry_with(
        "test-tool-use-002",
        ContentBlock::ToolUse {
            name: tool_name.to_string(),
            input: input_json.to_string(),
        },
    )
}

fn numbered(prefix: &str, n: usize) -> String {
    (0..n)
        .map(|i| format!("{} line {}", prefix, i))
        .collect::<Vec<_>>()
        .join("\n")
}

fn has_indicator(lines: &[String]) -> bool {
    lines.iter().any(|l| l.contains("more lines"))
}

#[test]
fn test_collapsed_thinking_block_respects_collapse_threshold() {
    let entry = create_entry_with_thinking(&numbered("Thinking", 100));
    let lines = compute_entry_lines(&entry, false, WrapMode::Wrap, 80, 10, 3);
    assert_eq!(lines.len(), 5);
    assert!(has_indicator(&lines));
}

#[test]
fn test_expanded_thinking_block_shows_all_lines() {
    let entry = create_entry_with_thinking(&numbered("Thinking", 100));
    let lines = compute_entry_lines(&entry, true, WrapMode::Wrap, 80, 10, 3);
    assert_eq!(lines.len(), 101);
    assert!(!has_indicator(&lines));
}

#[test]
fn test_small_thinking_block_never_collapses() {
    let entry = create_entry_with_thinking(&numbered("Thinking", 5));
    let lines = compute_entry_lines(&entry, false, WrapMode::Wrap, 80, 10, 3);
    assert_eq!(lines.len(), 6);
    assert!(!has_indicator(&lines));
}

#[test]
fn test_collapsed_text_content_respects_collapse_threshold() {
    let entry = create_entry_with_text(&numbered("Text", 100));
    let lines = compute_entry_lines(&entry, false, WrapMode::Wrap, 80, 10, 3);
    assert_eq!(lines.len(), 5);
    assert!(has_indicator(&lines));
    assert!(lines[0].contains("Text line 0"));
}

#[test]
fn test_expanded_text_content_shows_all_lines() {
    let entry = create_entry_with_text(&numbered("Text", 100));
    let lines = compute_entry_lines(&entry, true, WrapMode::Wrap, 80, 10, 3);
    assert_eq!(lines.len(), 101);
    assert!(!has_indicator(&lines));
}

#[test]
fn test_small_text_content_never_collapses() {
    let entry = create_entry_with_text(&numbered("Text", 5));
    let lines = compute_entry_lines(&entry, false, WrapMode::Wrap, 80, 10, 3);
    assert_eq!(lines.len(), 6);
    assert!(!has_indicator(&lines));
}

#[test]
fn test_text_block_wraps_long_lines() {
    let entry = create_entry_with_text(&"x".repeat(100));
    let lines = compute_entry_lines(&entry, true, WrapMode::Wrap, 40, 10, 3);
    assert_eq!(lines.len(), 4);
}

#[test]
fn test_text_block_nowrap_does_not_wrap() {
    let entry = create_entry_with_text(&"x".repeat(100));
    let lines = compute_entry_lines(&entry, true, WrapMode::NoWrap, 40, 10, 3);
    assert_eq!(lines.len(), 2);
}

#[test]
fn test_tool_result_wraps_long_lines() {
    let entry = create_entry_with_tool_result(&"y".repeat(100), false);
    let lines = compute_entry_lines(&entry, true, WrapMode::Wrap, 40, 10, 3);
    assert_eq!(lines.len(), 4);
}

#[test]
fn test_tool_result_nowrap_does_not_wrap() {
    let entry = create_entry_with_tool_result(&"y".repeat(100), false);
    let lines = compute_entry_lines(&entry, true, WrapMode::NoWrap, 40, 10, 3);
    assert_eq!(lines.len(), 2);
}

fn long_param_input() -> String {
    format!("{{\n  \"long_param\": \"{}\"\n}}", "z".repeat(100))
}

#[test]
fn test_tool_use_wraps_long_input_lines() {
    let entry = create_entry_with_tool_use("TestTool", &long_param_input());
    let lines = compute_entry_lines(&entry, true, WrapMode::Wrap, 40, 10, 3);
    assert!(lines.len() > 3);
}

#[test]
fn test_tool_use_nowrap_does_not_wrap() {
    let entry = create_entry_with_tool_use("TestTool", &long_param_input());
    let wrapped = compute_entry_lines(&entry, true, WrapMode::Wrap, 40, 10, 3);
    let nowrap = compute_entry_lines(&entry, true, WrapMode::NoWrap, 40, 10, 3);
    assert!(nowrap.len() < wrapped.len());
}

#[test]
fn test_tool_use_header_has_emoji_indicator() {
    let entry = create_entry_with_tool_use("TestTool", "{\n  \"param\": \"value\"\n}");
    let lines = compute_entry_lines(&entry, true, WrapMode::Wrap, 80, 10, 3);
    assert!(lines[0].starts_with("\u{1F527} Tool:"));
    assert!(lines[0].contains("TestTool"));
}

#[test]
fn collapsed_output_has_exact_summary_indicator_and_separator() {
    let entry = create_entry_with_text(&numbered("Text", 100));
    let lines = compute_entry_lines(&entry, false, WrapMode::Wrap, 80, 10, 3);
    assert_eq!(
        lines,
        vec![
            "Text line 0".to_string(),
            "Text line 1".to_string(),
            "Text line 2".to_string(),
            "(+97 more lines)".to_string(),
            String::new(),
        ]
    );
}

#[test]
fn below_threshold_collapsed_equals_expanded() {
    let entry = create_entry_with_thinking(&numbered("Thinking", 5));
    let collapsed = compute_entry_lines(&entry, false, WrapMode::Wrap, 80, 10, 3);
    let expanded = compute_entry_lines(&entry, true, WrapMode::Wrap, 80, 10, 3);
    assert_eq!(collapsed, expanded);
    assert_eq!(collapsed.len(), 6);
}

#[test]
fn malformed_entry_renders_one_separator_line() {
    let entry = ConversationEntry::Malformed(MalformedEntry {
        line_number: 42,
        message: "Parse error".to_string(),
    });
    let lines = compute_entry_lines(&entry, true, WrapMode::Wrap, 80, 10, 3);
    assert_eq!(lines, vec![String::new()]);
}

#[test]
fn wrapped_pieces_hold_consecutive_chunks() {
    let text: String = (0..10).map(|i| char::from(b'a' + i)).collect();
    let entry = create_entry_with_text(&text);
    // width 6 leaves 4 columns of content
    let lines = compute_entry_lines(&entry, true, WrapMode::Wrap, 6, 10, 3);
    assert_eq!(lines, vec!["abcd", "efgh", "ij", ""]);
}

#[test]
fn wrapping_counts_toward_collapse_threshold() {
    // 4 logical lines of 100 chars at width 40 give 12 physical lines
    let text = vec!["w".repeat(100); 4].join("\n");
    let entry = create_entry_with_text(&text);
    let lines = compute_entry_lines(&entry, false, WrapMode::Wrap, 40, 10, 3);
    assert_eq!(lines.len(), 5);
    assert_eq!(lines[3], "(+9 more lines)");
    let nowrap = compute_entry_lines(&entry, false, WrapMode::NoWrap, 40, 10, 3);
    assert_eq!(nowrap.len(), 5);
}

#[test]
fn blocks_share_one_collapse_decision() {
    let entry = ConversationEntry::Valid(LogEntry {
        uuid: EntryUuid::new("multi").unwrap(),
        blocks: vec![
            ContentBlock::Text {
                text: numbered("Text", 6),
            },
            ContentBlock::Thinking {
                thinking: numbered("Thinking", 6),
            },
        ],
    });
    let lines = compute_entry_lines(&entry, false, WrapMode::Wrap, 80, 10, 3);
    assert_eq!(lines.len(), 5);
    assert_eq!(lines[3], "(+9 more lines)");
    let expanded = compute_entry_lines(&entry, true, WrapMode::Wrap, 80, 10, 3);
    assert_eq!(expanded.len(), 13);
    assert_eq!(expanded[6], "Thinking line 0");
}

#[test]
fn empty_uuid_is_refused() {
    assert!(EntryUuid::new("").is_none());
    assert_eq!(EntryUuid::new("u").unwrap().as_str(), "u");
}
