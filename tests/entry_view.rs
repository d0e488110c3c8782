use cclv::entry_view::EntryView;
use cclv::model::{ContentBlock, ConversationEntry, EntryUuid, LogEntry, MalformedEntry};
use cclv::types::{EntryIndex, LineHeight, WrapMode};

fn make_valid_entry() -> ConversationEntry {
    ConversationEntry::Valid(LogEntry {
        uuid: EntryUuid::new("uuid-1").unwrap(),
        blocks: vec![ContentBlock::Text {
            text: "Test message".to_string(),
        }],
    })
}

fn make_malformed_entry() -> ConversationEntry {
    ConversationEntry::Malformed(MalformedEntry {
        line_number: 42,
        message: "Parse error".to_string(),
    })
}

fn make_entry_with_thinking(thinking_text: &str) -> ConversationEntry {
    ConversationEntry::Valid(LogEntry {
        uuid: EntryUuid::new("test-uuid-001").unwrap(),
        blocks: vec![ContentBlock::Thinking {
            thinking: thinking_text.to_string(),
        }],
    })
}

fn hundred_thinking_lines() -> String {
    (0..100)
        .map(|i| format!("Thinking line {}", i))
        .collect::<Vec<_>>()
        .join("\n")
}

#[test]
fn new_creates_entry_with_minimal_state() {
    let index = EntryIndex::new(0);
    let view = EntryView::new(make_valid_entry(), index);
    assert_eq!(view.index(), index);
    assert!(!view.is_expanded());
    assert_eq!(view.wrap_override(), None);
    assert_eq!(view.rendered_lines().len(), 1);
}

#[test]
fn with_rendered_lines_computes_for_valid_entry() {
    let view = EntryView::with_rendered_lines(make_valid_entry(), EntryIndex::new(0), WrapMode::Wrap, 80);
    assert!(!view.rendered_lines().is_empty());
}

#[test]
fn with_rendered_lines_computes_for_malformed_entry() {
    let view = EntryView::with_rendered_lines(make_malformed_entry(), EntryIndex::new(0), WrapMode::Wrap, 80);
    assert_eq!(view.rendered_lines().len(), 1);
}

#[test]
fn with_rendered_lines_uses_collapsed_state_by_default() {
    let entry = make_entry_with_thinking(&hundred_thinking_lines());
    let view = EntryView::with_rendered_lines(entry, EntryIndex::new(0), WrapMode::Wrap, 80);
    assert_eq!(view.rendered_lines().len(), 5);
}

#[test]
fn height_returns_line_count_from_rendered_lines() {
    let view = EntryView::with_rendered_lines(make_valid_entry(), EntryIndex::new(0), WrapMode::Wrap, 80);
    assert_eq!(view.height().get(), view.rendered_lines().len());
}

#[test]
fn height_returns_one_for_minimal_entry() {
    let view = EntryView::with_rendered_lines(make_malformed_entry(), EntryIndex::new(0), WrapMode::Wrap, 80);
    assert_eq!(view.height(), LineHeight::one());
}

#[test]
fn height_reflects_collapsed_vs_expanded_difference() {
    let entry = make_entry_with_thinking(&hundred_thinking_lines());
    let view = EntryView::with_rendered_lines(entry, EntryIndex::new(0), WrapMode::Wrap, 80);
    assert_eq!(view.height().get(), 5);
}

#[test]
fn rendered_lines_returns_reference_to_lines() {
    let view = EntryView::with_rendered_lines(make_valid_entry(), EntryIndex::new(0), WrapMode::Wrap, 80);
    let lines: &Vec<String> = view.rendered_lines();
    assert_eq!(lines[0], "Test message");
}

#[test]
fn height_and_rendered_lines_stay_consistent() {
    let entries = vec![
        make_valid_entry(),
        make_malformed_entry(),
        make_entry_with_thinking("Short"),
        make_entry_with_thinking(&"Long\n".repeat(100)),
    ];
    for (i, entry) in entries.into_iter().enumerate() {
        let view = EntryView::with_rendered_lines(entry, EntryIndex::new(i), WrapMode::Wrap, 80);
        assert_eq!(view.height().get(), view.rendered_lines().len());
    }
}

#[test]
fn constructor_parameters_affect_rendering() {
    let entry = ConversationEntry::Valid(LogEntry {
        uuid: EntryUuid::new("wide").unwrap(),
        blocks: vec![ContentBlock::Text { text: "x".repeat(100) }],
    });
    let view1 = EntryView::with_rendered_lines(entry.clone(), EntryIndex::new(0), WrapMode::Wrap, 40);
    let view2 = EntryView::with_rendered_lines(entry, EntryIndex::new(0), WrapMode::NoWrap, 40);
    assert_eq!(view1.height().get(), 4);
    assert_eq!(view2.height().get(), 2);
}

#[test]
fn effective_wrap_falls_back_to_global() {
    let view = EntryView::new(make_valid_entry(), EntryIndex::new(0));
    assert_eq!(view.effective_wrap(WrapMode::NoWrap), WrapMode::NoWrap);
    assert_eq!(view.effective_wrap(WrapMode::Wrap), WrapMode::Wrap);
    assert_eq!(view.display_index(), 1);
    assert_eq!(view.uuid().unwrap().as_str(), "uuid-1");
    assert!(view.entry().is_valid());
}

#[test]
fn line_height_refuses_zero() {
    assert!(LineHeight::new(0).is_none());
    assert_eq!(LineHeight::new(3).unwrap().get(), 3);
}
