use cclv::conversation::ConversationViewState;
use cclv::handlers::{handle_expand_action, handle_scroll_action, ExpandAction, ScrollAction};
use cclv::model::{ContentBlock, ConversationEntry, EntryUuid, LogEntry};
use cclv::scroll::ScrollPosition;
use cclv::types::{EntryIndex, LayoutParams, LineOffset, ViewportDimensions, WrapMode};

fn entry_of_height(uuid: &str, height: usize) -> ConversationEntry {
    let text = (0..height - 1)
        .map(|i| format!("line {}", i))
        .collect::<Vec<_>>()
        .join("\n");
    ConversationEntry::Valid(LogEntry {
        uuid: EntryUuid::new(uuid).unwrap(),
        blocks: vec![ContentBlock::Text { text }],
    })
}

fn four_by_ten() -> ConversationViewState {
    let entries = (0..4).map(|i| entry_of_height(&format!("e{}", i), 10)).collect();
    let mut state = ConversationViewState::new(entries);
    state.recompute_layout(LayoutParams::new(80, WrapMode::Wrap));
    state
}

const VIEW: ViewportDimensions = ViewportDimensions { width: 80, height: 24 };

#[test]
fn scroll_down_from_top_moves_one_line() {
    let mut state = four_by_ten();
    let follow = handle_scroll_action(&mut state, ScrollAction::ScrollDown, VIEW);
    assert_eq!(state.scroll(), &ScrollPosition::AtLine(LineOffset::new(1)));
    assert!(!follow);
    assert_eq!(state.focused_message(), Some(EntryIndex::new(0)));
}

#[test]
fn scroll_up_at_top_stays_top() {
    let mut state = four_by_ten();
    handle_scroll_action(&mut state, ScrollAction::ScrollUp, VIEW);
    assert_eq!(state.scroll(), &ScrollPosition::Top);
}

#[test]
fn page_down_is_clamped_and_follows_bottom() {
    let mut state = four_by_ten();
    let follow = handle_scroll_action(&mut state, ScrollAction::PageDown, VIEW);
    assert_eq!(state.scroll(), &ScrollPosition::AtLine(LineOffset::new(16)));
    assert!(follow);
    assert_eq!(state.focused_message(), Some(EntryIndex::new(1)));
}

#[test]
fn scrolling_down_past_bottom_is_not_absorbed_on_the_way_back() {
    let mut state = four_by_ten();
    for _ in 0..5 {
        handle_scroll_action(&mut state, ScrollAction::PageDown, VIEW);
    }
    let follow = handle_scroll_action(&mut state, ScrollAction::ScrollUp, VIEW);
    assert_eq!(state.scroll(), &ScrollPosition::AtLine(LineOffset::new(15)));
    assert!(!follow);
}

#[test]
fn jump_to_bottom_and_top() {
    let mut state = four_by_ten();
    assert!(handle_scroll_action(&mut state, ScrollAction::ScrollToBottom, VIEW));
    assert_eq!(state.scroll(), &ScrollPosition::Bottom);
    assert_eq!(state.resolved_offset(24), 16);
    handle_scroll_action(&mut state, ScrollAction::ScrollDown, VIEW);
    assert_eq!(state.scroll(), &ScrollPosition::Bottom);
    handle_scroll_action(&mut state, ScrollAction::PageUp, VIEW);
    assert_eq!(state.scroll(), &ScrollPosition::AtLine(LineOffset::new(0)));
    assert!(!handle_scroll_action(&mut state, ScrollAction::ScrollToTop, VIEW));
    assert_eq!(state.scroll(), &ScrollPosition::Top);
}

#[test]
fn toggle_expand_action_uses_focus_or_first_entry() {
    let entries = (0..3).map(|i| entry_of_height(&format!("e{}", i), 20)).collect();
    let mut state = ConversationViewState::with_collapse_policy(entries, 10, 8);
    let params = LayoutParams::new(80, WrapMode::Wrap);
    state.recompute_layout(params);
    handle_expand_action(&mut state, ExpandAction::ToggleExpand, params);
    assert!(state.get(EntryIndex::new(0)).unwrap().is_expanded());
    state.set_focused_message(Some(EntryIndex::new(2)));
    handle_expand_action(&mut state, ExpandAction::ToggleExpand, params);
    assert!(state.get(EntryIndex::new(2)).unwrap().is_expanded());
    assert_eq!(state.total_height(), 50);
    handle_expand_action(&mut state, ExpandAction::CollapseMessage, params);
    assert_eq!(state.total_height(), 30);
    handle_expand_action(&mut state, ExpandAction::ExpandMessage, params);
    assert_eq!(state.total_height(), 60);
}

#[test]
fn toggle_expand_action_on_empty_conversation_does_nothing() {
    let mut state = ConversationViewState::empty();
    handle_expand_action(&mut state, ExpandAction::ToggleExpand, LayoutParams::new(80, WrapMode::Wrap));
    assert!(state.is_empty());
}
