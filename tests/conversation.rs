use cclv::conversation::ConversationViewState;
use cclv::hit_test::HitTestResult;
use cclv::model::{ContentBlock, ConversationEntry, EntryUuid, LogEntry, MalformedEntry};
use cclv::scroll::ScrollPosition;
use cclv::types::{EntryIndex, LayoutParams, LineOffset, ViewportDimensions, WrapMode};

/// An entry whose rendering is `height` lines: `height - 1` text lines and the separator.
fn entry_of_height(uuid: &str, height: usize) -> ConversationEntry {
    let text = (0..height - 1)
        .map(|i| format!("line {}", i))
        .collect::<Vec<_>>()
        .join("\n");
    ConversationEntry::Valid(LogEntry {
        uuid: EntryUuid::new(uuid).unwrap(),
        blocks: vec![ContentBlock::Text { text }],
    })
}

fn make_valid_entry(uuid: &str) -> ConversationEntry {
    entry_of_height(uuid, 10)
}

fn make_malformed_entry() -> ConversationEntry {
    ConversationEntry::Malformed(MalformedEntry {
        line_number: 42,
        message: "Parse error".to_string(),
    })
}

fn laid_out(n: usize, height: usize) -> ConversationViewState {
    let entries = (0..n)
        .map(|i| entry_of_height(&format!("uuid-{}", i + 1), height))
        .collect();
    let mut state = ConversationViewState::new(entries);
    state.recompute_layout(LayoutParams::new(80, WrapMode::Wrap));
    state
}

fn offsets(state: &ConversationViewState) -> Vec<usize> {
    (0..state.len())
        .map(|i| state.entry_cumulative_y(EntryIndex::new(i)).unwrap().get())
        .collect()
}

#[test]
fn new_creates_view_state_from_entries() {
    let state = ConversationViewState::new(vec![
        make_valid_entry("uuid-1"),
        make_valid_entry("uuid-2"),
        make_valid_entry("uuid-3"),
    ]);
    assert_eq!(state.len(), 3);
    assert!(!state.is_empty());
}

#[test]
fn new_starts_with_no_layout() {
    let state = ConversationViewState::new(vec![make_valid_entry("uuid-1")]);
    assert_eq!(state.total_height(), 0);
    assert!(state.needs_relayout(&LayoutParams::new(80, WrapMode::Wrap)));
    assert_eq!(state.entry_cumulative_y(EntryIndex::new(0)), None);
}

#[test]
fn new_starts_scrolled_to_top() {
    let state = ConversationViewState::new(vec![make_valid_entry("uuid-1")]);
    assert_eq!(state.scroll(), &ScrollPosition::Top);
}

#[test]
fn new_starts_with_no_focused_message() {
    let state = ConversationViewState::new(vec![make_valid_entry("uuid-1")]);
    assert_eq!(state.focused_message(), None);
}

#[test]
fn new_assigns_correct_indices() {
    let state = ConversationViewState::new(vec![
        make_valid_entry("uuid-1"),
        make_valid_entry("uuid-2"),
        make_valid_entry("uuid-3"),
    ]);
    for i in 0..3 {
        assert_eq!(state.get(EntryIndex::new(i)).unwrap().index(), EntryIndex::new(i));
    }
    assert!(state.get(EntryIndex::new(3)).is_none());
}

#[test]
fn empty_creates_empty_state() {
    let state = ConversationViewState::empty();
    assert_eq!(state.len(), 0);
    assert!(state.is_empty());
}

#[test]
fn recompute_layout_sets_total_height() {
    let state = laid_out(3, 5);
    assert_eq!(state.total_height(), 15);
}

#[test]
fn recompute_layout_maintains_cumulative_y_invariant() {
    let state = laid_out(3, 5);
    assert_eq!(offsets(&state), vec![0, 5, 10]);
}

#[test]
fn recompute_layout_stores_params() {
    let state = laid_out(1, 5);
    assert!(!state.needs_relayout(&LayoutParams::new(80, WrapMode::Wrap)));
}

#[test]
fn visible_range_empty_state_returns_empty_range() {
    let state = ConversationViewState::empty();
    let range = state.visible_range(ViewportDimensions::new(80, 24));
    assert!(range.is_empty());
    assert_eq!(range.start_index, EntryIndex::new(0));
    assert_eq!(range.end_index, EntryIndex::new(0));
}

#[test]
fn visible_range_from_top_shows_first_entries() {
    let mut state = laid_out(4, 10);
    state.set_scroll(ScrollPosition::Top);
    let range = state.visible_range(ViewportDimensions::new(80, 24));
    assert_eq!(range.start_index, EntryIndex::new(0));
    assert_eq!(range.end_index, EntryIndex::new(3));
}

#[test]
fn visible_range_scrolled_shows_middle_entries() {
    let mut state = laid_out(5, 10);
    state.set_scroll(ScrollPosition::AtLine(LineOffset::new(15)));
    let range = state.visible_range(ViewportDimensions::new(80, 24));
    assert_eq!(range.start_index, EntryIndex::new(1));
    assert_eq!(range.end_index, EntryIndex::new(4));
}

#[test]
fn visible_range_at_bottom_shows_last_entries() {
    let mut state = laid_out(4, 10);
    assert_eq!(state.total_height(), 40);
    state.set_scroll(ScrollPosition::Bottom);
    assert_eq!(state.resolved_offset(24), 16);
    let range = state.visible_range(ViewportDimensions::new(80, 24));
    assert_eq!(range.scroll_offset, LineOffset::new(16));
    assert_eq!(range.start_index, EntryIndex::new(1));
    assert_eq!(range.end_index, EntryIndex::new(4));
}

#[test]
fn visible_range_never_empty_for_laid_out_entries() {
    let mut state = laid_out(3, 10);
    state.set_scroll(ScrollPosition::AtLine(LineOffset::new(1000)));
    let range = state.visible_range(ViewportDimensions::new(80, 0));
    assert!(!range.is_empty());
    assert!(range.end_index.get() <= state.len());
    let range = state.visible_range(ViewportDimensions::new(80, 100));
    assert_eq!(range.start_index, EntryIndex::new(0));
    assert_eq!(range.end_index, EntryIndex::new(3));
}

/// Entries whose collapsed height is 10 and whose expanded height is 20, under a
/// policy of 10 / 8: 19 candidate lines collapse to 8 lines, the indicator and
/// the separator.
fn toggling_conversation() -> ConversationViewState {
    let entries = (0..3)
        .map(|i| entry_of_height(&format!("uuid-{}", i + 1), 20))
        .collect();
    let mut state = ConversationViewState::with_collapse_policy(entries, 10, 8);
    state.recompute_layout(LayoutParams::new(80, WrapMode::Wrap));
    state
}

#[test]
fn toggling_first_entry_shifts_later_offsets() {
    let mut state = toggling_conversation();
    assert_eq!(offsets(&state), vec![0, 10, 20]);
    assert_eq!(state.total_height(), 30);
    let result = state.toggle_expand(EntryIndex::new(0), LayoutParams::new(80, WrapMode::Wrap));
    assert_eq!(result, Some(true));
    assert_eq!(offsets(&state), vec![0, 20, 30]);
    assert_eq!(state.total_height(), 40);
    assert_eq!(state.get(EntryIndex::new(2)).unwrap().height().get(), 10);
    assert_eq!(state.get(EntryIndex::new(0)).unwrap().height().get(), 20);
}

#[test]
fn relayout_from_updates_from_index_onward() {
    let mut state = toggling_conversation();
    let params = LayoutParams::new(80, WrapMode::Wrap);
    state.toggle_expand(EntryIndex::new(1), params);
    assert_eq!(offsets(&state), vec![0, 10, 30]);
    assert_eq!(state.total_height(), 40);
}

#[test]
fn relayout_from_zero_is_equivalent_to_full_relayout() {
    let entries: Vec<ConversationEntry> = vec![
        make_valid_entry("uuid-1"),
        make_valid_entry("uuid-2"),
        make_valid_entry("uuid-3"),
    ];
    let params = LayoutParams::new(80, WrapMode::Wrap);
    let mut state1 = ConversationViewState::new(entries.clone());
    let mut state2 = ConversationViewState::new(entries);
    state1.recompute_layout(params);
    state2.relayout_from(EntryIndex::new(0), params);
    assert_eq!(state1.total_height(), state2.total_height());
    assert_eq!(offsets(&state1), offsets(&state2));
}

#[test]
fn relayout_from_middle_matches_full_rebuild_after_toggle() {
    let params = LayoutParams::new(80, WrapMode::Wrap);
    for k in 0..3 {
        let mut partial = toggling_conversation();
        partial.toggle_expand(EntryIndex::new(k), params);
        let mut full = partial.clone();
        full.recompute_layout(params);
        partial.relayout_from(EntryIndex::new(k), params);
        assert_eq!(offsets(&partial), offsets(&full));
        assert_eq!(partial.total_height(), full.total_height());
        for i in 0..3 {
            let a = partial.get(EntryIndex::new(i)).unwrap();
            let b = full.get(EntryIndex::new(i)).unwrap();
            assert_eq!(a.rendered_lines(), b.rendered_lines());
        }
    }
}

#[test]
fn toggle_expand_returns_new_state() {
    let mut state = laid_out(1, 10);
    let params = LayoutParams::new(80, WrapMode::Wrap);
    let result = state.toggle_expand(EntryIndex::new(0), params);
    assert_eq!(result, Some(true));
    assert!(state.get(EntryIndex::new(0)).unwrap().is_expanded());
    assert_eq!(state.toggle_expand(EntryIndex::new(0), params), Some(false));
}

#[test]
fn toggle_expand_returns_none_for_invalid_index() {
    let mut state = ConversationViewState::empty();
    let result = state.toggle_expand(EntryIndex::new(0), LayoutParams::new(80, WrapMode::Wrap));
    assert_eq!(result, None);
}

#[test]
fn toggle_expand_triggers_relayout() {
    let entries = vec![entry_of_height("uuid-1", 20), entry_of_height("uuid-2", 20)];
    let mut state = ConversationViewState::with_collapse_policy(entries, 10, 8);
    let params = LayoutParams::new(80, WrapMode::Wrap);
    state.recompute_layout(params);
    assert_eq!(state.total_height(), 20);
    state.toggle_expand(EntryIndex::new(0), params);
    assert_eq!(offsets(&state), vec![0, 20]);
    assert_eq!(state.total_height(), 30);
}

#[test]
fn set_wrap_override_returns_new_override_and_relays_out() {
    let long = ConversationEntry::Valid(LogEntry {
        uuid: EntryUuid::new("long").unwrap(),
        blocks: vec![ContentBlock::Text { text: "x".repeat(100) }],
    });
    let mut state = ConversationViewState::new(vec![long, make_valid_entry("uuid-2")]);
    let params = LayoutParams::new(40, WrapMode::Wrap);
    state.recompute_layout(params);
    assert_eq!(offsets(&state), vec![0, 4]);
    let result = state.set_wrap_override(EntryIndex::new(0), Some(WrapMode::NoWrap), params);
    assert_eq!(result, Some(Some(WrapMode::NoWrap)));
    assert_eq!(offsets(&state), vec![0, 2]);
    assert_eq!(state.total_height(), 12);
    assert_eq!(state.set_wrap_override(EntryIndex::new(5), None, params), None);
}

#[test]
fn hit_test_empty_state_returns_miss() {
    let state = ConversationViewState::empty();
    assert_eq!(state.hit_test(10, 10, LineOffset::new(0)), HitTestResult::Miss);
}

#[test]
fn hit_test_finds_first_entry() {
    let state = laid_out(2, 10);
    assert_eq!(
        state.hit_test(5, 10, LineOffset::new(0)),
        HitTestResult::Hit {
            entry_index: EntryIndex::new(0),
            line_in_entry: 5,
            column: 10
        }
    );
}

#[test]
fn hit_test_finds_second_entry_with_scroll() {
    let state = laid_out(3, 10);
    assert_eq!(
        state.hit_test(5, 20, LineOffset::new(10)),
        HitTestResult::Hit {
            entry_index: EntryIndex::new(1),
            line_in_entry: 5,
            column: 20
        }
    );
}

#[test]
fn hit_test_beyond_content_returns_miss() {
    let state = laid_out(1, 10);
    assert_eq!(state.hit_test(15, 0, LineOffset::new(0)), HitTestResult::Miss);
    assert_eq!(state.hit_test(0, 0, LineOffset::new(10)), HitTestResult::Miss);
    assert!(state.hit_test(9, 0, LineOffset::new(0)).is_hit());
}

#[test]
fn hit_test_on_boundaries() {
    let state = laid_out(3, 10);
    let hit = state.hit_test(0, 3, LineOffset::new(20));
    assert_eq!(hit.entry_index(), Some(EntryIndex::new(2)));
    assert_eq!(
        state.hit_test(9, 3, LineOffset::new(10)),
        HitTestResult::hit(EntryIndex::new(1), 9, 3)
    );
    assert_eq!(state.hit_test(u16::MAX, 0, LineOffset::new(usize::MAX)), HitTestResult::miss());
}

#[test]
fn needs_relayout_true_when_params_change() {
    let state = laid_out(1, 10);
    assert!(state.needs_relayout(&LayoutParams::new(120, WrapMode::Wrap)));
    assert!(state.needs_relayout(&LayoutParams::new(80, WrapMode::NoWrap)));
}

#[test]
fn needs_relayout_false_when_params_unchanged() {
    let state = laid_out(1, 10);
    assert!(!state.needs_relayout(&LayoutParams::new(80, WrapMode::Wrap)));
}

#[test]
fn append_adds_entries_to_end() {
    let mut state = ConversationViewState::new(vec![make_valid_entry("uuid-1")]);
    state.append(vec![make_valid_entry("uuid-2"), make_valid_entry("uuid-3")]);
    assert_eq!(state.len(), 3);
    assert_eq!(state.get(EntryIndex::new(2)).unwrap().index(), EntryIndex::new(2));
}

#[test]
fn append_invalidates_layout() {
    let mut state = laid_out(1, 10);
    let params = LayoutParams::new(80, WrapMode::Wrap);
    state.append(vec![make_valid_entry("uuid-2")]);
    assert!(state.needs_relayout(&params));
    assert_eq!(state.total_height(), 10);
    assert_eq!(state.entry_cumulative_y(EntryIndex::new(1)), None);
    state.recompute_layout(params);
    assert_eq!(offsets(&state), vec![0, 10]);
}

#[test]
fn malformed_entries_take_one_line() {
    let mut state = ConversationViewState::new(vec![
        make_malformed_entry(),
        make_valid_entry("uuid-2"),
        make_malformed_entry(),
    ]);
    state.recompute_layout(LayoutParams::new(80, WrapMode::Wrap));
    assert_eq!(offsets(&state), vec![0, 1, 11]);
    assert_eq!(state.total_height(), 12);
}

#[test]
fn focus_is_clamped_to_last_entry() {
    let mut state = laid_out(3, 10);
    state.set_focused_message(Some(EntryIndex::new(7)));
    assert_eq!(state.focused_message(), Some(EntryIndex::new(2)));
    assert_eq!(state.focused_entry().unwrap().index(), EntryIndex::new(2));
    state.set_focused_message(None);
    assert!(state.focused_entry().is_none());
}

#[test]
fn scroll_to_entry_anchors_on_uuid() {
    let mut state = laid_out(4, 10);
    let uuid = EntryUuid::new("uuid-3").unwrap();
    assert_eq!(state.find_entry_index_by_uuid(&uuid), Some(EntryIndex::new(2)));
    assert!(state.scroll_to_entry(&uuid));
    assert_eq!(
        state.scroll(),
        &ScrollPosition::AtEntry {
            entry_index: EntryIndex::new(2),
            line_in_entry: 0
        }
    );
    assert_eq!(state.resolved_offset(10), 20);
    assert_eq!(state.resolved_offset(24), 16);
    let missing = EntryUuid::new("nope").unwrap();
    assert!(!state.scroll_to_entry(&missing));
}

#[test]
fn anchor_survives_expansion_above_it() {
    let mut state = toggling_conversation();
    let params = LayoutParams::new(80, WrapMode::Wrap);
    state.scroll_to_entry(&EntryUuid::new("uuid-3").unwrap());
    assert_eq!(state.resolved_offset(5), 20);
    state.toggle_expand(EntryIndex::new(0), params);
    assert_eq!(state.resolved_offset(5), 30);
}

#[test]
fn expand_all_and_collapse_all() {
    let mut state = toggling_conversation();
    let params = LayoutParams::new(80, WrapMode::Wrap);
    state.set_all_expanded(true, params);
    assert_eq!(offsets(&state), vec![0, 20, 40]);
    state.set_all_expanded(false, params);
    assert_eq!(offsets(&state), vec![0, 10, 20]);
}

#[test]
fn entry_view_height_matches_rendered_lines() {
    let state = laid_out(3, 7);
    for view in state.entries() {
        assert_eq!(view.height().get(), view.rendered_lines().len());
        assert_eq!(view.display_index(), view.index().get() + 1);
        assert!(view.uuid().is_some());
    }
}
