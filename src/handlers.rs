//! Keyboard actions on one conversation: vertical scrolling and expand / collapse.
use vstd::prelude::*;

use crate::conversation::ConversationViewState;
use crate::scroll::{max_offset, ScrollPosition};
use crate::types::{EntryIndex, LayoutParams, LineOffset, ViewportDimensions};

verus! {

/// Vertical scroll actions.
#[derive(Debug, Clone, Copy, PartialEq, Eq, Structural)]
pub enum ScrollAction {
    ScrollUp,
    ScrollDown,
    PageUp,
    PageDown,
    ScrollToTop,
    ScrollToBottom,
}

/// Expand / collapse actions.
#[derive(Debug, Clone, Copy, PartialEq, Eq, Structural)]
pub enum ExpandAction {
    /// Flip the focused entry (entry 0 when none is focused).
    ToggleExpand,
    /// Expand every entry.
    ExpandMessage,
    /// Collapse every entry.
    CollapseMessage,
}

/// Moves `from` up by `delta` lines, not above 0.
pub open spec fn moved_up(from: nat, delta: nat) -> nat {
    if from > delta {
        (from - delta) as nat
    } else {
        0
    }
}

/// Moves `from` down by `delta` lines, not past `max`.
pub open spec fn moved_down(from: nat, delta: nat, max: nat) -> nat {
    if from + delta > max {
        max
    } else {
        from + delta
    }
}

/// The position an action leads to. Relative moves start from the resolved
/// offset and are clamped at once, so the stored anchor never lies past either
/// end; `Top` and `Bottom` stay as they are when moving further out.
pub open spec fn scroll_target(pos: ScrollPosition, resolved: nat, max: nat, page: nat, action: ScrollAction) -> ScrollPosition {
    match action {
        ScrollAction::ScrollToTop => ScrollPosition::Top,
        ScrollAction::ScrollToBottom => ScrollPosition::Bottom,
        ScrollAction::ScrollUp => if pos is Top {
            ScrollPosition::Top
        } else {
            ScrollPosition::AtLine(LineOffset(moved_up(resolved, 1) as usize))
        },
        ScrollAction::PageUp => if pos is Top {
            ScrollPosition::Top
        } else {
            ScrollPosition::AtLine(LineOffset(moved_up(resolved, page) as usize))
        },
        ScrollAction::ScrollDown => if pos is Bottom {
            ScrollPosition::Bottom
        } else {
            ScrollPosition::AtLine(LineOffset(moved_down(resolved, 1, max) as usize))
        },
        ScrollAction::PageDown => if pos is Bottom {
            ScrollPosition::Bottom
        } else {
            ScrollPosition::AtLine(LineOffset(moved_down(resolved, page, max) as usize))
        },
    }
}

/// Applies a scroll action, focuses the entry at the top of the viewport, and
/// returns whether the viewport now follows the bottom (live tail).
pub fn handle_scroll_action(
    conversation: &mut ConversationViewState,
    action: ScrollAction,
    viewport: ViewportDimensions,
) -> (follow: bool)
    requires
        old(conversation).wf(),
    ensures
        final(conversation).wf(),
        final(conversation).spec_entries() == old(conversation).spec_entries(),
        final(conversation).offsets() == old(conversation).offsets(),
        final(conversation).spec_total() == old(conversation).spec_total(),
        final(conversation).spec_scroll() == scroll_target(
            old(conversation).spec_scroll(),
            old(conversation).resolved(viewport.height as nat),
            max_offset(old(conversation).spec_total(), viewport.height as nat),
            viewport.height as nat,
            action,
        ),
        final(conversation).laid_out() == 0 ==> final(conversation).spec_focused() == old(
            conversation,
        ).spec_focused(),
        final(conversation).laid_out() > 0 ==> (final(conversation).spec_focused() matches Some(f) && {
            let off = final(conversation).resolved(viewport.height as nat);
            let i = f.0 as int;
            &&& i < final(conversation).laid_out()
            &&& final(conversation).offsets()[i] <= off
            &&& (i + 1 < final(conversation).laid_out() ==> off < final(conversation).offsets()[i + 1])
        }),
        follow == (final(conversation).resolved(viewport.height as nat) == max_offset(
            final(conversation).spec_total(),
            viewport.height as nat,
        )),
{
    let page = viewport.height as usize;
    let total = conversation.total_height();
    let max = if total > page {
        total - page
    } else {
        0
    };
    let resolved = conversation.resolved_offset(viewport.height);
    let up = |d: usize| -> (r: usize)
        ensures
            r == moved_up(resolved as nat, d as nat),
        {
            if resolved > d {
                resolved - d
            } else {
                0
            }
        };
    let down = |d: usize| -> (r: usize)
        requires
            resolved <= max,
        ensures
            r == moved_down(resolved as nat, d as nat, max as nat),
        {
            if d > max - resolved {
                max
            } else {
                resolved + d
            }
        };
    let current = *conversation.scroll();
    let target = match action {
        ScrollAction::ScrollToTop => ScrollPosition::Top,
        ScrollAction::ScrollToBottom => ScrollPosition::Bottom,
        ScrollAction::ScrollUp => match current {
            ScrollPosition::Top => ScrollPosition::Top,
            _ => ScrollPosition::AtLine(LineOffset(up(1))),
        },
        ScrollAction::PageUp => match current {
            ScrollPosition::Top => ScrollPosition::Top,
            _ => ScrollPosition::AtLine(LineOffset(up(page))),
        },
        ScrollAction::ScrollDown => match current {
            ScrollPosition::Bottom => ScrollPosition::Bottom,
            _ => ScrollPosition::AtLine(LineOffset(down(1))),
        },
        ScrollAction::PageDown => match current {
            ScrollPosition::Bottom => ScrollPosition::Bottom,
            _ => ScrollPosition::AtLine(LineOffset(down(page))),
        },
    };
    conversation.set_scroll(target);
    let range = conversation.visible_range(viewport);
    if !range.is_empty() {
        conversation.set_focused_message(Some(range.start_index));
    }
    conversation.is_at_bottom(viewport)
}

/// Applies an expand / collapse action; every change is laid out at once.
pub fn handle_expand_action(conversation: &mut ConversationViewState, action: ExpandAction, params: LayoutParams)
    requires
        old(conversation).wf(),
    ensures
        final(conversation).wf(),
        final(conversation).spec_len() == old(conversation).spec_len(),
        action == ExpandAction::ToggleExpand ==> {
            let i = match old(conversation).spec_focused() {
                Some(f) => f.0 as int,
                None => 0,
            };
            if i < old(conversation).spec_len() {
                &&& final(conversation).spec_entries()[i].spec_expanded()
                    == !old(conversation).spec_entries()[i].spec_expanded()
                &&& final(conversation).changed_one_flag(old(conversation), i, params)
            } else {
                *final(conversation) == *old(conversation)
            }
        },
        action != ExpandAction::ToggleExpand ==> {
            &&& final(conversation).layout_complete()
            &&& final(conversation).same_settings(old(conversation))
            &&& final(conversation).spec_last_params() == Some(params)
            &&& forall|i: int|
                0 <= i < final(conversation).spec_len() ==> {
                    let a = #[trigger] final(conversation).spec_entries()[i];
                    let b = old(conversation).spec_entries()[i];
                    &&& a.spec_expanded() == (action == ExpandAction::ExpandMessage)
                    &&& a.spec_entry() == b.spec_entry()
                    &&& a.spec_wrap_override() == b.spec_wrap_override()
                    &&& a.lines() == a.fresh_lines(
                        params.global_wrap,
                        params.width,
                        final(conversation).spec_threshold(),
                        final(conversation).spec_summary(),
                    )
                }
        },
{
    match action {
        ExpandAction::ToggleExpand => {
            let i = match conversation.focused_message() {
                Some(f) => f,
                None => EntryIndex::new(0),
            };
            if i.0 < conversation.len() {
                conversation.toggle_expand(i, params);
            }
        },
        ExpandAction::ExpandMessage => conversation.set_all_expanded(true, params),
        ExpandAction::CollapseMessage => conversation.set_all_expanded(false, params),
    }
}

} // verus!
