//! Ways to anchor the top of the viewport, and their resolution to an offset.
use vstd::prelude::*;

use crate::types::{EntryIndex, LineOffset};

verus! {

/// Where the top of the viewport is anchored.
#[derive(Debug, Clone, Copy, PartialEq, Eq, Structural)]
pub enum ScrollPosition {
    Top,
    Bottom,
    AtLine(LineOffset),
    AtEntry { entry_index: EntryIndex, line_in_entry: usize },
}

/// The largest offset at which the viewport still shows content: `max(0, total - viewport)`.
pub open spec fn max_offset(total: nat, viewport: nat) -> nat {
    if total > viewport {
        (total - viewport) as nat
    } else {
        0
    }
}

pub open spec fn clamp_offset(x: int, total: nat, viewport: nat) -> nat {
    if x <= 0 {
        0
    } else if x >= max_offset(total, viewport) {
        max_offset(total, viewport)
    } else {
        x as nat
    }
}

/// The absolute offset a position resolves to. `anchor` is the top of the entry that
/// an `AtEntry` position names, when the layout knows it; an unknown entry lies
/// below the laid-out content and resolves to the bottom.
pub open spec fn resolve_spec(pos: ScrollPosition, total: nat, viewport: nat, anchor: Option<LineOffset>) -> nat {
    match pos {
        ScrollPosition::Top => 0,
        ScrollPosition::Bottom => max_offset(total, viewport),
        ScrollPosition::AtLine(o) => clamp_offset(o.0 as int, total, viewport),
        ScrollPosition::AtEntry { line_in_entry, .. } => match anchor {
            Some(y) => clamp_offset(y.0 + line_in_entry, total, viewport),
            None => max_offset(total, viewport),
        },
    }
}

impl ScrollPosition {
    /// Resolves against a known anchor for `AtEntry` positions.
    pub fn resolve_with(&self, total_height: usize, viewport_height: usize, anchor: Option<LineOffset>) -> (r:
        usize)
        ensures
            r as nat == resolve_spec(*self, total_height as nat, viewport_height as nat, anchor),
    {
        let max = if total_height > viewport_height {
            total_height - viewport_height
        } else {
            0
        };
        match self {
            ScrollPosition::Top => 0,
            ScrollPosition::Bottom => max,
            ScrollPosition::AtLine(o) => {
                if o.0 >= max {
                    max
                } else {
                    o.0
                }
            },
            ScrollPosition::AtEntry { line_in_entry, .. } => match anchor {
                Some(y) => {
                    let x = y.0.saturating_add(*line_in_entry);
                    if x >= max {
                        max
                    } else {
                        x
                    }
                },
                None => max,
            },
        }
    }

    /// Resolves this position to an absolute offset, asking `cumulative_y` for the top
    /// of the named entry when the position is `AtEntry`.
    pub fn resolve<F: Fn(EntryIndex) -> Option<LineOffset>>(
        &self,
        total_height: usize,
        viewport_height: usize,
        cumulative_y: F,
    ) -> (r: usize)
        requires
            forall|i: EntryIndex| cumulative_y.requires((i,)),
        ensures
            (*self is AtEntry) ==> exists|a: Option<LineOffset>|
                cumulative_y.ensures((self->entry_index,), a) && r as nat == resolve_spec(
                    *self,
                    total_height as nat,
                    viewport_height as nat,
                    a,
                ),
            !(*self is AtEntry) ==> r as nat == resolve_spec(
                *self,
                total_height as nat,
                viewport_height as nat,
                None,
            ),
    {
        match self {
            ScrollPosition::AtEntry { entry_index, .. } => {
                let anchor = cumulative_y(*entry_index);
                self.resolve_with(total_height, viewport_height, anchor)
            },
            _ => self.resolve_with(total_height, viewport_height, None),
        }
    }
}

/// Resolving always lands in `[0, max(0, total - viewport)]`, and re-resolving the
/// result as an `AtLine` position with the same parameters changes nothing.
pub proof fn lemma_resolve_idempotent_and_bounded(
    pos: ScrollPosition,
    total: usize,
    viewport: usize,
    anchor: Option<LineOffset>,
    other_anchor: Option<LineOffset>,
)
    ensures
        resolve_spec(pos, total as nat, viewport as nat, anchor) <= max_offset(total as nat, viewport as nat),
        resolve_spec(
            ScrollPosition::AtLine(LineOffset(resolve_spec(pos, total as nat, viewport as nat, anchor) as usize)),
            total as nat,
            viewport as nat,
            other_anchor,
        ) == resolve_spec(pos, total as nat, viewport as nat, anchor),
{
}

} // verus!
