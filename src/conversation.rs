//! View-state of one conversation: entries, cumulative offsets, scroll and focus.
use vstd::prelude::*;

use crate::entry_view::EntryView;
use crate::hit_test::{HitTestResult, VisibleRange};
use crate::model::{ConversationEntry, EntryUuid};
use crate::renderer::{DEFAULT_COLLAPSE_THRESHOLD, DEFAULT_SUMMARY_LINES};
use crate::scroll::{max_offset, resolve_spec, ScrollPosition};
use crate::types::{EntryIndex, LayoutParams, LineOffset, ViewportDimensions};

verus! {

/// Heights of a sequence of entry views.
pub open spec fn heights_of(es: Seq<EntryView>) -> Seq<nat> {
    es.map_values(|e: EntryView| e.spec_height())
}

/// Sum of the first `i` heights: the top of entry `i`.
pub open spec fn prefix_height(hs: Seq<nat>, i: int) -> nat
    decreases i,
{
    if i <= 0 {
        0
    } else {
        prefix_height(hs, i - 1) + hs[i - 1]
    }
}

/// With every height at least one, tops grow by at least one per entry.
pub proof fn lemma_prefix_height_grows(hs: Seq<nat>, i: int, j: int)
    requires
        0 <= i <= j <= hs.len(),
        forall|k: int| 0 <= k < hs.len() ==> hs[k] >= 1,
    ensures
        prefix_height(hs, j) >= prefix_height(hs, i) + (j - i),
    decreases j - i,
{
    if i < j {
        lemma_prefix_height_grows(hs, i, j - 1);
    }
}

/// Two height sequences that agree below `k` have the same tops up to `k`.
pub proof fn lemma_prefix_height_agree(a: Seq<nat>, b: Seq<nat>, k: int, i: int)
    requires
        0 <= i <= k <= a.len(),
        k <= b.len(),
        forall|j: int| 0 <= j < k ==> a[j] == b[j],
    ensures
        prefix_height(a, i) == prefix_height(b, i),
    decreases i,
{
    if i > 0 {
        lemma_prefix_height_agree(a, b, k, i - 1);
    }
}

/// View-state of one conversation.
///
/// The first `laid_out()` entries carry a cumulative offset each; the layout
/// covers every entry after a full layout pass unless the total height would not
/// fit in a `usize`. Entries appended later wait for the next layout pass.
#[derive(Debug, Clone)]
pub struct ConversationViewState {
    entries: Vec<EntryView>,
    cumulative: Vec<usize>,
    total_height: usize,
    scroll: ScrollPosition,
    focused_message: Option<EntryIndex>,
    last_layout_params: Option<LayoutParams>,
    collapse_threshold: usize,
    summary_lines: usize,
}

impl ConversationViewState {
    pub closed spec fn spec_entries(&self) -> Seq<EntryView> {
        self.entries@
    }

    pub closed spec fn offsets(&self) -> Seq<usize> {
        self.cumulative@
    }

    pub closed spec fn spec_total(&self) -> nat {
        self.total_height as nat
    }

    pub closed spec fn spec_scroll(&self) -> ScrollPosition {
        self.scroll
    }

    pub closed spec fn spec_focused(&self) -> Option<EntryIndex> {
        self.focused_message
    }

    pub closed spec fn spec_last_params(&self) -> Option<LayoutParams> {
        self.last_layout_params
    }

    pub closed spec fn spec_threshold(&self) -> nat {
        self.collapse_threshold as nat
    }

    pub closed spec fn spec_summary(&self) -> nat {
        self.summary_lines as nat
    }

    pub open spec fn spec_len(&self) -> nat {
        self.spec_entries().len()
    }

    pub open spec fn heights(&self) -> Seq<nat> {
        heights_of(self.spec_entries())
    }

    /// Number of entries covered by the current layout.
    pub open spec fn laid_out(&self) -> nat {
        self.offsets().len()
    }

    pub open spec fn wf(&self) -> bool {
        &&& forall|i: int|
            0 <= i < self.spec_len() ==> #[trigger] self.spec_entries()[i].wf()
                && self.spec_entries()[i].spec_index() == i
        &&& self.laid_out() <= self.spec_len()
        &&& forall|i: int|
            0 <= i < self.laid_out() ==> #[trigger] self.offsets()[i] as nat == prefix_height(
                self.heights(),
                i,
            )
        &&& self.spec_total() == prefix_height(self.heights(), self.laid_out() as int)
        &&& (self.spec_focused() matches Some(f) ==> f.0 < self.spec_len())
    }

    /// The layout covers every entry, or stops where the next entry would overflow.
    pub open spec fn layout_complete(&self) -> bool {
        self.laid_out() == self.spec_len() || prefix_height(self.heights(), self.laid_out() + 1int)
            > usize::MAX
    }

    /// Every field but the entries and the layout is as in `old`.
    pub open spec fn same_settings(&self, old: &Self) -> bool {
        &&& self.spec_scroll() == old.spec_scroll()
        &&& self.spec_focused() == old.spec_focused()
        &&& self.spec_threshold() == old.spec_threshold()
        &&& self.spec_summary() == old.spec_summary()
    }

    /// Entries below `k` keep their lines; the others are rendered afresh from
    /// their (new) state under `params`.
    pub open spec fn relaid_lines(&self, old: &Self, k: int, params: LayoutParams) -> bool {
        &&& self.spec_len() == old.spec_len()
        &&& forall|i: int|
            0 <= i < k && i < self.spec_len() ==> #[trigger] self.spec_entries()[i].lines()
                == old.spec_entries()[i].lines()
        &&& forall|i: int|
            k <= i < self.spec_len() ==> #[trigger] self.spec_entries()[i].lines()
                == self.spec_entries()[i].fresh_lines(
                params.global_wrap,
                params.width,
                self.spec_threshold(),
                self.spec_summary(),
            )
    }

    pub open spec fn same_entry_states(&self, old: &Self) -> bool {
        &&& self.spec_len() == old.spec_len()
        &&& forall|i: int|
            0 <= i < self.spec_len() ==> #[trigger] self.spec_entries()[i].same_state(
                &old.spec_entries()[i],
            )
    }

    /// What a full layout pass leaves behind.
    pub open spec fn recompute_layout_post(&self, old: &Self, params: LayoutParams) -> bool {
        &&& self.wf()
        &&& self.layout_complete()
        &&& self.same_entry_states(old)
        &&& self.relaid_lines(old, 0, params)
        &&& self.same_settings(old)
        &&& self.spec_last_params() == Some(params)
    }

    /// What `relayout_from(k, params)` leaves behind: entries below `k` (or below
    /// the old layout's end, if smaller) are untouched.
    pub open spec fn relayout_from_post(&self, old: &Self, k: nat, params: LayoutParams) -> bool {
        &&& self.wf()
        &&& self.layout_complete()
        &&& self.same_entry_states(old)
        &&& self.relaid_lines(
            old,
            if k < old.laid_out() {
                k as int
            } else {
                old.laid_out() as int
            },
            params,
        )
        &&& self.same_settings(old)
        &&& self.spec_last_params() == old.spec_last_params()
    }

    /// Top of entry `i` in the current layout, when it has one.
    pub open spec fn anchor_of(&self, i: EntryIndex) -> Option<LineOffset> {
        if i.0 < self.laid_out() {
            Some(LineOffset(self.offsets()[i.0 as int]))
        } else {
            None
        }
    }

    /// Where the viewport top currently resolves to.
    pub open spec fn resolved(&self, viewport_height: nat) -> nat {
        resolve_spec(
            self.spec_scroll(),
            self.spec_total(),
            viewport_height,
            match self.spec_scroll() {
                ScrollPosition::AtEntry { entry_index, .. } => self.anchor_of(entry_index),
                _ => None,
            },
        )
    }

    proof fn lemma_offsets_increasing(&self)
        requires
            self.wf(),
        ensures
            forall|i: int, j: int|
                0 <= i < j < self.laid_out() ==> self.offsets()[i] + (j - i) <= self.offsets()[j],
            forall|i: int| 0 <= i < self.laid_out() ==> self.offsets()[i] + self.heights()[i] <= self.spec_total(),
            self.laid_out() > 0 ==> self.offsets()[0] == 0,
    {
        let hs = self.heights();
        assert forall|k: int| 0 <= k < hs.len() implies hs[k] >= 1 by {
            assert(self.spec_entries()[k].wf());
        }
        assert forall|i: int, j: int| 0 <= i < j < self.laid_out() implies self.offsets()[i] + (j - i)
            <= self.offsets()[j] by {
            assert(self.offsets()[i] as nat == prefix_height(hs, i));
            assert(self.offsets()[j] as nat == prefix_height(hs, j));
            lemma_prefix_height_grows(hs, i, j);
        }
        assert forall|i: int| 0 <= i < self.laid_out() implies self.offsets()[i] + self.heights()[i]
            <= self.spec_total() by {
            assert(self.offsets()[i] as nat == prefix_height(hs, i));
            lemma_prefix_height_grows(hs, i + 1, self.laid_out() as int);
        }
        if self.laid_out() > 0 {
            assert(self.offsets()[0] as nat == prefix_height(hs, 0));
        }
    }

    fn build_views(entries: Vec<ConversationEntry>, first: usize) -> (r: Vec<EntryView>)
        requires
            first + entries@.len() <= usize::MAX,
        ensures
            r@.len() == entries@.len(),
            forall|i: int|
                0 <= i < r@.len() ==> {
                    &&& #[trigger] r@[i].spec_entry() == entries@[i]
                    &&& r@[i].spec_index() == first + i
                    &&& !r@[i].spec_expanded()
                    &&& r@[i].spec_wrap_override().is_none()
                    &&& r@[i].lines() == seq![Seq::<char>::empty()]
                    &&& r@[i].wf()
                },
    {
        broadcast use vstd::std_specs::vec::axiom_spec_into_iter;

        let mut views: Vec<EntryView> = Vec::new();
        let ghost src = entries@;
        let mut idx: usize = first;
        for e in it: entries.into_iter()
            invariant
                it.seq() == src,
                first + src.len() <= usize::MAX,
                idx == first + it.index(),
                views@.len() == it.index(),
                forall|i: int|
                    0 <= i < views@.len() ==> {
                        &&& #[trigger] views@[i].spec_entry() == src[i]
                        &&& views@[i].spec_index() == first + i
                        &&& !views@[i].spec_expanded()
                        &&& views@[i].spec_wrap_override().is_none()
                        &&& views@[i].lines() == seq![Seq::<char>::empty()]
                        &&& views@[i].wf()
                    },
        {
            views.push(EntryView::new(e, EntryIndex::new(idx)));
            idx = idx + 1;
        }
        views
    }

    /// A conversation with the default collapse policy; nothing is laid out yet.
    pub fn new(entries: Vec<ConversationEntry>) -> (r: Self)
        ensures
            r.wf(),
            r.spec_len() == entries@.len(),
            forall|i: int| 0 <= i < r.spec_len() ==> (#[trigger] r.spec_entries()[i]).spec_entry() == entries@[i]
                && !r.spec_entries()[i].spec_expanded() && r.spec_entries()[i].spec_wrap_override().is_none(),
            r.laid_out() == 0,
            r.spec_total() == 0,
            r.spec_scroll() == ScrollPosition::Top,
            r.spec_focused().is_none(),
            r.spec_last_params().is_none(),
            r.spec_threshold() == DEFAULT_COLLAPSE_THRESHOLD,
            r.spec_summary() == DEFAULT_SUMMARY_LINES,
    {
        Self::with_collapse_policy(entries, DEFAULT_COLLAPSE_THRESHOLD, DEFAULT_SUMMARY_LINES)
    }

    /// A conversation whose entries collapse above `collapse_threshold` candidate
    /// lines to `summary_lines` lines; nothing is laid out yet.
    pub fn with_collapse_policy(entries: Vec<ConversationEntry>, collapse_threshold: usize, summary_lines: usize) -> (r:
        Self)
        ensures
            r.wf(),
            r.spec_len() == entries@.len(),
            forall|i: int| 0 <= i < r.spec_len() ==> (#[trigger] r.spec_entries()[i]).spec_entry() == entries@[i]
                && !r.spec_entries()[i].spec_expanded() && r.spec_entries()[i].spec_wrap_override().is_none(),
            r.laid_out() == 0,
            r.spec_total() == 0,
            r.spec_scroll() == ScrollPosition::Top,
            r.spec_focused().is_none(),
            r.spec_last_params().is_none(),
            r.spec_threshold() == collapse_threshold,
            r.spec_summary() == summary_lines,
    {
        let count = entries.len();
        let ghost src = entries@;
        assert(entries@.len() == count);
        let views = Self::build_views(entries, 0);
        assert forall|i: int| 0 <= i < views@.len() implies #[trigger] views@[i].wf() && views@[i].spec_index() == i by {
            assert(views@[i].spec_entry() == src[i]);
        }
        let r = ConversationViewState {
            entries: views,
            cumulative: Vec::new(),
            total_height: 0,
            scroll: ScrollPosition::Top,
            focused_message: None,
            last_layout_params: None,
            collapse_threshold,
            summary_lines,
        };
        assert(r.spec_total() == prefix_height(r.heights(), 0));
        r
    }

    /// A conversation with no entries.
    pub fn empty() -> (r: Self)
        ensures
            r.wf(),
            r.spec_len() == 0,
            r.spec_total() == 0,
            r.spec_scroll() == ScrollPosition::Top,
            r.spec_focused().is_none(),
            r.spec_last_params().is_none(),
    {
        Self::new(Vec::new())
    }

    pub fn focused_message(&self) -> (r: Option<EntryIndex>)
        ensures
            r == self.spec_focused(),
    {
        self.focused_message
    }

    /// Sets the focus; an index past the end is clamped to the last entry.
    pub fn set_focused_message(&mut self, index: Option<EntryIndex>)
        requires
            old(self).wf(),
        ensures
            final(self).wf(),
            final(self).spec_entries() == old(self).spec_entries(),
            final(self).offsets() == old(self).offsets(),
            final(self).spec_total() == old(self).spec_total(),
            final(self).spec_scroll() == old(self).spec_scroll(),
            final(self).spec_last_params() == old(self).spec_last_params(),
            final(self).spec_threshold() == old(self).spec_threshold(),
            final(self).spec_summary() == old(self).spec_summary(),
            final(self).spec_focused() == match index {
                None => None,
                Some(i) => if i.0 < old(self).spec_len() {
                    Some(i)
                } else if old(self).spec_len() == 0 {
                    None
                } else {
                    Some(EntryIndex((old(self).spec_len() - 1) as usize))
                },
            },
    {
        let n = self.entries.len();
        self.focused_message = match index {
            None => None,
            Some(i) => if i.0 < n {
                Some(i)
            } else if n == 0 {
                None
            } else {
                Some(EntryIndex(n - 1))
            },
        };
    }

    /// The focused entry, if any.
    pub fn focused_entry(&self) -> (r: Option<&EntryView>)
        requires
            self.wf(),
        ensures
            self.spec_focused() matches Some(f) ==> r == Some(&self.spec_entries()[f.0 as int]),
            self.spec_focused().is_none() ==> r.is_none(),
    {
        match self.focused_message {
            Some(f) => Some(&self.entries[f.0]),
            None => None,
        }
    }

    pub fn len(&self) -> (r: usize)
        ensures
            r == self.spec_len(),
    {
        self.entries.len()
    }

    pub fn is_empty(&self) -> (r: bool)
        ensures
            r == (self.spec_len() == 0),
    {
        self.entries.len() == 0
    }

    pub fn get(&self, index: EntryIndex) -> (r: Option<&EntryView>)
        ensures
            index.0 < self.spec_len() ==> r == Some(&self.spec_entries()[index.0 as int]),
            index.0 >= self.spec_len() ==> r.is_none(),
    {
        if index.0 < self.entries.len() {
            Some(&self.entries[index.0])
        } else {
            None
        }
    }

    /// All entry views, in order.
    pub fn entries(&self) -> (r: &Vec<EntryView>)
        ensures
            r@ == self.spec_entries(),
    {
        &self.entries
    }

    pub fn scroll(&self) -> (r: &ScrollPosition)
        ensures
            *r == self.spec_scroll(),
    {
        &self.scroll
    }

    pub fn set_scroll(&mut self, position: ScrollPosition)
        requires
            old(self).wf(),
        ensures
            final(self).wf(),
            final(self).spec_scroll() == position,
            final(self).spec_entries() == old(self).spec_entries(),
            final(self).offsets() == old(self).offsets(),
            final(self).spec_total() == old(self).spec_total(),
            final(self).spec_focused() == old(self).spec_focused(),
            final(self).spec_last_params() == old(self).spec_last_params(),
            final(self).spec_threshold() == old(self).spec_threshold(),
            final(self).spec_summary() == old(self).spec_summary(),
    {
        self.scroll = position;
    }

    /// Total height in lines of the laid-out entries.
    pub fn total_height(&self) -> (r: usize)
        ensures
            r == self.spec_total(),
    {
        self.total_height
    }

    /// Whether the global parameters differ from those of the last full layout.
    pub fn needs_relayout(&self, params: &LayoutParams) -> (r: bool)
        ensures
            r == (self.spec_last_params() != Some(*params)),
    {
        match self.last_layout_params {
            Some(p) => !(p.width == params.width && p.global_wrap == params.global_wrap),
            None => true,
        }
    }

    /// Appends entries at the tail; the next geometry query needs a layout pass.
    pub fn append(&mut self, entries: Vec<ConversationEntry>)
        requires
            old(self).wf(),
            old(self).spec_len() + entries@.len() <= usize::MAX,
        ensures
            final(self).wf(),
            final(self).spec_len() == old(self).spec_len() + entries@.len(),
            final(self).spec_entries().take(old(self).spec_len() as int) == old(self).spec_entries(),
            forall|i: int|
                0 <= i < entries@.len() ==> (#[trigger] final(self).spec_entries()[old(self).spec_len()
                    + i]).spec_entry() == entries@[i] && !final(self).spec_entries()[old(self).spec_len()
                    + i].spec_expanded() && final(self).spec_entries()[old(self).spec_len()
                    + i].spec_wrap_override().is_none(),
            final(self).offsets() == old(self).offsets(),
            final(self).spec_total() == old(self).spec_total(),
            final(self).same_settings(old(self)),
            final(self).spec_last_params().is_none(),
    {
        let n = self.entries.len();
        let ghost src = entries@;
        let mut views = Self::build_views(entries, n);
        let ghost added = views@;
        self.entries.append(&mut views);
        self.last_layout_params = None;
        proof {
            let hs = self.heights();
            let old_hs = old(self).heights();
            assert(self.spec_entries().take(n as int) =~= old(self).spec_entries());
            assert forall|j: int| 0 <= j < n implies hs[j] == old_hs[j] by {
                assert(self.spec_entries()[j] == old(self).spec_entries()[j]);
            }
            assert forall|i: int| 0 <= i <= self.laid_out() implies prefix_height(hs, i) == prefix_height(
                old_hs,
                i,
            ) by {
                lemma_prefix_height_agree(hs, old_hs, n as int, i);
            }
            assert forall|i: int| 0 <= i < self.spec_len() implies #[trigger] self.spec_entries()[i].wf()
                && self.spec_entries()[i].spec_index() == i by {
                if i >= n {
                    assert(self.spec_entries()[i] == added[i - n]);
                    assert(added[i - n].spec_entry() == src[i - n]);
                } else {
                    assert(self.spec_entries()[i] == old(self).spec_entries()[i]);
                    assert(old(self).spec_entries()[i].wf());
                }
            }
            assert forall|i: int| 0 <= i < entries@.len() implies (#[trigger] self.spec_entries()[n + i]).spec_entry()
                == entries@[i] && !self.spec_entries()[n + i].spec_expanded()
                && self.spec_entries()[n + i].spec_wrap_override().is_none() by {
                assert(self.spec_entries()[n + i] == added[i]);
                assert(added[i].spec_entry() == src[i]);
            }
        }
    }

    /// Drops the offsets of entries `k..`; the layout then covers `0..k`.
    fn truncate_layout(&mut self, k: usize)
        requires
            old(self).wf(),
            k <= old(self).laid_out(),
        ensures
            final(self).wf(),
            final(self).laid_out() == k,
            final(self).offsets() == old(self).offsets().take(k as int),
            final(self).spec_entries() == old(self).spec_entries(),
            final(self).same_settings(old(self)),
            final(self).spec_last_params() == old(self).spec_last_params(),
    {
        if k < self.cumulative.len() {
            self.total_height = self.cumulative[k];
        }
        self.cumulative.truncate(k);
        assert(self.offsets() =~= old(self).offsets().take(k as int));
    }

    /// Re-renders the entries `k..` under `params`; they lie outside the layout.
    fn rerender_from(&mut self, k: usize, params: LayoutParams)
        requires
            old(self).wf(),
            old(self).laid_out() <= k <= old(self).spec_len(),
        ensures
            final(self).wf(),
            final(self).offsets() == old(self).offsets(),
            final(self).spec_total() == old(self).spec_total(),
            final(self).same_entry_states(old(self)),
            final(self).relaid_lines(old(self), k as int, params),
            final(self).same_settings(old(self)),
            final(self).spec_last_params() == old(self).spec_last_params(),
    {
        let n = self.entries.len();
        let mut i = k;
        while i < n
            invariant
                n == self.spec_len(),
                n == old(self).spec_len(),
                k <= i <= n,
                old(self).laid_out() <= k,
                self.offsets() == old(self).offsets(),
                self.spec_total() == old(self).spec_total(),
                self.same_settings(old(self)),
                self.spec_last_params() == old(self).spec_last_params(),
                forall|j: int|
                    0 <= j < n ==> #[trigger] self.spec_entries()[j].same_state(&old(self).spec_entries()[j])
                        && self.spec_entries()[j].wf(),
                forall|j: int| 0 <= j < i ==> #[trigger] self.spec_entries()[j].lines()
                    == old(self).spec_entries()[j].lines() || k <= j,
                forall|j: int| 0 <= j < k ==> #[trigger] self.spec_entries()[j].lines()
                    == old(self).spec_entries()[j].lines(),
                forall|j: int|
                    k <= j < i ==> #[trigger] self.spec_entries()[j].lines()
                        == self.spec_entries()[j].fresh_lines(
                        params.global_wrap,
                        params.width,
                        self.spec_threshold(),
                        self.spec_summary(),
                    ),
            decreases n - i,
        {
            let thr = self.collapse_threshold;
            let sum = self.summary_lines;
            let ghost prev = self.spec_entries();
            self.entries[i].recompute_lines(params.global_wrap, params.width, thr, sum);
            proof {
                assert forall|j: int| 0 <= j < n && j != i implies self.spec_entries()[j] == prev[j] by {}
                assert forall|j: int|
                    0 <= j < n implies #[trigger] self.spec_entries()[j].same_state(&old(self).spec_entries()[j])
                        && self.spec_entries()[j].wf() by {
                    if j != i {
                        assert(prev[j].same_state(&old(self).spec_entries()[j]) && prev[j].wf());
                    } else {
                        assert(prev[j].same_state(&old(self).spec_entries()[j]));
                    }
                }
            }
            i = i + 1;
        }
        proof {
            let hs = self.heights();
            let old_hs = old(self).heights();
            assert forall|j: int| 0 <= j < k implies hs[j] == old_hs[j] by {
                assert(self.spec_entries()[j].lines() == old(self).spec_entries()[j].lines());
            }
            assert forall|j: int| 0 <= j <= self.laid_out() implies prefix_height(hs, j) == prefix_height(
                old_hs,
                j,
            ) by {
                lemma_prefix_height_agree(hs, old_hs, k as int, j);
            }
            assert forall|j: int| 0 <= j < n implies #[trigger] self.spec_entries()[j].wf()
                && self.spec_entries()[j].spec_index() == j by {
                assert(self.spec_entries()[j].same_state(&old(self).spec_entries()[j]));
                assert(old(self).spec_entries()[j].wf());
                assert(old(self).spec_entries()[j].spec_index() == j);
            }
        }
    }

    /// Extends the layout over the remaining entries while the total fits.
    fn extend_layout(&mut self)
        requires
            old(self).wf(),
        ensures
            final(self).wf(),
            final(self).layout_complete(),
            final(self).spec_entries() == old(self).spec_entries(),
            final(self).same_settings(old(self)),
            final(self).spec_last_params() == old(self).spec_last_params(),
    {
        let n = self.entries.len();
        let mut total = self.total_height;
        let mut stopped = false;
        while self.cumulative.len() < n && !stopped
            invariant
                self.wf(),
                n == self.spec_len(),
                total == self.spec_total(),
                self.spec_entries() == old(self).spec_entries(),
                self.same_settings(old(self)),
                self.spec_last_params() == old(self).spec_last_params(),
                stopped ==> self.laid_out() < n && prefix_height(self.heights(), self.laid_out() + 1int)
                    > usize::MAX,
            decreases n - self.cumulative.len(), if stopped {
                0int
            } else {
                1int
            },
        {
            let i = self.cumulative.len();
            let h = self.entries[i].height_usize();
            proof {
                assert(self.heights()[i as int] == h);
            }
            match total.checked_add(h) {
                Some(t) => {
                    self.cumulative.push(total);
                    total = t;
                    self.total_height = t;
                },
                None => {
                    stopped = true;
                },
            }
        }
        self.total_height = total;
    }

    /// Full layout pass: re-renders every entry under `params` and recomputes every
    /// offset and the total height; records `params`.
    pub fn recompute_layout(&mut self, params: LayoutParams)
        requires
            old(self).wf(),
        ensures
            final(self).recompute_layout_post(old(self), params),
    {
        self.truncate_layout(0);
        self.rerender_from(0, params);
        self.extend_layout();
        self.last_layout_params = Some(params);
    }

    /// Re-renders entries from `from_index` on and rewrites their offsets; earlier
    /// entries and their offsets are left as they are.
    pub fn relayout_from(&mut self, from_index: EntryIndex, params: LayoutParams)
        requires
            old(self).wf(),
        ensures
            final(self).relayout_from_post(old(self), from_index.0 as nat, params),
    {
        let k = if from_index.0 < self.cumulative.len() {
            from_index.0
        } else {
            self.cumulative.len()
        };
        self.truncate_layout(k);
        self.rerender_from(k, params);
        self.extend_layout();
    }

    /// Flips the expanded flag of entry `index`, re-renders it and relays out from
    /// it. Returns the new flag, or `None` (changing nothing) when out of bounds.
    pub fn toggle_expand(&mut self, index: EntryIndex, params: LayoutParams) -> (r: Option<bool>)
        requires
            old(self).wf(),
        ensures
            index.0 >= old(self).spec_len() ==> r.is_none() && *final(self) == *old(self),
            index.0 < old(self).spec_len() ==> {
                let before = old(self).spec_entries()[index.0 as int];
                let after = final(self).spec_entries()[index.0 as int];
                &&& r == Some(!before.spec_expanded())
                &&& after.spec_expanded() == !before.spec_expanded()
                &&& after.spec_entry() == before.spec_entry()
                &&& after.spec_wrap_override() == before.spec_wrap_override()
                &&& final(self).changed_one_flag(old(self), index.0 as int, params)
            },
    {
        if index.0 >= self.entries.len() {
            return None;
        }
        let ghost before = *self;
        let now = !self.entries[index.0].is_expanded();
        self.entries[index.0].set_expanded(now);
        proof {
            self.lemma_flag_change_keeps_wf(&before, index.0 as int);
        }
        let ghost flipped = *self;
        self.relayout_from(index, params);
        proof {
            self.lemma_changed_one_flag(&before, &flipped, index.0 as int, params);
            assert(self.spec_entries()[index.0 as int].same_state(&flipped.spec_entries()[index.0 as int]));
        }
        Some(now)
    }

    /// Sets the wrap override of entry `index`, re-renders it and relays out from
    /// it. Returns the new override, or `None` (changing nothing) when out of bounds.
    pub fn set_wrap_override(&mut self, index: EntryIndex, wrap: Option<crate::types::WrapMode>, params: LayoutParams) -> (r:
        Option<Option<crate::types::WrapMode>>)
        requires
            old(self).wf(),
        ensures
            index.0 >= old(self).spec_len() ==> r.is_none() && *final(self) == *old(self),
            index.0 < old(self).spec_len() ==> {
                let before = old(self).spec_entries()[index.0 as int];
                let after = final(self).spec_entries()[index.0 as int];
                &&& r == Some(wrap)
                &&& after.spec_wrap_override() == wrap
                &&& after.spec_entry() == before.spec_entry()
                &&& after.spec_expanded() == before.spec_expanded()
                &&& final(self).changed_one_flag(old(self), index.0 as int, params)
            },
    {
        if index.0 >= self.entries.len() {
            return None;
        }
        let ghost before = *self;
        self.entries[index.0].set_wrap_override(wrap);
        proof {
            self.lemma_flag_change_keeps_wf(&before, index.0 as int);
        }
        let ghost flipped = *self;
        self.relayout_from(index, params);
        proof {
            self.lemma_changed_one_flag(&before, &flipped, index.0 as int, params);
            assert(self.spec_entries()[index.0 as int].same_state(&flipped.spec_entries()[index.0 as int]));
        }
        Some(wrap)
    }

    /// After a flag change of entry `k` and `relayout_from(k)`: every other entry
    /// keeps its state, entries below `k` (or below the old layout's end) keep
    /// their lines, the rest are fresh under `params`, and the layout is rebuilt.
    pub open spec fn changed_one_flag(&self, old: &Self, k: int, params: LayoutParams) -> bool {
        &&& self.wf()
        &&& self.layout_complete()
        &&& self.spec_len() == old.spec_len()
        &&& forall|i: int|
            0 <= i < self.spec_len() && i != k ==> #[trigger] self.spec_entries()[i].same_state(
                &old.spec_entries()[i],
            )
        &&& self.spec_entries()[k].spec_index() == old.spec_entries()[k].spec_index()
        &&& self.relaid_lines(
            old,
            if k < old.laid_out() {
                k
            } else {
                old.laid_out() as int
            },
            params,
        )
        &&& self.same_settings(old)
        &&& self.spec_last_params() == old.spec_last_params()
    }

    proof fn lemma_flag_change_keeps_wf(&self, before: &Self, k: int)
        requires
            before.wf(),
            0 <= k < before.spec_len(),
            self.spec_len() == before.spec_len(),
            forall|i: int| 0 <= i < self.spec_len() && i != k ==> self.spec_entries()[i] == before.spec_entries()[i],
            self.spec_entries()[k].lines() == before.spec_entries()[k].lines(),
            self.spec_entries()[k].spec_index() == before.spec_entries()[k].spec_index(),
            self.offsets() == before.offsets(),
            self.spec_total() == before.spec_total(),
            self.spec_focused() == before.spec_focused(),
        ensures
            self.wf(),
            self.heights() == before.heights(),
    {
        assert(self.heights() =~= before.heights());
        assert forall|i: int| 0 <= i < self.spec_len() implies #[trigger] self.spec_entries()[i].wf()
            && self.spec_entries()[i].spec_index() == i by {
            assert(before.spec_entries()[i].wf());
        }
    }

    proof fn lemma_changed_one_flag(&self, before: &Self, flipped: &Self, k: int, params: LayoutParams)
        requires
            0 <= k < before.spec_len(),
            flipped.spec_len() == before.spec_len(),
            forall|i: int| 0 <= i < flipped.spec_len() && i != k ==> flipped.spec_entries()[i] == before.spec_entries()[i],
            flipped.spec_entries()[k].lines() == before.spec_entries()[k].lines(),
            flipped.spec_entries()[k].spec_index() == before.spec_entries()[k].spec_index(),
            flipped.offsets() == before.offsets(),
            flipped.same_settings(before),
            flipped.spec_last_params() == before.spec_last_params(),
            self.relayout_from_post(flipped, k as nat, params),
        ensures
            self.changed_one_flag(before, k, params),
    {
        assert forall|i: int| 0 <= i < self.spec_len() && i != k implies #[trigger] self.spec_entries()[i].same_state(
            &before.spec_entries()[i],
        ) by {
            assert(self.spec_entries()[i].same_state(&flipped.spec_entries()[i]));
        }
        assert(self.spec_entries()[k].same_state(&flipped.spec_entries()[k]));
        let kk = if k < before.laid_out() {
            k
        } else {
            before.laid_out() as int
        };
        assert forall|i: int| 0 <= i < kk && i < self.spec_len() implies #[trigger] self.spec_entries()[i].lines()
            == before.spec_entries()[i].lines() by {
            assert(self.spec_entries()[i].lines() == flipped.spec_entries()[i].lines());
        }
    }

    /// Expands or collapses every entry, then lays everything out again.
    pub fn set_all_expanded(&mut self, expanded: bool, params: LayoutParams)
        requires
            old(self).wf(),
        ensures
            final(self).wf(),
            final(self).layout_complete(),
            final(self).spec_len() == old(self).spec_len(),
            forall|i: int|
                0 <= i < final(self).spec_len() ==> {
                    let a = #[trigger] final(self).spec_entries()[i];
                    let b = old(self).spec_entries()[i];
                    &&& a.spec_expanded() == expanded
                    &&& a.spec_entry() == b.spec_entry()
                    &&& a.spec_index() == b.spec_index()
                    &&& a.spec_wrap_override() == b.spec_wrap_override()
                    &&& a.lines() == a.fresh_lines(
                        params.global_wrap,
                        params.width,
                        final(self).spec_threshold(),
                        final(self).spec_summary(),
                    )
                },
            final(self).same_settings(old(self)),
            final(self).spec_last_params() == Some(params),
    {
        self.truncate_layout(0);
        let n = self.entries.len();
        let mut i: usize = 0;
        proof {
            assert forall|j: int| 0 <= j < n implies old(self).spec_entries()[j].wf()
                && old(self).spec_entries()[j].spec_index() == j by {
                assert(old(self).spec_entries()[j].wf());
            }
        }
        while i < n
            invariant
                n == self.spec_len(),
                n == old(self).spec_len(),
                i <= n,
                self.laid_out() == 0,
                self.spec_total() == 0,
                self.same_settings(old(self)),
                self.spec_focused() matches Some(f) ==> f.0 < n,
                forall|j: int|
                    0 <= j < n ==> {
                        let a = #[trigger] self.spec_entries()[j];
                        let b = old(self).spec_entries()[j];
                        &&& a.spec_entry() == b.spec_entry()
                        &&& a.spec_index() == j
                        &&& a.spec_wrap_override() == b.spec_wrap_override()
                        &&& a.wf()
                        &&& (j < i ==> a.spec_expanded() == expanded)
                        &&& (j >= i ==> a.spec_expanded() == b.spec_expanded())
                    },
            decreases n - i,
        {
            let ghost prev = self.spec_entries();
            self.entries[i].set_expanded(expanded);
            proof {
                assert forall|j: int| 0 <= j < n && j != i implies self.spec_entries()[j] == prev[j] by {}
                assert(prev[i as int].wf());
            }
            i = i + 1;
        }
        proof {
            assert forall|j: int| 0 <= j < n implies #[trigger] self.spec_entries()[j].wf()
                && self.spec_entries()[j].spec_index() == j by {}
        }
        let ghost mid = *self;
        proof {
            assert forall|j: int| 0 <= j < n implies {
                let a = #[trigger] mid.spec_entries()[j];
                let b = old(self).spec_entries()[j];
                &&& a.spec_entry() == b.spec_entry()
                &&& a.spec_index() == b.spec_index()
                &&& a.spec_wrap_override() == b.spec_wrap_override()
                &&& a.spec_expanded() == expanded
            } by {
                assert(self.spec_entries()[j] == mid.spec_entries()[j]);
                assert(old(self).spec_entries()[j].wf());
            }
        }
        self.rerender_from(0, params);
        self.extend_layout();
        self.last_layout_params = Some(params);
        proof {
            assert forall|j: int| 0 <= j < n implies {
                let a = #[trigger] self.spec_entries()[j];
                let b = old(self).spec_entries()[j];
                &&& a.spec_expanded() == expanded
                &&& a.spec_entry() == b.spec_entry()
                &&& a.spec_index() == b.spec_index()
                &&& a.spec_wrap_override() == b.spec_wrap_override()
            } by {
                assert(self.spec_entries()[j].same_state(&mid.spec_entries()[j]));
                assert(mid.spec_entries()[j].spec_expanded() == expanded);
            }
        }
    }

    /// Top of entry `index` in the current layout.
    pub fn entry_cumulative_y(&self, index: EntryIndex) -> (r: Option<LineOffset>)
        ensures
            r == self.anchor_of(index),
    {
        if index.0 < self.cumulative.len() {
            Some(LineOffset(self.cumulative[index.0]))
        } else {
            None
        }
    }

    /// The offset the current scroll position resolves to for a viewport of
    /// `viewport_height` lines.
    pub fn resolved_offset(&self, viewport_height: u16) -> (r: usize)
        ensures
            r as nat == self.resolved(viewport_height as nat),
    {
        let anchor = match self.scroll {
            ScrollPosition::AtEntry { entry_index, .. } => self.entry_cumulative_y(entry_index),
            _ => None,
        };
        self.scroll.resolve_with(self.total_height, viewport_height as usize, anchor)
    }

    /// Whether the viewport is clamped at the bottom of the content.
    pub fn is_at_bottom(&self, viewport: ViewportDimensions) -> (r: bool)
        ensures
            r == (self.resolved(viewport.height as nat) == max_offset(self.spec_total(), viewport.height as nat)),
    {
        let off = self.resolved_offset(viewport.height);
        let max = if self.total_height > viewport.height as usize {
            self.total_height - viewport.height as usize
        } else {
            0
        };
        off == max
    }

    /// Number of offsets not above `x`.
    fn count_at_most(v: &Vec<usize>, x: usize) -> (r: usize)
        requires
            forall|i: int, j: int| 0 <= i < j < v@.len() ==> v@[i] < v@[j],
        ensures
            r <= v@.len(),
            forall|j: int| 0 <= j < r ==> v@[j] <= x,
            forall|j: int| r <= j < v@.len() ==> v@[j] > x,
    {
        let mut lo: usize = 0;
        let mut hi: usize = v.len();
        while lo < hi
            invariant
                lo <= hi <= v@.len(),
                forall|i: int, j: int| 0 <= i < j < v@.len() ==> v@[i] < v@[j],
                forall|j: int| 0 <= j < lo ==> v@[j] <= x,
                forall|j: int| hi <= j < v@.len() ==> v@[j] > x,
            decreases hi - lo,
        {
            let mid = lo + (hi - lo) / 2;
            if v[mid] <= x {
                lo = mid + 1;
            } else {
                hi = mid;
            }
        }
        lo
    }

    /// Number of offsets below `x`.
    fn count_below(v: &Vec<usize>, x: usize) -> (r: usize)
        requires
            forall|i: int, j: int| 0 <= i < j < v@.len() ==> v@[i] < v@[j],
        ensures
            r <= v@.len(),
            forall|j: int| 0 <= j < r ==> v@[j] < x,
            forall|j: int| r <= j < v@.len() ==> v@[j] >= x,
    {
        let mut lo: usize = 0;
        let mut hi: usize = v.len();
        while lo < hi
            invariant
                lo <= hi <= v@.len(),
                forall|i: int, j: int| 0 <= i < j < v@.len() ==> v@[i] < v@[j],
                forall|j: int| 0 <= j < lo ==> v@[j] < x,
                forall|j: int| hi <= j < v@.len() ==> v@[j] >= x,
            decreases hi - lo,
        {
            let mid = lo + (hi - lo) / 2;
            if v[mid] < x {
                lo = mid + 1;
            } else {
                hi = mid;
            }
        }
        lo
    }

    /// The laid-out entries that intersect `[offset, offset + height)`, where
    /// `offset` is the resolved scroll position: `start` is the entry holding the
    /// offset, `end` is past every entry that starts inside the viewport, and at
    /// least one entry is returned whenever any is laid out.
    pub open spec fn is_visible_range(&self, r: VisibleRange, viewport_height: nat) -> bool {
        let off = self.resolved(viewport_height);
        let n = self.laid_out() as int;
        let (s, e) = (r.start_index.0 as int, r.end_index.0 as int);
        &&& r.scroll_offset.0 == off
        &&& n == 0 ==> s == 0 && e == 0
        &&& n > 0 ==> {
            &&& 0 <= s < e <= n
            &&& self.offsets()[s] <= off
            &&& (s + 1 < n ==> off < self.offsets()[s + 1])
            &&& forall|i: int| s < i < e ==> self.offsets()[i] < off + viewport_height
            &&& (e < n ==> self.offsets()[e] >= off + viewport_height)
        }
    }

    /// Entries intersecting the viewport, found by binary search on the offsets.
    pub fn visible_range(&self, viewport: ViewportDimensions) -> (r: VisibleRange)
        requires
            self.wf(),
        ensures
            self.is_visible_range(r, viewport.height as nat),
    {
        proof {
            self.lemma_offsets_increasing();
        }
        let off = self.resolved_offset(viewport.height);
        let n = self.cumulative.len();
        if n == 0 {
            return VisibleRange::new(EntryIndex(0), EntryIndex(0), LineOffset(off));
        }
        let start = Self::count_at_most(&self.cumulative, off) - 1;
        let end = match off.checked_add(viewport.height as usize) {
            Some(bound) => Self::count_below(&self.cumulative, bound),
            None => n,
        };
        let end = if end > start + 1 {
            end
        } else {
            start + 1
        };
        VisibleRange::new(EntryIndex(start), EntryIndex(end), LineOffset(off))
    }

    /// The entry at row `screen_y` of a viewport scrolled to `scroll_offset`:
    /// a hit names the entry whose rows contain `scroll_offset + screen_y`, the
    /// row within it, and `screen_x` as given; past the content it is a miss.
    pub fn hit_test(&self, screen_y: u16, screen_x: u16, scroll_offset: LineOffset) -> (r: HitTestResult)
        requires
            self.wf(),
        ensures
            scroll_offset.0 + screen_y >= self.spec_total() <==> r is Miss,
            r matches HitTestResult::Hit { entry_index, line_in_entry, column } ==> {
                let y = scroll_offset.0 + screen_y;
                let i = entry_index.0 as int;
                &&& 0 <= i < self.laid_out()
                &&& self.offsets()[i] <= y < self.offsets()[i] + self.heights()[i]
                &&& line_in_entry == y - self.offsets()[i]
                &&& column == screen_x
            },
    {
        proof {
            self.lemma_offsets_increasing();
        }
        let y = match scroll_offset.0.checked_add(screen_y as usize) {
            Some(y) => y,
            None => return HitTestResult::Miss,
        };
        if y >= self.total_height {
            return HitTestResult::Miss;
        }
        let n = self.cumulative.len();
        proof {
            if n == 0 {
                assert(self.spec_total() == prefix_height(self.heights(), 0));
            }
        }
        let i = Self::count_at_most(&self.cumulative, y) - 1;
        proof {
            self.lemma_entry_end(i as int);
        }
        HitTestResult::Hit { entry_index: EntryIndex(i), line_in_entry: y - self.cumulative[i], column: screen_x }
    }

    /// The end of a laid-out entry is the next entry's top, or the total height.
    proof fn lemma_entry_end(&self, i: int)
        requires
            self.wf(),
            0 <= i < self.laid_out(),
        ensures
            i + 1 < self.laid_out() ==> self.offsets()[i + 1] == self.offsets()[i] + self.heights()[i],
            i + 1 == self.laid_out() ==> self.spec_total() == self.offsets()[i] + self.heights()[i],
    {
        assert(self.offsets()[i] as nat == prefix_height(self.heights(), i));
        if i + 1 < self.laid_out() {
            assert(self.offsets()[i + 1] as nat == prefix_height(self.heights(), i + 1));
        }
    }

    /// Index of the first well-formed entry with identifier `uuid`.
    pub fn find_entry_index_by_uuid(&self, uuid: &EntryUuid) -> (r: Option<EntryIndex>)
        ensures
            r matches Some(i) ==> (i.0 < self.spec_len() && self.spec_entries()[i.0 as int].has_uuid(uuid.value@)
                && forall|j: int| 0 <= j < i.0 ==> !self.spec_entries()[j].has_uuid(uuid.value@)),
            r is None ==> forall|j: int| 0 <= j < self.spec_len() ==> !self.spec_entries()[j].has_uuid(uuid.value@),
    {
        let n = self.entries.len();
        let mut i: usize = 0;
        while i < n
            invariant
                n == self.spec_len(),
                i <= n,
                forall|j: int| 0 <= j < i ==> !self.spec_entries()[j].has_uuid(uuid.value@),
            decreases n - i,
        {
            match self.entries[i].uuid() {
                Some(u) => {
                    if u.same_as(uuid) {
                        return Some(EntryIndex(i));
                    }
                },
                None => {},
            }
            i = i + 1;
        }
        None
    }

    /// Anchors the viewport at the top of the entry with identifier `uuid`;
    /// returns whether such an entry exists (otherwise nothing changes).
    pub fn scroll_to_entry(&mut self, uuid: &EntryUuid) -> (r: bool)
        requires
            old(self).wf(),
        ensures
            final(self).wf(),
            r == exists|j: int| 0 <= j < old(self).spec_len() && old(self).spec_entries()[j].has_uuid(uuid.value@),
            !r ==> *final(self) == *old(self),
            r ==> (final(self).spec_scroll() matches ScrollPosition::AtEntry { entry_index, line_in_entry }
                && line_in_entry == 0 && entry_index.0 < old(self).spec_len()
                && old(self).spec_entries()[entry_index.0 as int].has_uuid(uuid.value@)
                && forall|j: int| 0 <= j < entry_index.0 ==> !old(self).spec_entries()[j].has_uuid(uuid.value@)),
            final(self).spec_entries() == old(self).spec_entries(),
            final(self).offsets() == old(self).offsets(),
            final(self).spec_total() == old(self).spec_total(),
            final(self).spec_focused() == old(self).spec_focused(),
    {
        match self.find_entry_index_by_uuid(uuid) {
            Some(i) => {
                self.scroll = ScrollPosition::AtEntry { entry_index: i, line_in_entry: 0 };
                true
            },
            None => false,
        }
    }
}

/// Offsets step by heights: the first laid-out entry starts at 0, each next one
/// starts where the previous ends, and the total height is where the last one
/// ends (0 when nothing is laid out).
pub proof fn lemma_cumulative_offsets(s: ConversationViewState)
    requires
        s.wf(),
    ensures
        s.laid_out() > 0 ==> s.offsets()[0] == 0,
        forall|i: int|
            0 <= i && i + 1 < s.laid_out() ==> #[trigger] s.offsets()[i + 1] == s.offsets()[i] + s.heights()[i],
        s.laid_out() == 0 ==> s.spec_total() == 0,
        s.laid_out() > 0 ==> s.spec_total() == s.offsets()[s.laid_out() - 1] + s.heights()[s.laid_out() - 1],
{
    assert forall|i: int| 0 <= i && i + 1 < s.laid_out() implies #[trigger] s.offsets()[i + 1] == s.offsets()[i]
        + s.heights()[i] by {
        s.lemma_entry_end(i);
    }
    if s.laid_out() > 0 {
        s.lemma_entry_end(s.laid_out() - 1);
        assert(s.offsets()[0] as nat == prefix_height(s.heights(), 0));
    }
}

/// When the heights of all entries sum to a `usize`, a completed layout covers
/// every entry and the total height is that sum.
pub proof fn lemma_complete_layout_covers_all(s: ConversationViewState)
    requires
        s.wf(),
        s.layout_complete(),
        prefix_height(s.heights(), s.spec_len() as int) <= usize::MAX,
    ensures
        s.laid_out() == s.spec_len(),
        s.spec_total() == prefix_height(s.heights(), s.spec_len() as int),
{
    let hs = s.heights();
    assert forall|k: int| 0 <= k < hs.len() implies hs[k] >= 1 by {
        assert(s.spec_entries()[k].wf());
    }
    if s.laid_out() < s.spec_len() {
        lemma_prefix_height_grows(hs, s.laid_out() + 1int, s.spec_len() as int);
    }
}

/// Once every entry is laid out, a visible range lies within the entries and
/// is empty exactly when the conversation is.
pub proof fn lemma_visible_range_bounds(s: ConversationViewState, r: VisibleRange, viewport_height: nat)
    requires
        s.wf(),
        s.laid_out() == s.spec_len(),
        s.is_visible_range(r, viewport_height),
    ensures
        r.start_index.0 <= r.end_index.0 <= s.spec_len(),
        (r.start_index.0 == r.end_index.0) <==> s.spec_len() == 0,
{
}

/// `relayout_from(k)` on a conversation whose entries below `k` are up to date
/// under `params` ends with the same lines, offsets and total height as a full
/// `recompute_layout(params)` of the same conversation.
pub proof fn lemma_relayout_from_matches_full_layout(
    before: ConversationViewState,
    partial: ConversationViewState,
    full: ConversationViewState,
    k: nat,
    params: LayoutParams,
)
    requires
        before.wf(),
        forall|i: int|
            0 <= i < k && i < before.laid_out() ==> #[trigger] before.spec_entries()[i].lines()
                == before.spec_entries()[i].fresh_lines(
                params.global_wrap,
                params.width,
                before.spec_threshold(),
                before.spec_summary(),
            ),
        partial.relayout_from_post(&before, k, params),
        full.recompute_layout_post(&before, params),
    ensures
        partial.spec_len() == full.spec_len(),
        forall|i: int| 0 <= i < partial.spec_len() ==> #[trigger] partial.spec_entries()[i].lines() == full.spec_entries()[i].lines(),
        partial.offsets() == full.offsets(),
        partial.spec_total() == full.spec_total(),
{
    let n = before.spec_len();
    let kk = if k < before.laid_out() {
        k as int
    } else {
        before.laid_out() as int
    };
    assert forall|i: int| 0 <= i < n implies #[trigger] partial.spec_entries()[i].lines()
        == full.spec_entries()[i].lines() by {
        assert(partial.spec_entries()[i].same_state(&before.spec_entries()[i]));
        assert(full.spec_entries()[i].same_state(&before.spec_entries()[i]));
        assert(full.spec_entries()[i].lines() == full.spec_entries()[i].fresh_lines(
            params.global_wrap,
            params.width,
            full.spec_threshold(),
            full.spec_summary(),
        ));
        if i < kk {
            assert(partial.spec_entries()[i].lines() == before.spec_entries()[i].lines());
        } else {
            assert(partial.spec_entries()[i].lines() == partial.spec_entries()[i].fresh_lines(
                params.global_wrap,
                params.width,
                partial.spec_threshold(),
                partial.spec_summary(),
            ));
        }
    }
    let hs = partial.heights();
    assert(hs =~= full.heights());
    assert forall|j: int| 0 <= j < hs.len() implies hs[j] >= 1 by {
        assert(partial.spec_entries()[j].wf());
    }
    let a = partial.laid_out() as int;
    let b = full.laid_out() as int;
    if a < b {
        lemma_prefix_height_grows(hs, a + 1, b);
    } else if b < a {
        lemma_prefix_height_grows(hs, b + 1, a);
    }
    assert(a == b);
    assert forall|i: int| 0 <= i < a implies partial.offsets()[i] == full.offsets()[i] by {
        assert(partial.offsets()[i] as nat == prefix_height(hs, i));
        assert(full.offsets()[i] as nat == prefix_height(hs, i));
    }
    assert(partial.offsets() =~= full.offsets());
}

} // verus!
