//! One entry with its presentation state and its rendered lines.
use vstd::prelude::*;

use crate::model::{ConversationEntry, EntryUuid};
use crate::renderer::{
    compute_entry_lines, entry_lines, DEFAULT_COLLAPSE_THRESHOLD, DEFAULT_SUMMARY_LINES,
};
use crate::text::texts;
use crate::types::{EntryIndex, LineHeight, WrapMode};

verus! {

/// An owned entry, its position, its expand / wrap state and its rendered lines.
///
/// The rendered lines are the only source of the entry's height; they are
/// replaced only through `recompute_lines`, which the conversation always pairs
/// with a relayout.
#[derive(Debug, Clone)]
pub struct EntryView {
    entry: ConversationEntry,
    index: EntryIndex,
    rendered_lines: Vec<String>,
    expanded: bool,
    wrap_override: Option<WrapMode>,
}

pub open spec fn effective_wrap_spec(over: Option<WrapMode>, global: WrapMode) -> WrapMode {
    match over {
        Some(m) => m,
        None => global,
    }
}

impl EntryView {
    pub closed spec fn spec_entry(&self) -> ConversationEntry {
        self.entry
    }

    pub closed spec fn spec_index(&self) -> usize {
        self.index.0
    }

    pub closed spec fn spec_expanded(&self) -> bool {
        self.expanded
    }

    pub closed spec fn spec_wrap_override(&self) -> Option<WrapMode> {
        self.wrap_override
    }

    /// The rendered lines, as character sequences.
    pub closed spec fn lines(&self) -> Seq<Seq<char>> {
        texts(self.rendered_lines@)
    }

    pub open spec fn spec_height(&self) -> nat {
        self.lines().len()
    }

    pub open spec fn wf(&self) -> bool {
        self.spec_height() >= 1
    }

    /// Whether this is a well-formed entry with identifier text `uuid`.
    pub open spec fn has_uuid(&self, uuid: Seq<char>) -> bool {
        self.spec_entry() is Valid && self.spec_entry()->Valid_0.uuid.value@ == uuid
    }

    /// Same entry, index and flags as `other`.
    pub open spec fn same_state(&self, other: &EntryView) -> bool {
        &&& self.spec_entry() == other.spec_entry()
        &&& self.spec_index() == other.spec_index()
        &&& self.spec_expanded() == other.spec_expanded()
        &&& self.spec_wrap_override() == other.spec_wrap_override()
    }

    /// The lines the renderer gives for this entry's current state.
    pub open spec fn fresh_lines(&self, global: WrapMode, width: u16, threshold: nat, summary: nat) -> Seq<
        Seq<char>,
    > {
        entry_lines(
            self.spec_entry(),
            self.spec_expanded(),
            effective_wrap_spec(self.spec_wrap_override(), global),
            width,
            threshold,
            summary,
        )
    }

    /// A collapsed view with a one-line placeholder, to be laid out later.
    pub fn new(entry: ConversationEntry, index: EntryIndex) -> (r: Self)
        ensures
            r.spec_entry() == entry,
            r.spec_index() == index.0,
            !r.spec_expanded(),
            r.spec_wrap_override().is_none(),
            r.lines() == seq![Seq::<char>::empty()],
            r.wf(),
    {
        let mut lines: Vec<String> = Vec::new();
        lines.push(String::new());
        let r = EntryView { entry, index, rendered_lines: lines, expanded: false, wrap_override: None };
        assert(r.lines() =~= seq![Seq::<char>::empty()]);
        r
    }

    /// A collapsed view rendered at once with the default collapse policy.
    pub fn with_rendered_lines(entry: ConversationEntry, index: EntryIndex, wrap_mode: WrapMode, width: u16) -> (r:
        Self)
        ensures
            r.spec_entry() == entry,
            r.spec_index() == index.0,
            !r.spec_expanded(),
            r.spec_wrap_override().is_none(),
            r.lines() == entry_lines(
                entry,
                false,
                wrap_mode,
                width,
                DEFAULT_COLLAPSE_THRESHOLD as nat,
                DEFAULT_SUMMARY_LINES as nat,
            ),
            r.wf(),
    {
        let lines = compute_entry_lines(
            &entry,
            false,
            wrap_mode,
            width,
            DEFAULT_COLLAPSE_THRESHOLD,
            DEFAULT_SUMMARY_LINES,
        );
        EntryView { entry, index, rendered_lines: lines, expanded: false, wrap_override: None }
    }

    pub fn index(&self) -> (r: EntryIndex)
        ensures
            r.0 == self.spec_index(),
    {
        self.index
    }

    /// The 1-based number shown to users.
    pub fn display_index(&self) -> (r: usize)
        requires
            self.spec_index() < usize::MAX,
        ensures
            r == self.spec_index() + 1,
    {
        self.index.display()
    }

    pub fn entry(&self) -> (r: &ConversationEntry)
        ensures
            *r == self.spec_entry(),
    {
        &self.entry
    }

    pub fn uuid(&self) -> (r: Option<&EntryUuid>)
        ensures
            self.spec_entry() is Valid ==> r == Some(&self.spec_entry()->Valid_0.uuid),
            self.spec_entry() is Malformed ==> r.is_none(),
    {
        self.entry.uuid()
    }

    /// The number of rendered lines.
    pub fn height(&self) -> (r: LineHeight)
        requires
            self.wf(),
        ensures
            r.spec_get() == self.lines().len(),
    {
        LineHeight::new(self.rendered_lines.len()).unwrap()
    }

    pub(crate) fn height_usize(&self) -> (r: usize)
        ensures
            r == self.spec_height(),
    {
        self.rendered_lines.len()
    }

    pub fn rendered_lines(&self) -> (r: &Vec<String>)
        ensures
            texts(r@) == self.lines(),
            r@.len() == self.spec_height(),
    {
        &self.rendered_lines
    }

    /// Re-renders with the current flags and replaces the lines.
    pub(crate) fn recompute_lines(
        &mut self,
        global: WrapMode,
        width: u16,
        collapse_threshold: usize,
        summary_lines: usize,
    )
        ensures
            final(self).same_state(old(self)),
            final(self).lines() == old(self).fresh_lines(
                global,
                width,
                collapse_threshold as nat,
                summary_lines as nat,
            ),
            final(self).wf(),
    {
        let wrap = self.effective_wrap(global);
        self.rendered_lines = compute_entry_lines(
            &self.entry,
            self.expanded,
            wrap,
            width,
            collapse_threshold,
            summary_lines,
        );
    }

    pub fn is_expanded(&self) -> (r: bool)
        ensures
            r == self.spec_expanded(),
    {
        self.expanded
    }

    pub fn wrap_override(&self) -> (r: Option<WrapMode>)
        ensures
            r == self.spec_wrap_override(),
    {
        self.wrap_override
    }

    /// The override when set, else the global mode.
    pub fn effective_wrap(&self, global: WrapMode) -> (r: WrapMode)
        ensures
            r == effective_wrap_spec(self.spec_wrap_override(), global),
    {
        match self.wrap_override {
            Some(m) => m,
            None => global,
        }
    }

    pub(crate) fn set_expanded(&mut self, expanded: bool)
        ensures
            final(self).spec_expanded() == expanded,
            final(self).spec_entry() == old(self).spec_entry(),
            final(self).spec_index() == old(self).spec_index(),
            final(self).spec_wrap_override() == old(self).spec_wrap_override(),
            final(self).lines() == old(self).lines(),
    {
        self.expanded = expanded;
    }

    pub(crate) fn set_wrap_override(&mut self, mode: Option<WrapMode>)
        ensures
            final(self).spec_wrap_override() == mode,
            final(self).spec_entry() == old(self).spec_entry(),
            final(self).spec_index() == old(self).spec_index(),
            final(self).spec_expanded() == old(self).spec_expanded(),
            final(self).lines() == old(self).lines(),
    {
        self.wrap_override = mode;
    }
}

} // verus!
