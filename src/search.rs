//! Search input editing and navigation between search matches.
use vstd::prelude::*;

use crate::conversation::ConversationViewState;
use crate::model::EntryUuid;
use crate::text::{collect_chars, push_char, string_of};

verus! {

/// Where a match was found: the subagent (none for the main agent) and the entry.
#[derive(Debug, Clone)]
pub struct SearchMatch {
    pub agent_id: Option<String>,
    pub entry_uuid: EntryUuid,
}

/// The search box: closed, being typed into, or showing matches.
#[derive(Debug, Clone)]
pub enum SearchState {
    Inactive,
    /// `cursor` counts characters of `query`.
    Typing { query: String, cursor: usize },
    Active { query: String, matches: Vec<SearchMatch>, current_match: usize },
}

/// Position of the cursor, kept within the query.
pub open spec fn clamped_cursor(query: Seq<char>, cursor: usize) -> int {
    if cursor > query.len() {
        query.len() as int
    } else {
        cursor as int
    }
}

/// Inserts `ch` at the cursor and moves the cursor past it.
pub fn handle_char_input(state: SearchState, ch: char) -> (r: SearchState)
    requires
        state matches SearchState::Typing { query, .. } ==> query@.len() < usize::MAX,
    ensures
        state matches SearchState::Typing { query, cursor } ==> r matches SearchState::Typing {
            query: q,
            cursor: c,
        } && {
            let at = clamped_cursor(query@, cursor);
            &&& q@ == query@.take(at).push(ch) + query@.skip(at)
            &&& c == at + 1
        },
        !(state is Typing) ==> r == state,
{
    match state {
        SearchState::Typing { query, cursor } => {
            let cs = collect_chars(query.as_str());
            let at = if cursor > cs.len() {
                cs.len()
            } else {
                cursor
            };
            let mut q = string_of(&cs, 0, at);
            push_char(&mut q, ch);
            let tail = string_of(&cs, at, cs.len());
            q.append(tail.as_str());
            proof {
                assert(cs@.subrange(0, at as int) =~= query@.take(at as int));
                assert(cs@.subrange(at as int, cs@.len() as int) =~= query@.skip(at as int));
            }
            SearchState::Typing { query: q, cursor: at + 1 }
        },
        other => other,
    }
}

/// Deletes the character before the cursor, if any.
pub fn handle_backspace(state: SearchState) -> (r: SearchState)
    ensures
        state matches SearchState::Typing { query, cursor } ==> {
            let at = clamped_cursor(query@, cursor);
            if at == 0 {
                r == state
            } else {
                r matches SearchState::Typing { query: q, cursor: c } && q@ == query@.take(at - 1)
                    + query@.skip(at) && c == at - 1
            }
        },
        !(state is Typing) ==> r == state,
{
    match state {
        SearchState::Typing { query, cursor } => {
            let cs = collect_chars(query.as_str());
            let at = if cursor > cs.len() {
                cs.len()
            } else {
                cursor
            };
            if at == 0 {
                return SearchState::Typing { query, cursor };
            }
            let mut q = string_of(&cs, 0, at - 1);
            let tail = string_of(&cs, at, cs.len());
            q.append(tail.as_str());
            proof {
                assert(cs@.subrange(0, at - 1) =~= query@.take(at - 1));
                assert(cs@.subrange(at as int, cs@.len() as int) =~= query@.skip(at as int));
            }
            SearchState::Typing { query: q, cursor: at - 1 }
        },
        other => other,
    }
}

/// Moves the cursor one character left, stopping at the start.
pub fn handle_cursor_left(state: SearchState) -> (r: SearchState)
    ensures
        state matches SearchState::Typing { query, cursor } ==> r matches SearchState::Typing {
            query: q,
            cursor: c,
        } && q == query && c == if cursor > 0 {
            cursor - 1
        } else {
            0
        },
        !(state is Typing) ==> r == state,
{
    match state {
        SearchState::Typing { query, cursor } => SearchState::Typing {
            query,
            cursor: if cursor > 0 {
                cursor - 1
            } else {
                0
            },
        },
        other => other,
    }
}

/// Moves the cursor one character right, stopping at the end of the query.
pub fn handle_cursor_right(state: SearchState) -> (r: SearchState)
    ensures
        state matches SearchState::Typing { query, cursor } ==> r matches SearchState::Typing {
            query: q,
            cursor: c,
        } && q == query && c == if cursor < query@.len() {
            cursor + 1
        } else {
            query@.len() as int
        },
        !(state is Typing) ==> r == state,
{
    match state {
        SearchState::Typing { query, cursor } => {
            let n = query.as_str().unicode_len();
            let c = if cursor < n {
                cursor + 1
            } else {
                n
            };
            SearchState::Typing { query, cursor: c }
        },
        other => other,
    }
}

/// Opens the search box with an empty query; no change otherwise.
pub fn activate_search_input(state: SearchState) -> (r: SearchState)
    ensures
        state is Inactive ==> (r matches SearchState::Typing { query, cursor } && query@.len() == 0
            && cursor == 0),
        !(state is Inactive) ==> r == state,
{
    match state {
        SearchState::Inactive => SearchState::Typing { query: String::new(), cursor: 0 },
        other => other,
    }
}

/// Closes the search box.
pub fn cancel_search(_state: SearchState) -> (r: SearchState)
    ensures
        r is Inactive,
{
    SearchState::Inactive
}

/// Submits the typed query: a non-empty one becomes active with no matches yet
/// (they are found elsewhere), an empty one closes the box.
pub fn submit_search(state: SearchState) -> (r: SearchState)
    ensures
        state matches SearchState::Typing { query, .. } ==> if query@.len() == 0 {
            r is Inactive
        } else {
            r matches SearchState::Active { query: q, matches, current_match } && q == query
                && matches@.len() == 0 && current_match == 0
        },
        !(state is Typing) ==> r == state,
{
    match state {
        SearchState::Typing { query, .. } => {
            if query.as_str().unicode_len() == 0 {
                SearchState::Inactive
            } else {
                SearchState::Active { query, matches: Vec::new(), current_match: 0 }
            }
        },
        other => other,
    }
}

/// The next match index, wrapping from the last to the first.
fn advance_next(state: SearchState) -> (r: SearchState)
    ensures
        match state {
            SearchState::Active { query, matches: ms, current_match } => if ms@.len() > 0 {
                r matches SearchState::Active { query: q, matches: m, current_match: c } && q == query
                    && m == ms && c == if current_match + 1 >= ms@.len() {
                    0
                } else {
                    current_match + 1
                }
            } else {
                r == state
            },
            _ => r == state,
        },
{
    match state {
        SearchState::Active { query, matches, current_match } => {
            if matches.len() == 0 {
                return SearchState::Active { query, matches, current_match };
            }
            let next = if current_match >= matches.len() - 1 {
                0
            } else {
                current_match + 1
            };
            SearchState::Active { query, matches, current_match: next }
        },
        other => other,
    }
}

/// The previous match index, wrapping from the first to the last (an index
/// past the end steps to the last).
fn advance_prev(state: SearchState) -> (r: SearchState)
    ensures
        match state {
            SearchState::Active { query, matches: ms, current_match } => if ms@.len() > 0 {
                r matches SearchState::Active { query: q, matches: m, current_match: c } && q == query
                    && m == ms && c == if current_match == 0 || current_match > ms@.len() {
                    ms@.len() - 1
                } else {
                    current_match - 1
                }
            } else {
                r == state
            },
            _ => r == state,
        },
{
    match state {
        SearchState::Active { query, matches, current_match } => {
            if matches.len() == 0 {
                return SearchState::Active { query, matches, current_match };
            }
            let prev = if current_match == 0 || current_match > matches.len() {
                matches.len() - 1
            } else {
                current_match - 1
            };
            SearchState::Active { query, matches, current_match: prev }
        },
        other => other,
    }
}

/// The match currently selected, if the search is active and it exists.
pub fn current_match(state: &SearchState) -> (r: Option<&SearchMatch>)
    ensures
        match *state {
            SearchState::Active { matches: ms, current_match, .. } => if current_match < ms@.len() {
                r == Some(&ms@[current_match as int])
            } else {
                r is None
            },
            _ => r is None,
        },
{
    match state {
        SearchState::Active { matches, current_match, .. } => {
            if *current_match < matches.len() {
                Some(&matches[*current_match])
            } else {
                None
            }
        },
        _ => None,
    }
}

/// One conversation of a session with the subagent it belongs to (none for the
/// main agent).
pub struct AgentConversation {
    pub agent_id: Option<String>,
    pub view: ConversationViewState,
}

pub open spec fn agent_key(a: Option<String>) -> Option<Seq<char>> {
    match a {
        Some(s) => Some(s@),
        None => None,
    }
}

/// Conversation `k` is the first of `cs` that belongs to agent `key`.
pub open spec fn first_of_agent(cs: Seq<AgentConversation>, k: int, key: Option<Seq<char>>) -> bool {
    &&& 0 <= k < cs.len()
    &&& agent_key(cs[k].agent_id) == key
    &&& forall|i: int| 0 <= i < k ==> agent_key(#[trigger] cs[i].agent_id) != key
}

pub open spec fn all_wf(cs: Seq<AgentConversation>) -> bool {
    forall|k: int| 0 <= k < cs.len() ==> (#[trigger] cs[k]).view.wf()
}

/// The conversation of match `m` holds an entry with the match's identifier.
pub open spec fn match_found(cs: Seq<AgentConversation>, m: SearchMatch) -> bool {
    exists|k: int|
        #[trigger] first_of_agent(cs, k, agent_key(m.agent_id)) && exists|j: int|
            0 <= j < cs[k].view.spec_len() && cs[k].view.spec_entries()[j].has_uuid(m.entry_uuid.value@)
}

/// `new` is `old` with the conversation of match `m` anchored at the top of its
/// first entry with the match's identifier; when there is none, nothing changes.
pub open spec fn anchored_at_match(old: Seq<AgentConversation>, new: Seq<AgentConversation>, m: SearchMatch) -> bool {
    &&& all_wf(new)
    &&& !match_found(old, m) ==> new == old
    &&& match_found(old, m) ==> exists|k: int|
        #[trigger] first_of_agent(old, k, agent_key(m.agent_id)) && {
            let (a, b) = (old[k].view, new[k].view);
            &&& new.len() == old.len()
            &&& forall|i: int| 0 <= i < old.len() && i != k ==> new[i] == old[i]
            &&& new[k].agent_id == old[k].agent_id
            &&& b.spec_entries() == a.spec_entries()
            &&& b.offsets() == a.offsets()
            &&& b.spec_total() == a.spec_total()
            &&& b.spec_focused() == a.spec_focused()
            &&& b.spec_scroll() matches crate::scroll::ScrollPosition::AtEntry { entry_index, line_in_entry }
            &&& line_in_entry == 0
            &&& entry_index.0 < a.spec_len()
            &&& a.spec_entries()[entry_index.0 as int].has_uuid(m.entry_uuid.value@)
            &&& forall|j: int| 0 <= j < entry_index.0 ==> !a.spec_entries()[j].has_uuid(m.entry_uuid.value@)
        }
}

fn same_agent(a: &Option<String>, b: &Option<String>) -> (r: bool)
    ensures
        r == (agent_key(*a) == agent_key(*b)),
{
    match (a, b) {
        (Some(x), Some(y)) => *x == *y,
        (None, None) => true,
        _ => false,
    }
}

/// Index of the first conversation that belongs to `agent`.
fn find_agent(cs: &Vec<AgentConversation>, agent: &Option<String>) -> (r: Option<usize>)
    ensures
        r matches Some(k) ==> first_of_agent(cs@, k as int, agent_key(*agent)),
        r is None ==> forall|k: int| 0 <= k < cs@.len() ==> agent_key(#[trigger] cs@[k].agent_id) != agent_key(*agent),
{
    let n = cs.len();
    let mut k: usize = 0;
    while k < n
        invariant
            n == cs@.len(),
            k <= n,
            forall|i: int| 0 <= i < k ==> agent_key(#[trigger] cs@[i].agent_id) != agent_key(*agent),
        decreases n - k,
    {
        if same_agent(&cs[k].agent_id, agent) {
            return Some(k);
        }
        k = k + 1;
    }
    None
}

/// Anchors the conversation of the current match at the first entry with the
/// match's identifier; returns whether there was such a match and entry.
/// Switching the focused pane to that conversation is left to the caller.
pub fn jump_to_current_match(state: &SearchState, conversations: &mut Vec<AgentConversation>) -> (r: bool)
    requires
        all_wf(old(conversations)@),
    ensures
        match *state {
            SearchState::Active { matches: ms, current_match, .. } => if current_match < ms@.len() {
                &&& r == match_found(old(conversations)@, ms@[current_match as int])
                &&& anchored_at_match(old(conversations)@, final(conversations)@, ms@[current_match as int])
            } else {
                !r && final(conversations)@ == old(conversations)@
            },
            _ => !r && final(conversations)@ == old(conversations)@,
        },
{
    let m = match current_match(state) {
        Some(m) => m,
        None => return false,
    };
    let ghost old_cs = conversations@;
    let ghost key = agent_key(m.agent_id);
    match find_agent(conversations, &m.agent_id) {
        None => {
            proof {
                assert forall|k: int| !first_of_agent(old_cs, k, key) by {
                    if 0 <= k < old_cs.len() {
                        assert(agent_key(old_cs[k].agent_id) != key);
                    }
                }
            }
            false
        },
        Some(k) => {
            proof {
                assert forall|k2: int| #[trigger] first_of_agent(old_cs, k2, key) implies k2 == k by {
                    if k2 < k {
                        assert(agent_key(old_cs[k2].agent_id) != key);
                    } else if k < k2 {
                        assert(agent_key(old_cs[k as int].agent_id) != key);
                    }
                }
                assert(old_cs[k as int].view.wf());
            }
            let found = conversations[k].view.scroll_to_entry(&m.entry_uuid);
            proof {
                assert forall|i: int| 0 <= i < conversations@.len() implies (#[trigger] conversations@[i]).view.wf() by {
                    if i != k {
                        assert(conversations@[i] == old_cs[i]);
                    }
                }
                if found {
                    assert(first_of_agent(old_cs, k as int, key));
                } else {
                    assert(conversations@ =~= old_cs);
                }
            }
            found
        },
    }
}

/// Moves to the next match, wrapping from the last to the first, and anchors the
/// match's conversation at the match's entry.
pub fn next_match(state: SearchState, conversations: &mut Vec<AgentConversation>) -> (r: SearchState)
    requires
        all_wf(old(conversations)@),
    ensures
        match state {
            SearchState::Active { query, matches: ms, current_match } => if ms@.len() > 0 {
                r matches SearchState::Active { query: q, matches: m, current_match: c } && q == query
                    && m == ms && c == (if current_match + 1 >= ms@.len() {
                    0
                } else {
                    current_match + 1
                }) && anchored_at_match(old(conversations)@, final(conversations)@, ms@[c as int])
            } else {
                r == state && final(conversations)@ == old(conversations)@
            },
            _ => r == state && final(conversations)@ == old(conversations)@,
        },
{
    let ghost old_cs = conversations@;
    let r = advance_next(state);
    jump_to_current_match(&r, conversations);
    let ghost rv = r;
    proof {
        match rv {
            SearchState::Active { matches: ms, current_match: c, .. } => {
                if c < ms@.len() {
                    assert(anchored_at_match(old_cs, conversations@, ms@[c as int]));
                }
            },
            _ => {},
        }
    }
    r
}

/// Moves to the previous match, wrapping from the first to the last (an index
/// past the end steps to the last), and anchors
/// the match's conversation at the match's entry.
pub fn prev_match(state: SearchState, conversations: &mut Vec<AgentConversation>) -> (r: SearchState)
    requires
        all_wf(old(conversations)@),
    ensures
        match state {
            SearchState::Active { query, matches: ms, current_match } => if ms@.len() > 0 {
                r matches SearchState::Active { query: q, matches: m, current_match: c } && q == query
                    && m == ms && c == (if current_match == 0 || current_match > ms@.len() {
                    ms@.len() - 1
                } else {
                    current_match - 1
                }) && anchored_at_match(old(conversations)@, final(conversations)@, ms@[c as int])
            } else {
                r == state && final(conversations)@ == old(conversations)@
            },
            _ => r == state && final(conversations)@ == old(conversations)@,
        },
{
    let ghost old_cs = conversations@;
    let r = advance_prev(state);
    jump_to_current_match(&r, conversations);
    let ghost rv = r;
    proof {
        match rv {
            SearchState::Active { matches: ms, current_match: c, .. } => {
                if c < ms@.len() {
                    assert(anchored_at_match(old_cs, conversations@, ms@[c as int]));
                }
            },
            _ => {},
        }
    }
    r
}

} // verus!
