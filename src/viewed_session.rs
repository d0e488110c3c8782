//! Which session of a multi-session log is being viewed.
use vstd::prelude::*;

verus! {

/// A position among `session_count` sessions, checked when built.
#[derive(Debug, Clone, Copy, PartialEq, Eq, Structural)]
pub struct SessionIndex(usize);

impl SessionIndex {
    pub closed spec fn spec_get(&self) -> usize {
        self.0
    }

    /// The index, or `None` when it is not below `session_count`.
    pub fn new(index: usize, session_count: usize) -> (r: Option<Self>)
        ensures
            r.is_some() <==> index < session_count,
            r matches Some(s) ==> s.spec_get() == index,
    {
        if index < session_count {
            Some(SessionIndex(index))
        } else {
            None
        }
    }

    pub fn get(&self) -> (r: usize)
        ensures
            r == self.spec_get(),
    {
        self.0
    }

    /// Whether this is the last of `session_count` sessions.
    pub fn is_last(&self, session_count: usize) -> (r: bool)
        ensures
            r == (self.spec_get() + 1 == session_count),
    {
        self.0 < usize::MAX && self.0 + 1 == session_count
    }

    /// The following session, if there is one.
    pub fn next(&self, session_count: usize) -> (r: Option<Self>)
        ensures
            r.is_some() <==> self.spec_get() + 1 < session_count,
            r matches Some(s) ==> s.spec_get() == self.spec_get() + 1,
    {
        if self.0 < usize::MAX && self.0 + 1 < session_count {
            Some(SessionIndex(self.0 + 1))
        } else {
            None
        }
    }

    /// The preceding session, if there is one.
    pub fn prev(&self) -> (r: Option<Self>)
        ensures
            r.is_some() <==> self.spec_get() > 0,
            r matches Some(s) ==> s.spec_get() == self.spec_get() - 1,
    {
        if self.0 > 0 {
            Some(SessionIndex(self.0 - 1))
        } else {
            None
        }
    }
}

/// Follow the latest session (live tailing), or stay on a given one.
#[derive(Debug, Clone, Copy, PartialEq, Eq, Structural)]
pub enum ViewedSession {
    Latest,
    Pinned(SessionIndex),
}

impl Default for ViewedSession {
    fn default() -> (r: Self)
        ensures
            r == ViewedSession::Latest,
    {
        ViewedSession::Latest
    }
}

impl ViewedSession {
    /// Pins session `index`, or `None` when it is not below `session_count`.
    pub fn pinned(index: usize, session_count: usize) -> (r: Option<Self>)
        ensures
            r.is_some() <==> index < session_count,
            r matches Some(v) ==> v matches ViewedSession::Pinned(s) && s.spec_get() == index,
    {
        match SessionIndex::new(index, session_count) {
            Some(s) => Some(ViewedSession::Pinned(s)),
            None => None,
        }
    }

    /// Whether the last session is the one shown (always so when following).
    pub fn is_last(&self, session_count: usize) -> (r: bool)
        ensures
            r == match *self {
                ViewedSession::Latest => true,
                ViewedSession::Pinned(s) => s.spec_get() + 1 == session_count,
            },
    {
        match self {
            ViewedSession::Latest => true,
            ViewedSession::Pinned(idx) => idx.is_last(session_count),
        }
    }

    /// The session shown: the last one when following, else the pinned one.
    pub fn effective_index(&self, session_count: usize) -> (r: Option<SessionIndex>)
        ensures
            *self is Latest ==> (r.is_some() <==> session_count > 0),
            *self is Latest && session_count > 0 ==> r.unwrap().spec_get() == session_count - 1,
            *self matches ViewedSession::Pinned(s) ==> r == Some(s),
    {
        match self {
            ViewedSession::Latest => {
                if session_count > 0 {
                    SessionIndex::new(session_count - 1, session_count)
                } else {
                    None
                }
            },
            ViewedSession::Pinned(idx) => Some(*idx),
        }
    }

    /// One session toward the latest; from the last one, back to following.
    pub fn next(&self, session_count: usize) -> (r: Self)
        ensures
            match *self {
                ViewedSession::Latest => r == ViewedSession::Latest,
                ViewedSession::Pinned(s) => if s.spec_get() + 1 < session_count {
                    r matches ViewedSession::Pinned(t) && t.spec_get() == s.spec_get() + 1
                } else {
                    r == ViewedSession::Latest
                },
            },
    {
        match self {
            ViewedSession::Latest => ViewedSession::Latest,
            ViewedSession::Pinned(idx) => {
                if idx.is_last(session_count) {
                    ViewedSession::Latest
                } else {
                    match idx.next(session_count) {
                        Some(n) => ViewedSession::Pinned(n),
                        None => ViewedSession::Latest,
                    }
                }
            },
        }
    }

    /// One session toward the first; the first one stays; from following, the
    /// second-to-last session when there are at least two.
    pub fn prev(&self, session_count: usize) -> (r: Self)
        ensures
            match *self {
                ViewedSession::Latest => if session_count > 1 {
                    r matches ViewedSession::Pinned(t) && t.spec_get() == session_count - 2
                } else {
                    r == ViewedSession::Latest
                },
                ViewedSession::Pinned(s) => if s.spec_get() > 0 {
                    r matches ViewedSession::Pinned(t) && t.spec_get() == s.spec_get() - 1
                } else {
                    r == *self
                },
            },
    {
        match self {
            ViewedSession::Latest => {
                if session_count > 1 {
                    match SessionIndex::new(session_count - 2, session_count) {
                        Some(s) => ViewedSession::Pinned(s),
                        None => ViewedSession::Latest,
                    }
                } else {
                    ViewedSession::Latest
                }
            },
            ViewedSession::Pinned(idx) => match idx.prev() {
                Some(p) => ViewedSession::Pinned(p),
                None => ViewedSession::Pinned(*idx),
            },
        }
    }
}

} // verus!
