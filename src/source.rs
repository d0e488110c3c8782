//! Line assembly for piped standard input.
use vstd::prelude::*;

verus! {

/// The text of `s` without trailing whitespace.
pub uninterp spec fn trimmed_end(s: Seq<char>) -> Seq<char>;

/// Relies on `str::trim_end`: the result is `s` with trailing whitespace removed,
/// hence a prefix of it.
#[verifier::external_body]
fn trim_end(s: &str) -> (r: String)
    ensures
        r@ == trimmed_end(s@),
        r@.len() <= s@.len(),
        r@ == s@.take(r@.len() as int),
{
    s.trim_end().to_string()
}

/// What standard input has delivered so far. The caller performs each
/// `read_line` and hands over what it read.
#[derive(Debug, Clone, Copy, PartialEq, Eq, Structural)]
pub struct StdinSource {
    complete: bool,
}

impl StdinSource {
    pub closed spec fn spec_complete(&self) -> bool {
        self.complete
    }

    pub fn new() -> (r: Self)
        ensures
            !r.spec_complete(),
    {
        StdinSource { complete: false }
    }

    /// Handles the text one `read_line` call returned: empty text means the input
    /// ended; a complete line (ending in a newline) is returned without its
    /// trailing whitespace; a partial line gives nothing.
    pub fn poll(&mut self, read: String) -> (r: Option<String>)
        ensures
            read@.len() == 0 ==> r.is_none() && final(self).spec_complete(),
            read@.len() > 0 ==> final(self).spec_complete() == old(self).spec_complete(),
            read@.len() > 0 && read@.last() == '\n' ==> (r matches Some(line) && line@ == trimmed_end(read@)),
            read@.len() > 0 && read@.last() != '\n' ==> r.is_none(),
    {
        let n = read.as_str().unicode_len();
        if n == 0 {
            self.complete = true;
            return None;
        }
        if read.as_str().get_char(n - 1) == '\n' {
            Some(trim_end(read.as_str()))
        } else {
            None
        }
    }

    /// Whether the input has ended.
    pub fn is_complete(&self) -> (r: bool)
        ensures
            r == self.spec_complete(),
    {
        self.complete
    }
}

} // verus!
