//! Turns one entry into display lines under a single, entry-wide collapse policy.
use vstd::prelude::*;
use vstd::seq_lib::lemma_flatten_concat;

use crate::model::{ContentBlock, ConversationEntry, LogEntry};
use crate::text::{
    chunks, collect_chars, decimal, decimal_string, split_newlines,
    string_of, texts, wrap_line,
};
use crate::types::WrapMode;

verus! {

/// Lines shown before the indicator when an entry is collapsed.
pub const DEFAULT_SUMMARY_LINES: usize = 3;

/// Candidate line count above which a collapsed entry is shortened.
pub const DEFAULT_COLLAPSE_THRESHOLD: usize = 10;

pub open spec fn tool_header(name: Seq<char>) -> Seq<char> {
    "\u{1F527} Tool: "@ + name
}

pub open spec fn more_lines_indicator(n: nat) -> Seq<char> {
    "(+"@ + decimal(n) + " more lines)"@
}

/// Usable width for content: the viewport width less a two-column margin.
pub open spec fn content_width(width: u16) -> nat {
    if width > 2 {
        (width - 2) as nat
    } else {
        1
    }
}

/// Logical lines of one block, before wrapping.
pub open spec fn block_lines(b: ContentBlock) -> Seq<Seq<char>> {
    match b {
        ContentBlock::Text { text } => split_newlines(text@),
        ContentBlock::ToolUse { name, input } => seq![tool_header(name@)] + split_newlines(input@),
        ContentBlock::ToolResult { content, .. } => split_newlines(content@),
        ContentBlock::Thinking { thinking } => split_newlines(thinking@),
    }
}

/// Physical lines of a sequence of logical lines.
pub open spec fn wrap_all(ls: Seq<Seq<char>>, wrap: bool, width: nat) -> Seq<Seq<char>> {
    ls.map_values(|l: Seq<char>| wrap_line(l, wrap, width)).flatten()
}

pub open spec fn block_physical_lines(b: ContentBlock, wrap: bool, width: nat) -> Seq<Seq<char>> {
    wrap_all(block_lines(b), wrap, width)
}

/// Every physical line of every block of the entry, in order.
pub open spec fn candidate_lines(e: LogEntry, wrap: bool, width: nat) -> Seq<Seq<char>> {
    e.blocks@.map_values(|b: ContentBlock| block_physical_lines(b, wrap, width)).flatten()
}

/// The entry-wide collapse decision applied to the candidate lines.
pub open spec fn collapse(c: Seq<Seq<char>>, expanded: bool, threshold: nat, summary: nat) -> Seq<
    Seq<char>,
> {
    if !expanded && c.len() > threshold {
        let shown = if summary < c.len() {
            summary
        } else {
            c.len()
        };
        c.take(shown as int).push(more_lines_indicator((c.len() - shown) as nat))
    } else {
        c
    }
}

/// What `compute_entry_lines` returns, as sequences of characters.
pub open spec fn entry_lines(
    entry: ConversationEntry,
    expanded: bool,
    wrap_mode: WrapMode,
    width: u16,
    threshold: nat,
    summary: nat,
) -> Seq<Seq<char>> {
    match entry {
        ConversationEntry::Malformed(_) => seq![Seq::<char>::empty()],
        ConversationEntry::Valid(e) => collapse(
            candidate_lines(e, wrap_mode == WrapMode::Wrap, content_width(width)),
            expanded,
            threshold,
            summary,
        ).push(Seq::<char>::empty()),
    }
}

proof fn lemma_wrap_all_push(ls: Seq<Seq<char>>, l: Seq<char>, wrap: bool, width: nat)
    ensures
        wrap_all(ls.push(l), wrap, width) == wrap_all(ls, wrap, width) + wrap_line(l, wrap, width),
{
    let f = |x: Seq<char>| wrap_line(x, wrap, width);
    assert(ls.push(l).map_values(f) =~= ls.map_values(f).push(f(l)));
    ls.map_values(f).lemma_flatten_push(f(l));
}

/// Appends the physical lines of `cs[from..to]`.
fn push_wrapped(out: &mut Vec<String>, cs: &Vec<char>, from: usize, to: usize, wrap: bool, width: usize)
    requires
        from <= to <= cs.len(),
        width > 0,
    ensures
        texts(final(out)@) == texts(old(out)@) + wrap_line(
            cs@.subrange(from as int, to as int),
            wrap,
            width as nat,
        ),
{
    let ghost whole = cs@.subrange(from as int, to as int);
    if !wrap {
        let line = string_of(cs, from, to);
        out.push(line);
        assert(texts(out@) =~= texts(old(out)@) + wrap_line(whole, wrap, width as nat));
        return ;
    }
    let mut pos = from;
    let ghost mut done: Seq<Seq<char>> = Seq::empty();
    while to - pos > width
        invariant
            from <= pos <= to <= cs.len(),
            width > 0,
            whole == cs@.subrange(from as int, to as int),
            chunks(whole, width as nat) == done + chunks(cs@.subrange(pos as int, to as int), width as nat),
            texts(out@) == texts(old(out)@) + done,
        decreases to - pos,
    {
        let ghost rest = cs@.subrange(pos as int, to as int);
        let piece = string_of(cs, pos, pos + width);
        let ghost prev = texts(out@);
        let ghost pv = piece@;
        out.push(piece);
        proof {
            assert(texts(out@) =~= prev.push(pv));
            assert(rest.take(width as int) =~= cs@.subrange(pos as int, (pos + width) as int));
            assert(rest.skip(width as int) =~= cs@.subrange((pos + width) as int, to as int));
            assert(chunks(rest, width as nat) == seq![rest.take(width as int)] + chunks(
                rest.skip(width as int),
                width as nat,
            ));
            done = done.push(rest.take(width as int));
            assert(texts(out@) =~= texts(old(out)@) + done);
        }
        pos = pos + width;
        proof {
            assert(chunks(whole, width as nat) =~= done + chunks(
                cs@.subrange(pos as int, to as int),
                width as nat,
            ));
        }
    }
    let last = string_of(cs, pos, to);
    let ghost prev = texts(out@);
    let ghost lv = last@;
    out.push(last);
    proof {
        assert(texts(out@) =~= prev.push(lv));
        let rest = cs@.subrange(pos as int, to as int);
        assert(chunks(rest, width as nat) == seq![rest]);
        assert(texts(out@) =~= texts(old(out)@) + chunks(whole, width as nat));
    }
}

/// Appends the physical lines of every logical line of `s`.
fn push_text(out: &mut Vec<String>, s: &str, wrap: bool, width: usize)
    requires
        width > 0,
    ensures
        texts(final(out)@) == texts(old(out)@) + wrap_all(split_newlines(s@), wrap, width as nat),
{
    let cs = collect_chars(s);
    let n = cs.len();
    let mut start: usize = 0;
    let mut i: usize = 0;
    let ghost mut done: Seq<Seq<char>> = Seq::empty();
    proof {
        assert(cs@.take(0) =~= Seq::<char>::empty());
        assert(cs@.subrange(0, 0) =~= Seq::<char>::empty());
        assert(split_newlines(cs@.take(0)) =~= done.push(cs@.subrange(0, 0)));
        assert(texts(out@) =~= texts(old(out)@) + wrap_all(done, wrap, width as nat));
    }
    while i < n
        invariant
            n == cs.len(),
            cs@ == s@,
            start <= i <= n,
            width > 0,
            split_newlines(cs@.take(i as int)) == done.push(cs@.subrange(start as int, i as int)),
            texts(out@) == texts(old(out)@) + wrap_all(done, wrap, width as nat),
        decreases n - i,
    {
        let c = cs[i];
        proof {
            assert(cs@.take(i + 1).drop_last() =~= cs@.take(i as int));
            assert(cs@.take(i + 1).last() == c);
        }
        if c == '\n' {
            let ghost seg = cs@.subrange(start as int, i as int);
            push_wrapped(out, &cs, start, i, wrap, width);
            proof {
                lemma_wrap_all_push(done, seg, wrap, width as nat);
                done = done.push(seg);
                assert(cs@.subrange((i + 1) as int, (i + 1) as int) =~= Seq::<char>::empty());
            }
            start = i + 1;
        } else {
            proof {
                assert(cs@.subrange(start as int, i as int).push(c) =~= cs@.subrange(
                    start as int,
                    (i + 1) as int,
                ));
                assert(split_newlines(cs@.take(i + 1)) =~= done.push(
                    cs@.subrange(start as int, (i + 1) as int),
                ));
            }
        }
        i = i + 1;
    }
    let ghost seg = cs@.subrange(start as int, n as int);
    push_wrapped(out, &cs, start, n, wrap, width);
    proof {
        assert(cs@.take(n as int) =~= s@);
        lemma_wrap_all_push(done, seg, wrap, width as nat);
    }
}

/// Appends the physical lines of one block.
fn push_block(out: &mut Vec<String>, b: &ContentBlock, wrap: bool, width: usize)
    requires
        width > 0,
    ensures
        texts(final(out)@) == texts(old(out)@) + block_physical_lines(*b, wrap, width as nat),
{
    match b {
        ContentBlock::Text { text } => push_text(out, text.as_str(), wrap, width),
        ContentBlock::ToolResult { content, .. } => push_text(out, content.as_str(), wrap, width),
        ContentBlock::Thinking { thinking } => push_text(out, thinking.as_str(), wrap, width),
        ContentBlock::ToolUse { name, input } => {
            let ghost before = texts(out@);
            let mut header = String::from_str("\u{1F527} Tool: ");
            header.append(name.as_str());
            let hs = collect_chars(header.as_str());
            push_wrapped(out, &hs, 0, hs.len(), wrap, width);
            proof {
                assert(hs@.subrange(0, hs@.len() as int) =~= tool_header(name@));
            }
            push_text(out, input.as_str(), wrap, width);
            proof {
                let f = |x: Seq<char>| wrap_line(x, wrap, width as nat);
                let h = seq![tool_header(name@)];
                let rest = split_newlines(input@);
                assert((h + rest).map_values(f) =~= h.map_values(f) + rest.map_values(f));
                lemma_flatten_concat(h.map_values(f), rest.map_values(f));
                assert(h.map_values(f) =~= seq![f(tool_header(name@))]);
                h.map_values(f).lemma_flatten_one_element();
                assert(texts(out@) =~= before + block_physical_lines(*b, wrap, width as nat));
            }
        },
    }
}

/// Appends the indicator line "(+N more lines)".
fn indicator_line(n: usize) -> (r: String)
    ensures
        r@ == more_lines_indicator(n as nat),
{
    let mut s = String::from_str("(+");
    let digits = decimal_string(n);
    s.append(digits.as_str());
    s.append(" more lines)");
    s
}

/// All candidate lines of a well-formed entry.
fn entry_candidates(e: &LogEntry, wrap: bool, width: usize) -> (r: Vec<String>)
    requires
        width > 0,
    ensures
        texts(r@) == candidate_lines(*e, wrap, width as nat),
{
    let mut out: Vec<String> = Vec::new();
    let n = e.blocks.len();
    let mut i: usize = 0;
    let ghost f = |b: ContentBlock| block_physical_lines(b, wrap, width as nat);
    proof {
        assert(e.blocks@.take(0).map_values(f) =~= Seq::<Seq<Seq<char>>>::empty());
        assert(texts(out@) =~= e.blocks@.take(0).map_values(f).flatten());
    }
    while i < n
        invariant
            n == e.blocks.len(),
            i <= n,
            width > 0,
            f == (|b: ContentBlock| block_physical_lines(b, wrap, width as nat)),
            texts(out@) == e.blocks@.take(i as int).map_values(f).flatten(),
        decreases n - i,
    {
        push_block(&mut out, &e.blocks[i], wrap, width);
        proof {
            let b = e.blocks@[i as int];
            assert(e.blocks@.take(i + 1).map_values(f) =~= e.blocks@.take(i as int).map_values(
                f,
            ).push(f(b)));
            e.blocks@.take(i as int).map_values(f).lemma_flatten_push(f(b));
        }
        i = i + 1;
    }
    proof {
        assert(e.blocks@.take(n as int) =~= e.blocks@);
    }
    out
}

/// Renders one entry into display lines.
///
/// Malformed entries give a single blank separator line. Well-formed entries give
/// their candidate lines (wrapped to the content width when wrapping), shortened to
/// the first `summary_lines` lines plus a "(+N more lines)" indicator when collapsed
/// and longer than `collapse_threshold`, and always followed by one blank separator.
pub fn compute_entry_lines(
    entry: &ConversationEntry,
    expanded: bool,
    wrap_mode: WrapMode,
    width: u16,
    collapse_threshold: usize,
    summary_lines: usize,
) -> (r: Vec<String>)
    ensures
        texts(r@) == entry_lines(
            *entry,
            expanded,
            wrap_mode,
            width,
            collapse_threshold as nat,
            summary_lines as nat,
        ),
        r@.len() >= 1,
{
    match entry {
        ConversationEntry::Malformed(_) => {
            let mut out: Vec<String> = Vec::new();
            out.push(String::new());
            assert(texts(out@) =~= seq![Seq::<char>::empty()]);
            out
        },
        ConversationEntry::Valid(e) => {
            let cw: usize = if width > 2 {
                (width - 2) as usize
            } else {
                1
            };
            let wrap = match wrap_mode {
                WrapMode::Wrap => true,
                WrapMode::NoWrap => false,
            };
            let candidates = entry_candidates(e, wrap, cw);
            let ghost c = texts(candidates@);
            let mut out: Vec<String>;
            if !expanded && candidates.len() > collapse_threshold {
                let shown = if summary_lines < candidates.len() {
                    summary_lines
                } else {
                    candidates.len()
                };
                out = Vec::new();
                let mut i: usize = 0;
                while i < shown
                    invariant
                        i <= shown <= candidates.len(),
                        c == texts(candidates@),
                        texts(out@) == c.take(i as int),
                    decreases shown - i,
                {
                    let ghost prev = texts(out@);
                    out.push(candidates[i].clone());
                    assert(texts(out@) =~= prev.push(c[i as int]));
                    i = i + 1;
                    assert(texts(out@) =~= c.take(i as int));
                }
                out.push(indicator_line(candidates.len() - shown));
                assert(texts(out@) =~= collapse(c, expanded, collapse_threshold as nat, summary_lines as nat));
            } else {
                out = candidates;
            }
            out.push(String::new());
            assert(texts(out@) =~= collapse(c, expanded, collapse_threshold as nat, summary_lines as nat).push(Seq::<char>::empty()));
            out
        },
    }
}

} // verus!
