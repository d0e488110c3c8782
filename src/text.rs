//! Character-level helpers: splitting text into lines, wrapping, decimals.
use vstd::prelude::*;

verus! {

/// The text of each string of a sequence.
pub open spec fn texts(v: Seq<String>) -> Seq<Seq<char>> {
    v.map_values(|s: String| s@)
}

/// The pieces of `s` between newline characters, in order; always at least one.
pub open spec fn split_newlines(s: Seq<char>) -> Seq<Seq<char>>
    decreases s.len(),
{
    if s.len() == 0 {
        seq![Seq::<char>::empty()]
    } else {
        let prev = split_newlines(s.drop_last());
        if s.last() == '\n' {
            prev.push(Seq::<char>::empty())
        } else {
            prev.update(prev.len() - 1, prev.last().push(s.last()))
        }
    }
}

/// Consecutive chunks of `width` characters; the last one may be shorter.
pub open spec fn chunks(l: Seq<char>, width: nat) -> Seq<Seq<char>>
    recommends
        width > 0,
    decreases l.len(),
{
    if width == 0 || l.len() <= width {
        seq![l]
    } else {
        seq![l.take(width as int)] + chunks(l.skip(width as int), width)
    }
}

/// The physical lines of one logical line: split into chunks only when
/// wrapping and the line is wider than `width`.
pub open spec fn wrap_line(l: Seq<char>, wrap: bool, width: nat) -> Seq<Seq<char>> {
    if wrap {
        chunks(l, width)
    } else {
        seq![l]
    }
}

/// Number of chunks is the length divided by the width, rounded up (one for an empty line).
pub proof fn lemma_chunks_len(l: Seq<char>, width: nat)
    requires
        width > 0,
    ensures
        l.len() == 0 ==> chunks(l, width).len() == 1,
        l.len() > 0 ==> chunks(l, width).len() == (l.len() + width - 1) / width as int,
    decreases l.len(),
{
    if l.len() > width {
        lemma_chunks_len(l.skip(width as int), width);
        let n = l.len() as int;
        let w = width as int;
        assert((n - w + w - 1) / w + 1 == (n + w - 1) / w) by (nonlinear_arith)
            requires
                w > 0,
                n > w,
        {
            assert(n + w - 1 == (n - w + w - 1) + w * 1);
        }
    } else if l.len() > 0 {
        let n = l.len() as int;
        let w = width as int;
        assert((n + w - 1) / w == 1) by (nonlinear_arith)
            requires
                w > 0,
                0 < n <= w,
        ;
    }
}

pub open spec fn digit_char(d: nat) -> char {
    if d == 0 {
        '0'
    } else if d == 1 {
        '1'
    } else if d == 2 {
        '2'
    } else if d == 3 {
        '3'
    } else if d == 4 {
        '4'
    } else if d == 5 {
        '5'
    } else if d == 6 {
        '6'
    } else if d == 7 {
        '7'
    } else if d == 8 {
        '8'
    } else {
        '9'
    }
}

/// Decimal digits of `n`, most significant first, without leading zeros.
pub open spec fn decimal(n: nat) -> Seq<char>
    decreases n,
{
    if n < 10 {
        seq![digit_char(n)]
    } else {
        decimal(n / 10).push(digit_char(n % 10))
    }
}

/// Relies on `String::push`: appends one character.
#[verifier::external_body]
pub(crate) fn push_char(s: &mut String, c: char)
    ensures
        final(s)@ == old(s)@.push(c),
{
    s.push(c)
}

fn digit(d: usize) -> (c: char)
    requires
        d < 10,
    ensures
        c == digit_char(d as nat),
{
    match d {
        0 => '0',
        1 => '1',
        2 => '2',
        3 => '3',
        4 => '4',
        5 => '5',
        6 => '6',
        7 => '7',
        8 => '8',
        _ => '9',
    }
}

/// Writes `n` in decimal.
pub fn decimal_string(n: usize) -> (r: String)
    ensures
        r@ == decimal(n as nat),
    decreases n,
{
    if n < 10 {
        let mut s = String::new();
        push_char(&mut s, digit(n));
        s
    } else {
        let mut s = decimal_string(n / 10);
        push_char(&mut s, digit(n % 10));
        s
    }
}

/// The characters of `s`, in order.
pub fn collect_chars(s: &str) -> (r: Vec<char>)
    ensures
        r@ == s@,
{
    broadcast use vstd::string::axiom_spec_iter;

    let mut out: Vec<char> = Vec::new();
    for c in it: s.chars()
        invariant
            it.seq() == s@,
            out@ == s@.take(it.index() as int),
    {
        out.push(c);
        assert(out@ =~= s@.take(it.index() + 1));
    }
    assert(out@ =~= s@);
    out
}

/// The string made of `cs[from..to]`.
pub fn string_of(cs: &Vec<char>, from: usize, to: usize) -> (r: String)
    requires
        from <= to <= cs.len(),
    ensures
        r@ == cs@.subrange(from as int, to as int),
{
    let mut s = String::new();
    let mut i = from;
    while i < to
        invariant
            from <= i <= to <= cs.len(),
            s@ == cs@.subrange(from as int, i as int),
        decreases to - i,
    {
        push_char(&mut s, cs[i]);
        i = i + 1;
        assert(s@ =~= cs@.subrange(from as int, i as int));
    }
    s
}

} // verus!
