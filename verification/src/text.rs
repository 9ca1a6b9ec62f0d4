//! String helpers stated over `Seq<char>`: copying, trimming, line splitting.

use vstd::prelude::*;
use crate::chars::{char_whitespace, is_whitespace};

verus! {

/// Appends one character to a string (`String::push`).
#[verifier::external_body]
pub(crate) fn push_char(s: &mut String, c: char)
    ensures
        final(s)@ == old(s)@.push(c),
{
    s.push(c);
}

/// The view of an optional string.
pub open spec fn opt_view(o: Option<String>) -> Option<Seq<char>> {
    match o {
        Some(s) => Some(s@),
        None => None,
    }
}

/// The characters of `s`, in order.
pub fn chars_of(s: &str) -> (r: Vec<char>)
    ensures
        r@ == s@,
{
    let mut r: Vec<char> = Vec::new();
    for c in it: s.chars()
        invariant
            r@ == it.seq().take(it.index() as int),
            it.seq() == s@,
    {
        r.push(c);
    }
    r
}

/// A string holding the characters `cs[from..to]`.
pub fn string_of_range(cs: &[char], from: usize, to: usize) -> (r: String)
    requires
        from <= to <= cs@.len(),
    ensures
        r@ == cs@.subrange(from as int, to as int),
{
    let mut r = String::new();
    let mut i = from;
    while i < to
        invariant
            from <= i <= to <= cs@.len(),
            r@ == cs@.subrange(from as int, i as int),
        decreases to - i,
    {
        push_char(&mut r, cs[i]);
        i = i + 1;
    }
    r
}

/// A string holding the characters `cs`.
pub fn string_of(cs: &[char]) -> (r: String)
    ensures
        r@ == cs@,
{
    string_of_range(cs, 0, cs.len())
}

/// The first index at or after `i` whose character fails `p`, or the length.
pub open spec fn skip_while_from(s: Seq<char>, p: spec_fn(char) -> bool, i: int) -> int
    decreases s.len() - i,
{
    if i < 0 || i >= s.len() {
        s.len() as int
    } else if p(s[i]) {
        skip_while_from(s, p, i + 1)
    } else {
        i
    }
}

/// The index just after the last character before `j` that fails `p`, or 0.
pub open spec fn skip_back_while_from(s: Seq<char>, p: spec_fn(char) -> bool, j: int) -> int
    decreases j,
{
    if j <= 0 || j > s.len() {
        0
    } else if p(s[j - 1]) {
        skip_back_while_from(s, p, j - 1)
    } else {
        j
    }
}

/// `s` without its longest prefix of characters that satisfy `p`
/// (`str::trim_start_matches` with a predicate).
pub open spec fn trim_start_by(s: Seq<char>, p: spec_fn(char) -> bool) -> Seq<char> {
    s.skip(skip_while_from(s, p, 0))
}

/// `s` without its longest suffix of characters that satisfy `p`
/// (`str::trim_end_matches` with a predicate).
pub open spec fn trim_end_by(s: Seq<char>, p: spec_fn(char) -> bool) -> Seq<char> {
    s.take(skip_back_while_from(s, p, s.len() as int))
}

/// The whitespace class of `str::trim`.
pub open spec fn whitespace() -> spec_fn(char) -> bool {
    |c: char| char_whitespace(c)
}

/// `s` without leading and trailing whitespace (`str::trim`).
pub open spec fn trim(s: Seq<char>) -> Seq<char> {
    trim_end_by(trim_start_by(s, whitespace()), whitespace())
}

/// Where a run of characters that satisfy `p` from `i` ends at `e` (at the
/// end, or before a character that fails `p`), skipping from `i` lands on `e`.
pub proof fn lemma_skip_while_exact(s: Seq<char>, p: spec_fn(char) -> bool, i: int, e: int)
    requires
        0 <= i <= e <= s.len(),
        forall|j: int| i <= j < e ==> p(#[trigger] s[j]),
        e < s.len() ==> !p(s[e]),
    ensures
        skip_while_from(s, p, i) == e,
    decreases e - i,
{
    if i < e {
        lemma_skip_while_exact(s, p, i + 1, e);
    }
}

/// Skipping from `i` lands at or after `i` and within `s`.
pub proof fn lemma_skip_while_bounds(s: Seq<char>, p: spec_fn(char) -> bool, i: int)
    requires
        0 <= i <= s.len(),
    ensures
        i <= skip_while_from(s, p, i) <= s.len(),
    decreases s.len() - i,
{
    if i < s.len() && p(s[i]) {
        lemma_skip_while_bounds(s, p, i + 1);
    }
}

/// The bounds `(a, b)` such that `cs[a..b]` is `cs` trimmed of whitespace.
pub fn trim_bounds(cs: &[char]) -> (r: (usize, usize))
    ensures
        r.0 <= r.1 <= cs@.len(),
        cs@.subrange(r.0 as int, r.1 as int) == trim(cs@),
{
    let ghost s = cs@;
    let ghost p = whitespace();
    let n = cs.len();
    let mut i: usize = 0;
    while i < n && is_whitespace(cs[i])
        invariant
            0 <= i <= n == s.len(),
            s == cs@,
            p == whitespace(),
            skip_while_from(s, p, 0) == skip_while_from(s, p, i as int),
        decreases n - i,
    {
        assert(p(s[i as int]));
        i = i + 1;
    }
    let ghost t = s.skip(i as int);
    let mut j: usize = n;
    while j > i && is_whitespace(cs[j - 1])
        invariant
            0 <= i <= j <= n == s.len(),
            s == cs@,
            t == s.skip(i as int),
            p == whitespace(),
            skip_back_while_from(t, p, t.len() as int) == skip_back_while_from(t, p, j - i),
        decreases j,
    {
        assert(p(t[j - i - 1]));
        j = j - 1;
    }
    proof {
        assert(i < n ==> !p(s[i as int]));
        assert(skip_while_from(s, p, i as int) == i);
        assert(j > i ==> !p(t[j - i - 1]));
        assert(skip_back_while_from(t, p, j - i) == j - i);
        assert(t.take(j - i) =~= s.subrange(i as int, j as int));
    }
    (i, j)
}

/// `cs` trimmed of leading and trailing whitespace, as characters.
pub fn trim_chars(cs: &[char]) -> (r: Vec<char>)
    ensures
        r@ == trim(cs@),
{
    let (a, b) = trim_bounds(cs);
    let mut r: Vec<char> = Vec::new();
    let mut i = a;
    while i < b
        invariant
            a <= i <= b <= cs@.len(),
            r@ == cs@.subrange(a as int, i as int),
        decreases b - i,
    {
        r.push(cs[i]);
        i = i + 1;
    }
    r
}


/// The first index at or after `i` that holds a line feed, or the length.
pub open spec fn next_newline(s: Seq<char>, i: int) -> int
    decreases s.len() - i,
{
    if i < 0 || i >= s.len() {
        s.len() as int
    } else if s[i] == '\n' {
        i
    } else {
        next_newline(s, i + 1)
    }
}

pub proof fn lemma_next_newline_bounds(s: Seq<char>, i: int)
    requires
        0 <= i <= s.len(),
    ensures
        i <= next_newline(s, i) <= s.len(),
        next_newline(s, i) < s.len() ==> s[next_newline(s, i)] == '\n',
    decreases s.len() - i,
{
    if i < s.len() && s[i] != '\n' {
        lemma_next_newline_bounds(s, i + 1);
    }
}

/// A line that was ended by a line feed loses one carriage return before it.
pub open spec fn strip_carriage_return(l: Seq<char>) -> Seq<char> {
    if l.len() > 0 && l.last() == '\r' {
        l.drop_last()
    } else {
        l
    }
}

/// The lines of `s` from index `i` on, as `str::lines` yields them: split at
/// each `\n`, a `\r` just before that `\n` dropped, no empty line after a
/// final `\n`.
pub open spec fn lines_from(s: Seq<char>, i: int) -> Seq<Seq<char>>
    decreases s.len() - i,
{
    if i < 0 || i >= s.len() {
        seq![]
    } else {
        let k = next_newline(s, i);
        if k >= s.len() {
            seq![s.subrange(i, s.len() as int)]
        } else {
            proof {
                lemma_next_newline_bounds(s, i);
            }
            seq![strip_carriage_return(s.subrange(i, k))] + lines_from(s, k + 1)
        }
    }
}

/// The lines of `s` (`str::lines`).
pub open spec fn lines(s: Seq<char>) -> Seq<Seq<char>> {
    lines_from(s, 0)
}

/// The character sequences held by a sequence of vectors.
pub open spec fn line_views(v: Seq<Vec<char>>) -> Seq<Seq<char>> {
    v.map_values(|l: Vec<char>| l@)
}

/// Copies `cs[from..to]` into a new vector.
pub fn copy_range(cs: &[char], from: usize, to: usize) -> (r: Vec<char>)
    requires
        from <= to <= cs@.len(),
    ensures
        r@ == cs@.subrange(from as int, to as int),
{
    let mut r: Vec<char> = Vec::new();
    let mut i = from;
    while i < to
        invariant
            from <= i <= to <= cs@.len(),
            r@ == cs@.subrange(from as int, i as int),
        decreases to - i,
    {
        r.push(cs[i]);
        i = i + 1;
    }
    r
}

/// The lines of `cs`, split as `str::lines` splits them.
pub fn split_lines(cs: &[char]) -> (r: Vec<Vec<char>>)
    ensures
        line_views(r@) == lines(cs@),
{
    let ghost s = cs@;
    let n = cs.len();
    let mut r: Vec<Vec<char>> = Vec::new();
    let mut start: usize = 0;
    let mut i: usize = 0;
    while i < n
        invariant
            s == cs@,
            n == s.len(),
            start <= i <= n,
            next_newline(s, start as int) == next_newline(s, i as int),
            line_views(r@) + lines_from(s, start as int) == lines(s),
        decreases n - i,
    {
        if cs[i] == '\n' {
            let mut line = copy_range(cs, start, i);
            if line.len() > 0 && line[line.len() - 1] == '\r' {
                line.pop();
            }
            proof {
                assert(line@ == strip_carriage_return(s.subrange(start as int, i as int)));
                assert(lines_from(s, start as int) == seq![line@] + lines_from(s, i + 1));
            }
            let ghost before = r@;
            r.push(line);
            proof {
                assert(line_views(r@) =~= line_views(before).push(line@));
                assert(line_views(before) + lines_from(s, start as int) =~= line_views(r@) + lines_from(s, i + 1));
            }
            start = i + 1;
        }
        i = i + 1;
    }
    if start < n {
        let line = copy_range(cs, start, n);
        let ghost before = r@;
        r.push(line);
        proof {
            assert(line_views(r@) =~= line_views(before).push(line@));
            assert(lines_from(s, start as int) == seq![line@]);
            assert(lines_from(s, start as int) + lines_from(s, n as int) =~= seq![line@]);
        }
    }
    proof {
        assert(lines_from(s, n as int) =~= Seq::<Seq<char>>::empty());
        assert(line_views(r@) =~= lines(s));
    }
    r
}

} // verus!
