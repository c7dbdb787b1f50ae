//! Visual width of display text: every character counts one column, except
//! that terminal color sequences (an escape character, a bracket, and all
//! characters up to and including the first ASCII letter) count nothing.

use vstd::prelude::*;

use crate::text::is_alpha_char;
use crate::text::to_chars;
use crate::text::is_alpha;

verus! {

/// The position just past the first ASCII letter at or after `i`, or the
/// length of `s` when no letter follows: where a color sequence that is
/// being skipped ends.
pub open spec fn scan_end(s: Seq<char>, i: int) -> int
    decreases s.len() - i,
{
    if i < 0 || i >= s.len() {
        s.len() as int
    } else if is_alpha_char(s[i]) {
        i + 1
    } else {
        scan_end(s, i + 1)
    }
}

pub proof fn lemma_scan_end(s: Seq<char>, i: int)
    requires
        0 <= i <= s.len(),
    ensures
        i <= scan_end(s, i) <= s.len(),
    decreases s.len() - i,
{
    if i < s.len() && !is_alpha_char(s[i]) {
        lemma_scan_end(s, i + 1);
    }
}

/// Advances past the first ASCII letter at or after `from`.
fn scan_end_exec(cs: &Vec<char>, from: usize) -> (r: usize)
    requires
        from <= cs@.len(),
    ensures
        r == scan_end(cs@, from as int),
{
    let n = cs.len();
    let mut j = from;
    while j < n
        invariant
            from <= j <= n,
            n == cs@.len(),
            scan_end(cs@, from as int) == scan_end(cs@, j as int),
        decreases n - j,
    {
        if is_alpha(cs[j]) {
            return j + 1;
        }
        j = j + 1;
    }
    j
}

/// The visual width of `s` from position `i` on: one column per character,
/// zero for an escape character, and zero for everything a color sequence
/// (escape, bracket, up to and including the first letter) covers.
pub open spec fn width_from(s: Seq<char>, i: int) -> nat
    decreases s.len() - i,
    via width_from_decreases
{
    if i < 0 || i >= s.len() {
        0
    } else if s[i] == '\x1b' {
        if i + 1 < s.len() && s[i + 1] == '[' {
            width_from(s, scan_end(s, i + 2))
        } else {
            width_from(s, i + 1)
        }
    } else {
        (1 + width_from(s, i + 1)) as nat
    }
}

#[via_fn]
proof fn width_from_decreases(s: Seq<char>, i: int) {
    if 0 <= i && i < s.len() && s[i] == '\x1b' && i + 1 < s.len() && s[i + 1] == '[' {
        lemma_scan_end(s, i + 2);
    }
}

/// The visual width of `s`.
pub open spec fn spec_visual_width(s: Seq<char>) -> nat {
    width_from(s, 0)
}

/// Computes the visual width of `s`: the number of columns the terminal
/// advances when printing it, with color sequences counting zero.
pub fn get_string_length(s: &str) -> (r: usize)
    ensures
        r == spec_visual_width(s@),
{
    let cs = to_chars(s);
    let n = cs.len();
    let mut i: usize = 0;
    let mut w: usize = 0;
    while i < n
        invariant
            i <= n,
            w <= i,
            n == cs@.len(),
            cs@ == s@,
            w + width_from(s@, i as int) == spec_visual_width(s@),
        decreases n - i,
    {
        if cs[i] == '\x1b' {
            if i + 1 < n && cs[i + 1] == '[' {
                let next = scan_end_exec(&cs, i + 2);
                proof {
                    lemma_scan_end(s@, i + 2);
                }
                i = next;
            } else {
                i = i + 1;
            }
        } else {
            w = w + 1;
            i = i + 1;
        }
    }
    w
}

/// A whole terminal color sequence: the escape character, a bracket, any
/// run of non-letters, and one closing ASCII letter.
pub open spec fn is_color_escape(e: Seq<char>) -> bool {
    &&& e.len() >= 3
    &&& e[0] == '\x1b'
    &&& e[1] == '['
    &&& is_alpha_char(e[e.len() - 1])
    &&& forall|j: int| 2 <= j < e.len() - 1 ==> !is_alpha_char(e[j])
}

proof fn lemma_scan_end_shift(e: Seq<char>, s: Seq<char>, j: int)
    requires
        0 <= j <= s.len(),
    ensures
        scan_end(e + s, e.len() + j) == e.len() + scan_end(s, j),
    decreases s.len() - j,
{
    let t = e + s;
    if j < s.len() {
        assert(t[e.len() + j] == s[j]);
        if !is_alpha_char(s[j]) {
            lemma_scan_end_shift(e, s, j + 1);
        }
    }
}

proof fn lemma_width_from_shift(e: Seq<char>, s: Seq<char>, k: int)
    requires
        0 <= k <= s.len(),
    ensures
        width_from(e + s, e.len() + k) == width_from(s, k),
    decreases s.len() - k,
{
    let t = e + s;
    if k < s.len() {
        assert(t[e.len() + k] == s[k]);
        if s[k] == '\x1b' {
            if k + 1 < s.len() && s[k + 1] == '[' {
                assert(t[e.len() + k + 1] == s[k + 1]);
                lemma_scan_end_shift(e, s, k + 2);
                lemma_scan_end(s, k + 2);
                lemma_width_from_shift(e, s, scan_end(s, k + 2));
            } else {
                if e.len() + k + 1 < t.len() {
                    assert(t[e.len() + k + 1] == s[k + 1]);
                }
                lemma_width_from_shift(e, s, k + 1);
            }
        } else {
            lemma_width_from_shift(e, s, k + 1);
        }
    }
}

proof fn lemma_scan_end_within(e: Seq<char>, s: Seq<char>)
    requires
        is_color_escape(e),
    ensures
        scan_end(e + s, 2) == e.len(),
{
    let t = e + s;
    lemma_scan_end_stops(t, 2, e.len() - 1);
}

proof fn lemma_scan_end_stops(t: Seq<char>, j: int, stop: int)
    requires
        0 <= j <= stop < t.len(),
        forall|x: int| j <= x < stop ==> !is_alpha_char(t[x]),
        is_alpha_char(t[stop]),
    ensures
        scan_end(t, j) == stop + 1,
    decreases stop - j,
{
    if j < stop {
        lemma_scan_end_stops(t, j + 1, stop);
    }
}

/// A color sequence adds nothing to the visual width of what follows it.
///
/// Together with `lemma_width_plain` this pins the width of any text built
/// from well-formed color sequences and printable characters: only the
/// printable characters count.
pub proof fn lemma_width_escape_prefix(e: Seq<char>, s: Seq<char>)
    requires
        is_color_escape(e),
    ensures
        spec_visual_width(e + s) == spec_visual_width(s),
{
    let t = e + s;
    assert(t[0] == '\x1b');
    assert(t[1] == '[');
    lemma_scan_end_within(e, s);
    lemma_width_from_shift(e, s, 0);
}

/// A run of printable characters adds exactly its length to the visual
/// width of what follows it.
///
/// With `lemma_width_escape_prefix` this decomposes any text built from
/// color sequences and printable runs: the width is the number of
/// printable characters, and the sequences count nothing.
pub proof fn lemma_width_plain_prefix(p: Seq<char>, s: Seq<char>)
    requires
        forall|i: int| 0 <= i < p.len() ==> p[i] != '\x1b',
    ensures
        spec_visual_width(p + s) == p.len() + spec_visual_width(s),
{
    lemma_width_from_plain_prefix(p, s, 0);
    lemma_width_from_shift(p, s, 0);
}

proof fn lemma_width_from_plain_prefix(p: Seq<char>, s: Seq<char>, i: int)
    requires
        0 <= i <= p.len(),
        forall|j: int| 0 <= j < p.len() ==> p[j] != '\x1b',
    ensures
        width_from(p + s, i) == (p.len() - i) + width_from(p + s, p.len() as int),
    decreases p.len() - i,
{
    if i < p.len() {
        assert((p + s)[i] == p[i]);
        lemma_width_from_plain_prefix(p, s, i + 1);
    }
}

/// A span wrapped in color — a start sequence, printable text, a reset —
/// has the printable text's character count as its visual width.
pub proof fn lemma_width_colored_span(open: Seq<char>, text: Seq<char>, close: Seq<char>)
    requires
        is_color_escape(open),
        is_color_escape(close),
        forall|i: int| 0 <= i < text.len() ==> text[i] != '\x1b',
    ensures
        spec_visual_width(open + text + close) == text.len(),
{
    lemma_width_escape_prefix(open, text + close);
    lemma_width_plain_prefix(text, close);
    lemma_width_escape_prefix(close, Seq::empty());
    assert(close + Seq::<char>::empty() =~= close);
    assert(open + text + close =~= open + (text + close));
}

/// Text with no escape character has its character count as visual width.
pub proof fn lemma_width_plain(s: Seq<char>)
    requires
        forall|i: int| 0 <= i < s.len() ==> s[i] != '\x1b',
    ensures
        spec_visual_width(s) == s.len(),
{
    lemma_width_from_plain(s, 0);
}

proof fn lemma_width_from_plain(s: Seq<char>, i: int)
    requires
        0 <= i <= s.len(),
        forall|j: int| i <= j < s.len() ==> s[j] != '\x1b',
    ensures
        width_from(s, i) == s.len() - i,
    decreases s.len() - i,
{
    if i < s.len() {
        lemma_width_from_plain(s, i + 1);
    }
}

} // verus!
