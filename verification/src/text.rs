//! Character-level text machinery shared by the probes and the renderer:
//! line and token splitting, searching, trimming and ASCII case folding,
//! each specified over sequences of characters.

use vstd::prelude::*;
use vstd::string::*;
use vstd::std_specs::iter::IteratorSpec;

verus! {

/// ASCII whitespace, the separator set of the interfaces parsed here.
pub open spec fn is_space_char(c: char) -> bool {
    c == ' ' || c == '\t' || c == '\n' || c == '\r' || c == '\x0c'
}

/// Whether `c` is an ASCII letter.
pub open spec fn is_alpha_char(c: char) -> bool {
    (97 <= c as int && c as int <= 122) || (65 <= c as int && c as int <= 90)
}

/// Whether `c` is a decimal digit.
pub open spec fn is_digit_char(c: char) -> bool {
    48 <= c as int && c as int <= 57
}

/// The ASCII lowering of `c`: letters `A`..`Z` fold, all else stays.
pub open spec fn lower_char(c: char) -> char {
    if 65 <= c as int && c as int <= 90 {
        (((c as int) + 32) as u8) as char
    } else {
        c
    }
}

/// Whether `c` is ASCII whitespace.
pub fn is_space(c: char) -> (r: bool)
    ensures
        r == is_space_char(c),
{
    c == ' ' || c == '\t' || c == '\n' || c == '\r' || c == '\x0c'
}

/// Whether `c` is an ASCII letter.
pub fn is_alpha(c: char) -> (r: bool)
    ensures
        r == is_alpha_char(c),
{
    let u = c as u32;
    (97 <= u && u <= 122) || (65 <= u && u <= 90)
}

/// Whether `c` is a decimal digit.
pub fn is_digit(c: char) -> (r: bool)
    ensures
        r == is_digit_char(c),
{
    let u = c as u32;
    48 <= u && u <= 57
}

/// The ASCII lowering of `c`.
pub fn to_lower(c: char) -> (r: char)
    ensures
        r == lower_char(c),
{
    let u = c as u32;
    if 65 <= u && u <= 90 {
        ((u + 32) as u8) as char
    } else {
        c
    }
}

/// Copies the characters of `s` into a vector for constant-time indexing.
pub fn to_chars(s: &str) -> (r: Vec<char>)
    ensures
        r@ == s@,
{
    let mut it = s.chars();
    let mut r: Vec<char> = Vec::new();
    proof {
        assert(r@ + it.remaining() =~= s@);
    }
    loop
        invariant
            it.decrease() is Some,
            r@ + it.remaining() == s@,
        ensures
            r@ == s@,
        decreases it.decrease()->0,
    {
        match it.next() {
            Some(c) => {
                r.push(c);
                proof {
                    assert(r@ + it.remaining() =~= s@);
                }
            },
            None => {
                proof {
                    assert(r@ =~= s@);
                }
                break ;
            },
        }
    }
    r
}

/// The first position of `c` in `s` at or after `i`, or the length of `s`.
pub open spec fn find_from(s: Seq<char>, i: int, c: char) -> int
    decreases s.len() - i,
{
    if i < 0 || i >= s.len() {
        s.len() as int
    } else if s[i] == c {
        i
    } else {
        find_from(s, i + 1, c)
    }
}

pub proof fn lemma_find_from(s: Seq<char>, i: int, c: char)
    requires
        0 <= i <= s.len(),
    ensures
        i <= find_from(s, i, c) <= s.len(),
        forall|j: int| i <= j < find_from(s, i, c) ==> s[j] != c,
        find_from(s, i, c) < s.len() ==> s[find_from(s, i, c)] == c,
    decreases s.len() - i,
{
    if i < s.len() && s[i] != c {
        lemma_find_from(s, i + 1, c);
    }
}

/// Finds the first position of `c` in `cs` at or after `from`.
pub fn find_char(cs: &Vec<char>, from: usize, c: char) -> (r: usize)
    requires
        from <= cs@.len(),
    ensures
        r == find_from(cs@, from as int, c),
{
    let n = cs.len();
    let mut j = from;
    while j < n
        invariant
            from <= j <= n,
            n == cs@.len(),
            find_from(cs@, from as int, c) == find_from(cs@, j as int, c),
        decreases n - j,
    {
        if cs[j] == c {
            return j;
        }
        j = j + 1;
    }
    j
}

/// The last position of `c` in `s` strictly before `j`, or `-1`.
pub open spec fn rfind_before(s: Seq<char>, j: int, c: char) -> int
    decreases j,
{
    if j <= 0 || j > s.len() {
        -1
    } else if s[j - 1] == c {
        j - 1
    } else {
        rfind_before(s, j - 1, c)
    }
}

pub proof fn lemma_rfind_before(s: Seq<char>, j: int, c: char)
    requires
        0 <= j <= s.len(),
    ensures
        -1 <= rfind_before(s, j, c) < j,
        forall|t: int| rfind_before(s, j, c) < t < j ==> s[t] != c,
        rfind_before(s, j, c) >= 0 ==> s[rfind_before(s, j, c)] == c,
    decreases j,
{
    if j > 0 && s[j - 1] != c {
        lemma_rfind_before(s, j - 1, c);
    }
}

/// Finds the last position of `c` in `cs`, reported as the position plus one
/// so that zero means "not present".
pub fn rfind_char(cs: &Vec<char>, c: char) -> (r: usize)
    ensures
        r == rfind_before(cs@, cs@.len() as int, c) + 1,
{
    let mut j = cs.len();
    while j > 0
        invariant
            j <= cs@.len(),
            rfind_before(cs@, cs@.len() as int, c) == rfind_before(cs@, j as int, c),
        decreases j,
    {
        if cs[j - 1] == c {
            return j;
        }
        j = j - 1;
    }
    0
}

/// The end of the whitespace run starting at `i`: the first position at or
/// after `i` that holds a non-space character, or the length of `s`.
pub open spec fn skip_spaces(s: Seq<char>, i: int) -> int
    decreases s.len() - i,
{
    if i < 0 || i >= s.len() {
        s.len() as int
    } else if !is_space_char(s[i]) {
        i
    } else {
        skip_spaces(s, i + 1)
    }
}

pub proof fn lemma_skip_spaces(s: Seq<char>, i: int)
    requires
        0 <= i <= s.len(),
    ensures
        i <= skip_spaces(s, i) <= s.len(),
        forall|j: int| i <= j < skip_spaces(s, i) ==> is_space_char(s[j]),
        skip_spaces(s, i) < s.len() ==> !is_space_char(s[skip_spaces(s, i)]),
    decreases s.len() - i,
{
    if i < s.len() && is_space_char(s[i]) {
        lemma_skip_spaces(s, i + 1);
    }
}

/// Advances past the whitespace run starting at `from`.
pub fn skip_spaces_exec(cs: &Vec<char>, from: usize) -> (r: usize)
    requires
        from <= cs@.len(),
    ensures
        r == skip_spaces(cs@, from as int),
{
    let n = cs.len();
    let mut j = from;
    while j < n
        invariant
            from <= j <= n,
            n == cs@.len(),
            skip_spaces(cs@, from as int) == skip_spaces(cs@, j as int),
        decreases n - j,
    {
        if !is_space(cs[j]) {
            return j;
        }
        j = j + 1;
    }
    j
}

/// The end of the token starting at `i`: the first position at or after `i`
/// that holds whitespace, or the length of `s`.
pub open spec fn token_end(s: Seq<char>, i: int) -> int
    decreases s.len() - i,
{
    if i < 0 || i >= s.len() {
        s.len() as int
    } else if is_space_char(s[i]) {
        i
    } else {
        token_end(s, i + 1)
    }
}

pub proof fn lemma_token_end(s: Seq<char>, i: int)
    requires
        0 <= i <= s.len(),
    ensures
        i <= token_end(s, i) <= s.len(),
        forall|j: int| i <= j < token_end(s, i) ==> !is_space_char(s[j]),
        token_end(s, i) < s.len() ==> is_space_char(s[token_end(s, i)]),
        i < s.len() && !is_space_char(s[i]) ==> token_end(s, i) > i,
    decreases s.len() - i,
{
    if i < s.len() && !is_space_char(s[i]) {
        lemma_token_end(s, i + 1);
    }
}

/// Finds the end of the token starting at `from`.
pub fn token_end_exec(cs: &Vec<char>, from: usize) -> (r: usize)
    requires
        from <= cs@.len(),
    ensures
        r == token_end(cs@, from as int),
{
    let n = cs.len();
    let mut j = from;
    while j < n
        invariant
            from <= j <= n,
            n == cs@.len(),
            token_end(cs@, from as int) == token_end(cs@, j as int),
        decreases n - j,
    {
        if is_space(cs[j]) {
            return j;
        }
        j = j + 1;
    }
    j
}

/// The whitespace-separated tokens of `s` from position `i` on.
pub open spec fn tokens_from(s: Seq<char>, i: int) -> Seq<Seq<char>>
    decreases s.len() - i,
    via tokens_from_decreases
{
    if i < 0 || i >= s.len() {
        Seq::empty()
    } else if is_space_char(s[i]) {
        tokens_from(s, i + 1)
    } else {
        seq![s.subrange(i, token_end(s, i))] + tokens_from(s, token_end(s, i))
    }
}

#[via_fn]
proof fn tokens_from_decreases(s: Seq<char>, i: int) {
    if 0 <= i && i < s.len() && !is_space_char(s[i]) {
        lemma_token_end(s, i);
    }
}

/// The whitespace-separated tokens of `s`.
pub open spec fn spec_tokens(s: Seq<char>) -> Seq<Seq<char>> {
    tokens_from(s, 0)
}

pub proof fn lemma_tokens_skip_spaces(s: Seq<char>, i: int)
    requires
        0 <= i <= s.len(),
    ensures
        tokens_from(s, i) == tokens_from(s, skip_spaces(s, i)),
    decreases s.len() - i,
{
    if i < s.len() && is_space_char(s[i]) {
        lemma_tokens_skip_spaces(s, i + 1);
    }
}

/// Splits `s` into its whitespace-separated tokens.
pub fn split_whitespace_tokens(s: &str) -> (r: Vec<String>)
    ensures
        r.deep_view() == spec_tokens(s@),
{
    let cs = to_chars(s);
    let n = cs.len();
    let mut r: Vec<String> = Vec::new();
    let mut i: usize = 0;
    proof {
        assert(r.deep_view() + tokens_from(s@, 0) =~= tokens_from(s@, 0));
    }
    while i < n
        invariant
            i <= n,
            n == cs@.len(),
            cs@ == s@,
            r.deep_view() + tokens_from(s@, i as int) == tokens_from(s@, 0),
        decreases n - i,
    {
        let ghost old_deep = r.deep_view();
        let j = skip_spaces_exec(&cs, i);
        proof {
            lemma_tokens_skip_spaces(s@, i as int);
            lemma_skip_spaces(s@, i as int);
        }
        if j >= n {
            i = j;
            proof {
                assert(r.deep_view() + tokens_from(s@, i as int) =~= tokens_from(s@, 0));
            }
        } else {
            let e = token_end_exec(&cs, j);
            proof {
                lemma_token_end(s@, j as int);
            }
            let t = s.substring_char(j, e);
            r.push(String::from_str(t));
            i = e;
            proof {
                assert(tokens_from(s@, j as int) == seq![s@.subrange(j as int, e as int)]
                    + tokens_from(s@, e as int));
                assert(r.deep_view() =~= old_deep.push(t@));
                assert(r.deep_view() + tokens_from(s@, i as int) =~= tokens_from(s@, 0));
            }
        }
    }
    proof {
        assert(r.deep_view() =~= tokens_from(s@, 0));
    }
    r
}

/// The lines of `s` from position `i` on, split at newline characters, each
/// line stripped of a carriage return that stood before its newline.
pub open spec fn lines_from(s: Seq<char>, i: int) -> Seq<Seq<char>>
    decreases s.len() - i,
    via lines_from_decreases
{
    if i < 0 || i >= s.len() {
        Seq::empty()
    } else {
        let e = find_from(s, i, '\n');
        let c = if e < s.len() && e > i && s[e - 1] == '\r' {
            e - 1
        } else {
            e
        };
        if e < s.len() {
            seq![s.subrange(i, c)] + lines_from(s, e + 1)
        } else {
            seq![s.subrange(i, c)]
        }
    }
}

#[via_fn]
proof fn lines_from_decreases(s: Seq<char>, i: int) {
    if 0 <= i && i < s.len() {
        lemma_find_from(s, i, '\n');
    }
}

/// The lines of `s`.
pub open spec fn spec_lines(s: Seq<char>) -> Seq<Seq<char>> {
    lines_from(s, 0)
}

/// Splits `s` into its lines.
pub fn split_lines(s: &str) -> (r: Vec<String>)
    ensures
        r.deep_view() == spec_lines(s@),
{
    let cs = to_chars(s);
    let n = cs.len();
    let mut r: Vec<String> = Vec::new();
    let mut i: usize = 0;
    proof {
        assert(r.deep_view() + lines_from(s@, 0) =~= lines_from(s@, 0));
    }
    while i < n
        invariant
            i <= n,
            n == cs@.len(),
            cs@ == s@,
            r.deep_view() + lines_from(s@, i as int) == lines_from(s@, 0),
        decreases n - i,
    {
        let ghost old_deep = r.deep_view();
        let e = find_char(&cs, i, '\n');
        proof {
            lemma_find_from(s@, i as int, '\n');
        }
        let c_end = if e < n && e > i && cs[e - 1] == '\r' {
            e - 1
        } else {
            e
        };
        let t = s.substring_char(i, c_end);
        r.push(String::from_str(t));
        proof {
            assert(r.deep_view() =~= old_deep.push(t@));
        }
        if e < n {
            i = e + 1;
        } else {
            i = n;
        }
        proof {
            assert(r.deep_view() + lines_from(s@, i as int) =~= lines_from(s@, 0));
        }
    }
    proof {
        assert(r.deep_view() =~= lines_from(s@, 0));
    }
    r
}

/// The end of trailing whitespace removal: the least `b` such that
/// `s.subrange(0, b)` ends in a non-space character, scanning down from `j`.
pub open spec fn trim_end_idx(s: Seq<char>, j: int) -> int
    decreases j,
{
    if j <= 0 || j > s.len() {
        0
    } else if is_space_char(s[j - 1]) {
        trim_end_idx(s, j - 1)
    } else {
        j
    }
}

pub proof fn lemma_trim_end_idx(s: Seq<char>, j: int)
    requires
        0 <= j <= s.len(),
    ensures
        0 <= trim_end_idx(s, j) <= j,
    decreases j,
{
    if j > 0 && is_space_char(s[j - 1]) {
        lemma_trim_end_idx(s, j - 1);
    }
}

/// `s` with leading and trailing whitespace removed.
pub open spec fn spec_trim(s: Seq<char>) -> Seq<char> {
    let a = skip_spaces(s, 0);
    let b = trim_end_idx(s, s.len() as int);
    if a < b {
        s.subrange(a, b)
    } else {
        Seq::empty()
    }
}

/// Removes leading and trailing whitespace.
pub fn trimmed(s: &str) -> (r: String)
    ensures
        r@ == spec_trim(s@),
{
    let cs = to_chars(s);
    let n = cs.len();
    let a = skip_spaces_exec(&cs, 0);
    proof {
        lemma_skip_spaces(s@, 0);
    }
    let mut b = n;
    while b > 0 && is_space(cs[b - 1])
        invariant
            b <= n,
            n == cs@.len(),
            cs@ == s@,
            trim_end_idx(s@, n as int) == trim_end_idx(s@, b as int),
        decreases b,
    {
        b = b - 1;
    }
    proof {
        assert(trim_end_idx(s@, b as int) == b);
    }
    if a < b {
        String::from_str(s.substring_char(a, b))
    } else {
        String::new()
    }
}

/// Whether `p` occurs in `s` starting at position `at`.
pub open spec fn has_prefix_at(s: Seq<char>, p: Seq<char>, at: int) -> bool {
    0 <= at && at + p.len() <= s.len() && s.subrange(at, at + p.len()) == p
}

/// Whether `s` starts with `p`.
pub open spec fn has_prefix(s: Seq<char>, p: Seq<char>) -> bool {
    has_prefix_at(s, p, 0)
}

/// Checks whether `p` occurs in `cs` at position `at`.
pub fn prefix_at(cs: &Vec<char>, ps: &Vec<char>, at: usize) -> (r: bool)
    ensures
        r == has_prefix_at(cs@, ps@, at as int),
{
    if at > cs.len() || cs.len() - at < ps.len() {
        return false;
    }
    let n = cs.len();
    let mut k: usize = 0;
    while k < ps.len()
        invariant
            n == cs@.len(),
            at + ps@.len() <= n,
            k <= ps@.len(),
            forall|t: int| 0 <= t < k ==> cs@[at + t] == ps@[t],
        decreases ps@.len() - k,
    {
        if cs[at + k] != ps[k] {
            proof {
                assert(cs@.subrange(at as int, at + ps@.len())[k as int] != ps@[k as int]);
            }
            return false;
        }
        k = k + 1;
    }
    proof {
        assert(cs@.subrange(at as int, at + ps@.len()) =~= ps@);
    }
    true
}

/// Whether `p` occurs anywhere in `s`.
pub open spec fn contains_seq(s: Seq<char>, p: Seq<char>) -> bool {
    exists|k: int| has_prefix_at(s, p, k)
}

/// Checks whether `ps` occurs anywhere in `cs`.
pub fn contains_chars(cs: &Vec<char>, ps: &Vec<char>) -> (r: bool)
    ensures
        r == contains_seq(cs@, ps@),
{
    if ps.len() > cs.len() {
        proof {
            assert forall|t: int| !has_prefix_at(cs@, ps@, t) by {}
        }
        return false;
    }
    let last = cs.len() - ps.len();
    let mut k: usize = 0;
    loop
        invariant
            ps@.len() <= cs@.len(),
            last == cs@.len() - ps@.len(),
            k <= last,
            forall|t: int| 0 <= t < k ==> !has_prefix_at(cs@, ps@, t),
        ensures
            forall|t: int| !has_prefix_at(cs@, ps@, t),
        decreases last - k,
    {
        if prefix_at(cs, ps, k) {
            return true;
        }
        if k == last {
            proof {
                assert forall|t: int| !has_prefix_at(cs@, ps@, t) by {
                    if 0 <= t < k {
                    }
                }
            }
            break ;
        }
        k = k + 1;
    }
    false
}

/// Checks whether the literal `p` occurs anywhere in `cs`.
pub fn contains_lit(cs: &Vec<char>, p: &str) -> (r: bool)
    ensures
        r == contains_seq(cs@, p@),
{
    let ps = to_chars(p);
    contains_chars(cs, &ps)
}

/// The ASCII-lowered copy of `s`.
pub open spec fn spec_lower(s: Seq<char>) -> Seq<char> {
    s.map_values(|c: char| lower_char(c))
}

/// Lowers every ASCII capital in `cs`.
pub fn lower_all(cs: &Vec<char>) -> (r: Vec<char>)
    ensures
        r@ == spec_lower(cs@),
{
    let mut r: Vec<char> = Vec::new();
    let mut i: usize = 0;
    while i < cs.len()
        invariant
            i <= cs@.len(),
            r@.len() == i,
            forall|t: int| 0 <= t < i ==> r@[t] == lower_char(cs@[t]),
        decreases cs@.len() - i,
    {
        r.push(to_lower(cs[i]));
        i = i + 1;
    }
    proof {
        assert(r@ =~= spec_lower(cs@));
    }
    r
}

} // verus!
