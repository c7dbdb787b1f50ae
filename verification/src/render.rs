//! Side-by-side rendering: the logo column padded to a common visual
//! width, the info column beside it, row by row, with the shorter column
//! padded by blank rows.

use vstd::prelude::*;
use vstd::string::*;

use crate::width::get_string_length;
use crate::width::spec_visual_width;

verus! {

/// A run of `n` spaces.
pub open spec fn spec_spaces(n: nat) -> Seq<char> {
    Seq::new(n, |i: int| ' ')
}

/// Builds a run of `n` spaces.
pub fn spaces(n: usize) -> (r: String)
    ensures
        r@ == spec_spaces(n as nat),
{
    let mut r = String::new();
    let mut i: usize = 0;
    while i < n
        invariant
            i <= n,
            r@ == spec_spaces(i as nat),
        decreases n - i,
    {
        r.append(" ");
        i = i + 1;
        proof {
            reveal_strlit(" ");
            assert(r@ =~= spec_spaces(i as nat));
        }
    }
    r
}

/// The greatest visual width among the rows of `ls`.
pub open spec fn spec_max_width(ls: Seq<Seq<char>>) -> nat
    decreases ls.len(),
{
    if ls.len() == 0 {
        0
    } else {
        let rest = spec_max_width(ls.drop_last());
        if spec_visual_width(ls.last()) > rest {
            spec_visual_width(ls.last())
        } else {
            rest
        }
    }
}

/// Every row's visual width is at most the maximum.
pub proof fn lemma_max_width_bound(ls: Seq<Seq<char>>, i: int)
    requires
        0 <= i < ls.len(),
    ensures
        spec_visual_width(ls[i]) <= spec_max_width(ls),
    decreases ls.len(),
{
    if i < ls.len() - 1 {
        lemma_max_width_bound(ls.drop_last(), i);
        assert(ls.drop_last()[i] == ls[i]);
    }
}

/// Computes the greatest visual width among `lines`.
pub fn max_visual_width(lines: &Vec<String>) -> (r: usize)
    ensures
        r == spec_max_width(lines.deep_view()),
{
    let mut m: usize = 0;
    let mut i: usize = 0;
    proof {
        assert(lines.deep_view().take(0) =~= Seq::<Seq<char>>::empty());
    }
    while i < lines.len()
        invariant
            i <= lines@.len(),
            lines.deep_view().len() == lines@.len(),
            m == spec_max_width(lines.deep_view().take(i as int)),
        decreases lines@.len() - i,
    {
        let w = get_string_length(lines[i].as_str());
        proof {
            let d = lines.deep_view();
            assert(d[i as int] == lines@[i as int]@);
            assert(d.take(i + 1).drop_last() =~= d.take(i as int));
            assert(d.take(i + 1).last() == d[i as int]);
        }
        if w > m {
            m = w;
        }
        i = i + 1;
    }
    proof {
        assert(lines.deep_view().take(lines@.len() as int) =~= lines.deep_view());
    }
    m
}

/// One output row: the logo row (or blanks) padded on the right so that
/// every info row starts at the same column, then the info row (or
/// nothing).
pub open spec fn spec_render_row(
    ls: Seq<Seq<char>>,
    info: Seq<Seq<char>>,
    maxw: nat,
    gap: nat,
    i: int,
) -> Seq<char>
    recommends
        0 <= i,
        forall|t: int| 0 <= t < ls.len() ==> spec_visual_width(ls[t]) <= maxw,
{
    (if i < ls.len() {
        ls[i] + spec_spaces((maxw - spec_visual_width(ls[i]) + gap) as nat)
    } else {
        spec_spaces((maxw + gap) as nat)
    }) + (if i < info.len() {
        info[i]
    } else {
        Seq::empty()
    })
}

/// The whole report: one row per index up to the longer of the two
/// columns, each row as `spec_render_row` gives it with the logo's own
/// maximum width.
pub open spec fn spec_render(ls: Seq<Seq<char>>, info: Seq<Seq<char>>, gap: nat) -> Seq<
    Seq<char>,
> {
    let rows = if ls.len() > info.len() {
        ls.len()
    } else {
        info.len()
    };
    Seq::new(rows, |i: int| spec_render_row(ls, info, spec_max_width(ls), gap, i))
}

/// Interleaves the logo and info columns into the printable rows.  The
/// result has one row per index up to the longer column; rows where the
/// logo is exhausted carry blank padding of the full logo width plus the
/// gap, and rows where the info column is exhausted end after the padding.
pub fn render_rows(logo: &Vec<String>, info: &Vec<String>, gap: usize) -> (r: Vec<String>)
    requires
        spec_max_width(logo.deep_view()) + gap <= usize::MAX,
    ensures
        r.deep_view() == spec_render(logo.deep_view(), info.deep_view(), gap as nat),
{
    let maxw = max_visual_width(logo);
    let rows = if logo.len() > info.len() {
        logo.len()
    } else {
        info.len()
    };
    let mut r: Vec<String> = Vec::new();
    let mut i: usize = 0;
    while i < rows
        invariant
            i <= rows,
            maxw == spec_max_width(logo.deep_view()),
            maxw + gap <= usize::MAX,
            logo.deep_view().len() == logo@.len(),
            info.deep_view().len() == info@.len(),
            rows == (if logo@.len() > info@.len() {
                logo@.len()
            } else {
                info@.len()
            }),
            r.deep_view().len() == i,
            forall|t: int|
                0 <= t < i ==> r.deep_view()[t] == spec_render_row(
                    logo.deep_view(),
                    info.deep_view(),
                    maxw as nat,
                    gap as nat,
                    t,
                ),
        decreases rows - i,
    {
        let mut row: String;
        if i < logo.len() {
            proof {
                lemma_max_width_bound(logo.deep_view(), i as int);
                assert(logo.deep_view()[i as int] == logo@[i as int]@);
            }
            row = logo[i].clone();
            let w = get_string_length(logo[i].as_str());
            let pad = spaces(maxw - w + gap);
            row.append(pad.as_str());
        } else {
            row = spaces(maxw + gap);
        }
        if i < info.len() {
            proof {
                assert(info.deep_view()[i as int] == info@[i as int]@);
            }
            row.append(info[i].as_str());
        }
        proof {
            assert(row@ =~= spec_render_row(
                logo.deep_view(),
                info.deep_view(),
                maxw as nat,
                gap as nat,
                i as int,
            ));
        }
        let ghost old_deep = r.deep_view();
        r.push(row);
        i = i + 1;
        proof {
            assert(r.deep_view() =~= old_deep.push(r@[i - 1]@));
        }
    }
    proof {
        assert(r.deep_view() =~= spec_render(logo.deep_view(), info.deep_view(), gap as nat));
    }
    r
}

} // verus!
