//! Uptime decomposition: whole seconds split into days, hours and minutes.

use vstd::prelude::*;
use vstd::string::*;

use crate::numfmt::all_digit_chars;
use crate::numfmt::dec_str;
use crate::numfmt::digits_val;
use crate::numfmt::parse_digits;
use crate::numfmt::u64_to_string;
use crate::text::find_char;
use crate::text::find_from;
use crate::text::is_digit;
use crate::text::lemma_find_from;
use crate::text::spec_tokens;
use crate::text::split_whitespace_tokens;
use crate::text::to_chars;

verus! {

/// The whole seconds of the uptime interface: the first whitespace-
/// separated field, a run of digits optionally followed by a point and a
/// fractional digit run, read up to the point.  Anything else — no field,
/// stray characters, a value too large for the type — yields no value.
pub open spec fn spec_uptime_seconds(s: Seq<char>) -> Option<u64> {
    let toks = spec_tokens(s);
    if toks.len() == 0 {
        None
    } else {
        let t = toks[0];
        let dot = find_from(t, 0, '.');
        let whole = t.subrange(0, dot);
        let frac = if dot < t.len() {
            t.subrange(dot + 1, t.len() as int)
        } else {
            Seq::empty()
        };
        if whole.len() >= 1 && all_digit_chars(whole) && all_digit_chars(frac) && digits_val(whole)
            <= u64::MAX {
            Some(digits_val(whole) as u64)
        } else {
            None
        }
    }
}

/// Reads the uptime interface's first field as whole seconds.
pub fn parse_uptime_seconds(contents: &str) -> (r: Option<u64>)
    ensures
        r == spec_uptime_seconds(contents@),
{
    let toks = split_whitespace_tokens(contents);
    if toks.len() == 0 {
        return None;
    }
    proof {
        assert(toks.deep_view()[0] == toks@[0]@);
    }
    let t = toks[0].as_str();
    let tcs = to_chars(t);
    let dot = find_char(&tcs, 0, '.');
    proof {
        lemma_find_from(t@, 0, '.');
    }
    if dot == 0 {
        return None;
    }
    if dot < tcs.len() {
        let ghost frac = t@.subrange(dot + 1, t@.len() as int);
        let mut j = dot + 1;
        while j < tcs.len()
            invariant
                dot + 1 <= j <= tcs@.len(),
                tcs@ == t@,
                toks.deep_view() == spec_tokens(contents@),
                toks@.len() > 0,
                toks.deep_view()[0] == t@,
                dot == find_from(t@, 0, '.'),
                0 < dot < t@.len(),
                frac == t@.subrange(dot + 1, t@.len() as int),
                forall|k: int| dot + 1 <= k < j ==> crate::text::is_digit_char(t@[k]),
            decreases tcs@.len() - j,
        {
            if !is_digit(tcs[j]) {
                proof {
                    assert(frac[j - dot - 1] == t@[j as int]);
                }
                return None;
            }
            j = j + 1;
        }
        proof {
            assert(forall|k: int| 0 <= k < frac.len() ==> frac[k] == t@[dot + 1 + k]);
        }
    }
    let whole = t.substring_char(0, dot);
    let wcs = to_chars(whole);
    proof {
        assert(wcs@ =~= wcs@.skip(0));
    }
    parse_digits(&wcs, 0)
}

/// The text `Uptime::get` produces: day, hour and minute counts with their
/// localized unit labels.
pub open spec fn spec_uptime_text(days: u64, hours: u64, minutes: u64) -> Seq<char> {
    dec_str(days as nat) + "д. "@ + dec_str(hours as nat) + "ч. "@ + dec_str(minutes as nat)
        + "м."@
}

/// An uptime figure, decomposed for display.
pub struct Uptime {
    days: u64,
    hours: u64,
    minutes: u64,
}

impl Uptime {
    /// The day count.
    pub closed spec fn spec_days(&self) -> u64 {
        self.days
    }

    /// The hour count within the current day.
    pub closed spec fn spec_hours(&self) -> u64 {
        self.hours
    }

    /// The minute count within the current hour.
    pub closed spec fn spec_minutes(&self) -> u64 {
        self.minutes
    }

    /// Decomposes a number of seconds into days, hours and minutes by floor
    /// division with remainder chaining.
    pub fn new(uptime_secs: u64) -> (r: Uptime)
        ensures
            r.spec_days() == uptime_secs / 86400,
            r.spec_hours() == (uptime_secs % 86400) / 3600,
            r.spec_minutes() == (uptime_secs % 3600) / 60,
    {
        Uptime {
            days: uptime_secs / 86400,
            hours: (uptime_secs % 86400) / 3600,
            minutes: (uptime_secs % 3600) / 60,
        }
    }

    /// Formats the decomposition with its unit labels.
    pub fn get(&self) -> (r: String)
        ensures
            r@ == spec_uptime_text(self.spec_days(), self.spec_hours(), self.spec_minutes()),
    {
        let mut r = u64_to_string(self.days);
        r.append("д. ");
        let h = u64_to_string(self.hours);
        r.append(h.as_str());
        r.append("ч. ");
        let m = u64_to_string(self.minutes);
        r.append(m.as_str());
        r.append("м.");
        proof {
            assert(r@ =~= spec_uptime_text(self.spec_days(), self.spec_hours(),
                self.spec_minutes()));
        }
        r
    }
}

} // verus!
