//! The probe layer: one function per host fact.  Each function takes the
//! raw material its external source produced (file contents, captured
//! command output, environment values) as plain optional values, parses the
//! narrow format the source uses, and returns either the formatted fact or
//! its documented fallback.  No probe panics: every malformed or missing
//! input ends in the fallback its contract names.

use vstd::prelude::*;
use vstd::string::*;

use crate::numfmt::all_digit_chars;
use crate::numfmt::dec_str;
use crate::numfmt::spec_parse_i32;
use crate::numfmt::spec_parse_u64;
use crate::numfmt::parse_i32;
use crate::numfmt::parse_u64;
use crate::numfmt::u64_to_string;
use crate::text::contains_chars;
use crate::text::contains_lit;
use crate::text::contains_seq;
use crate::text::find_char;
use crate::text::find_from;
use crate::text::has_prefix;
use crate::text::is_digit;
use crate::text::is_digit_char;
use crate::text::lemma_find_from;
use crate::text::lemma_rfind_before;
use crate::text::prefix_at;
use crate::text::rfind_before;
use crate::text::rfind_char;
use crate::text::spec_lines;
use crate::text::spec_lower;
use crate::text::spec_tokens;
use crate::text::spec_trim;
use crate::text::split_lines;
use crate::text::split_whitespace_tokens;
use crate::text::lower_all;
use crate::text::to_chars;
use crate::text::trimmed;

verus! {

/// Whether the option holds a nonempty string.
pub open spec fn holds_value(o: Option<&str>) -> bool {
    o is Some && o->0@.len() > 0
}

/// Picks the desktop-environment name: the first of the three
/// session-indicating environment values that is present and nonempty, in
/// their fixed priority order.
pub fn get_desktop_environment(xdg: Option<&str>, session: Option<&str>, gdm: Option<&str>) -> (r:
    Option<String>)
    ensures
        holds_value(xdg) ==> r is Some && r->0@ == xdg->0@,
        !holds_value(xdg) && holds_value(session) ==> r is Some && r->0@ == session->0@,
        !holds_value(xdg) && !holds_value(session) && holds_value(gdm) ==> r is Some && r->0@
            == gdm->0@,
        !holds_value(xdg) && !holds_value(session) && !holds_value(gdm) ==> r is None,
{
    if let Some(v) = xdg {
        if !v.is_empty() {
            return Some(String::from_str(v));
        }
    }
    if let Some(v) = session {
        if !v.is_empty() {
            return Some(String::from_str(v));
        }
    }
    if let Some(v) = gdm {
        if !v.is_empty() {
            return Some(String::from_str(v));
        }
    }
    None
}

/// The final path component: everything after the last slash, or the whole
/// text when it has no slash.
pub open spec fn spec_basename(s: Seq<char>) -> Seq<char> {
    s.subrange(rfind_before(s, s.len() as int, '/') + 1, s.len() as int)
}

/// Reduces the shell path from the environment to its program name; an
/// unset or empty value falls back to `"?"`.
pub fn get_shell(shell_var: Option<&str>) -> (r: String)
    ensures
        !holds_value(shell_var) ==> r@ == "?"@,
        holds_value(shell_var) ==> r@ == spec_basename(shell_var->0@),
{
    match shell_var {
        None => String::from_str("?"),
        Some(v) => {
            if v.is_empty() {
                return String::from_str("?");
            }
            let cs = to_chars(v);
            let k = rfind_char(&cs, '/');
            proof {
                lemma_rfind_before(v@, v@.len() as int, '/');
            }
            String::from_str(v.substring_char(k, cs.len()))
        },
    }
}

/// The terminal name from the environment; an unset or empty value falls
/// back to `"?"`.
pub fn get_terminal(term_var: Option<&str>) -> (r: String)
    ensures
        !holds_value(term_var) ==> r@ == "?"@,
        holds_value(term_var) ==> r@ == term_var->0@,
{
    match term_var {
        None => String::from_str("?"),
        Some(v) => {
            if v.is_empty() {
                String::from_str("?")
            } else {
                String::from_str(v)
            }
        },
    }
}

/// The locale name from the environment; an unset or empty value falls
/// back to `"?"`.
pub fn get_locale_info(lang_var: Option<&str>) -> (r: String)
    ensures
        !holds_value(lang_var) ==> r@ == "?"@,
        holds_value(lang_var) ==> r@ == lang_var->0@,
{
    match lang_var {
        None => String::from_str("?"),
        Some(v) => {
            if v.is_empty() {
                String::from_str("?")
            } else {
                String::from_str(v)
            }
        },
    }
}

/// The sentinel shown when no battery device exists.
pub open spec fn mains_power_text() -> Seq<char> {
    "Подключен к сети"@
}

/// A missing battery is reported by the mains-power sentinel, never by the
/// unknown-value fallback.
pub proof fn lemma_mains_power_is_not_unknown()
    ensures
        mains_power_text() != "?"@,
{
    reveal_strlit("Подключен к сети");
    reveal_strlit("?");
    assert(mains_power_text().len() != "?"@.len());
}

/// Whether a power-supply device name marks a battery.
pub fn is_battery_name(name: &str) -> (r: bool)
    ensures
        r == has_prefix(name@, "BAT"@),
{
    let cs = to_chars(name);
    let ps = to_chars("BAT");
    prefix_at(&cs, &ps, 0)
}

/// Formats the battery reading, or reports mains power when no battery
/// device was found.  Absence of a battery is not a failure: the sentinel,
/// not `"?"`, is the result.
pub fn get_battery_info(reading: Option<(&str, &str)>) -> (r: String)
    ensures
        reading is None ==> r@ == mains_power_text(),
        reading matches Some((capacity, status)) ==> r@ == spec_trim(capacity@) + "% ["@
            + spec_trim(status@) + "]"@,
{
    match reading {
        None => String::from_str("Подключен к сети"),
        Some((capacity, status)) => {
            let mut r = trimmed(capacity);
            r.append("% [");
            let st = trimmed(status);
            r.append(st.as_str());
            r.append("]");
            proof {
                assert(r@ =~= spec_trim(capacity@) + "% ["@ + spec_trim(status@) + "]"@);
            }
            r
        },
    }
}

/// Counts the sessions a user-listing tool reported, one per output line;
/// a failed invocation falls back to `"?"`.
pub fn get_users_count(who_output: Option<&str>) -> (r: String)
    ensures
        who_output is None ==> r@ == "?"@,
        who_output matches Some(s) ==> r@ == dec_str(spec_lines(s@).len()),
{
    match who_output {
        None => String::from_str("?"),
        Some(s) => {
            let lines = split_lines(s);
            proof {
                assert(lines@.len() == lines.deep_view().len());
            }
            u64_to_string(lines.len() as u64)
        },
    }
}

/// The first three whitespace-separated fields of the load-average
/// interface, joined by single spaces; malformed or missing contents fall
/// back to `"?"`.
pub open spec fn spec_load_average(s: Seq<char>) -> Seq<char> {
    let toks = spec_tokens(s);
    if toks.len() >= 3 {
        toks[0] + " "@ + toks[1] + " "@ + toks[2]
    } else {
        "?"@
    }
}

/// Formats the one-, five- and fifteen-minute load figures.
pub fn get_load_average(contents: Option<&str>) -> (r: String)
    ensures
        contents is None ==> r@ == "?"@,
        contents matches Some(s) ==> r@ == spec_load_average(s@),
{
    match contents {
        None => String::from_str("?"),
        Some(s) => {
            let toks = split_whitespace_tokens(s);
            if toks.len() >= 3 {
                let mut r = toks[0].clone();
                r.append(" ");
                r.append(toks[1].as_str());
                r.append(" ");
                r.append(toks[2].as_str());
                proof {
                    assert(toks.deep_view()[0] == toks@[0]@);
                    assert(toks.deep_view()[1] == toks@[1]@);
                    assert(toks.deep_view()[2] == toks@[2]@);
                    assert(r@ =~= spec_load_average(s@));
                }
                r
            } else {
                String::from_str("?")
            }
        },
    }
}

/// Whether every character of a directory-entry name is a decimal digit:
/// the shape of a process-id entry.
pub open spec fn is_numeric_name(n: Seq<char>) -> bool {
    all_digit_chars(n)
}

/// How many names in `ns` are purely numeric.
pub open spec fn count_numeric_names(ns: Seq<Seq<char>>) -> nat
    decreases ns.len(),
{
    if ns.len() == 0 {
        0
    } else {
        count_numeric_names(ns.drop_first()) + (if is_numeric_name(ns[0]) {
            1nat
        } else {
            0nat
        })
    }
}

proof fn lemma_count_numeric_step(ns: Seq<Seq<char>>, i: int)
    requires
        0 <= i < ns.len(),
    ensures
        count_numeric_names(ns.skip(i)) == count_numeric_names(ns.skip(i + 1)) + (
        if is_numeric_name(ns[i]) {
            1nat
        } else {
            0nat
        }),
{
    assert(ns.skip(i)[0] == ns[i]);
    assert(ns.skip(i).drop_first() =~= ns.skip(i + 1));
}

fn name_is_numeric(name: &str) -> (r: bool)
    ensures
        r == is_numeric_name(name@),
{
    let cs = to_chars(name);
    let mut i: usize = 0;
    while i < cs.len()
        invariant
            i <= cs@.len(),
            cs@ == name@,
            forall|t: int| 0 <= t < i ==> is_digit_char(name@[t]),
        decreases cs@.len() - i,
    {
        if !is_digit(cs[i]) {
            return false;
        }
        i = i + 1;
    }
    true
}

/// Counts the numerically named entries of the process-listing interface;
/// an unreadable listing falls back to `"?"`.
pub fn get_processes_count(entries: Option<&Vec<String>>) -> (r: String)
    ensures
        entries is None ==> r@ == "?"@,
        entries matches Some(v) ==> r@ == dec_str(count_numeric_names(v.deep_view())),
{
    match entries {
        None => String::from_str("?"),
        Some(v) => {
            let mut cnt: usize = 0;
            let mut i: usize = 0;
            proof {
                assert(v.deep_view().skip(0) =~= v.deep_view());
            }
            while i < v.len()
                invariant
                    i <= v@.len(),
                    cnt <= i,
                    v.deep_view().len() == v@.len(),
                    cnt + count_numeric_names(v.deep_view().skip(i as int))
                        == count_numeric_names(v.deep_view()),
                decreases v@.len() - i,
            {
                proof {
                    lemma_count_numeric_step(v.deep_view(), i as int);
                    assert(v.deep_view()[i as int] == v@[i as int]@);
                }
                if name_is_numeric(v[i].as_str()) {
                    cnt = cnt + 1;
                }
                i = i + 1;
            }
            proof {
                assert(v.deep_view().skip(v@.len() as int) =~= Seq::<Seq<char>>::empty());
            }
            u64_to_string(cnt as u64)
        },
    }
}

/// The package-entry marker of the flat status-file database layout.
pub open spec fn is_package_line(l: Seq<char>) -> bool {
    has_prefix(l, "Package:"@)
}

/// How many lines in `ls` start with the package marker.
pub open spec fn count_package_entries(ls: Seq<Seq<char>>) -> nat
    decreases ls.len(),
{
    if ls.len() == 0 {
        0
    } else {
        count_package_entries(ls.drop_first()) + (if is_package_line(ls[0]) {
            1nat
        } else {
            0nat
        })
    }
}

proof fn lemma_count_package_step(ls: Seq<Seq<char>>, i: int)
    requires
        0 <= i < ls.len(),
    ensures
        count_package_entries(ls.skip(i)) == count_package_entries(ls.skip(i + 1)) + (
        if is_package_line(ls[i]) {
            1nat
        } else {
            0nat
        }),
{
    assert(ls.skip(i)[0] == ls[i]);
    assert(ls.skip(i).drop_first() =~= ls.skip(i + 1));
}

/// Counts the entries of a flat package-status file: the lines that start
/// with the package marker.
pub fn count_package_lines(status: &str) -> (r: usize)
    ensures
        r == count_package_entries(spec_lines(status@)),
{
    let lines = split_lines(status);
    let ps = to_chars("Package:");
    let mut cnt: usize = 0;
    let mut i: usize = 0;
    proof {
        assert(lines.deep_view().skip(0) =~= lines.deep_view());
    }
    while i < lines.len()
        invariant
            i <= lines@.len(),
            cnt <= i,
            ps@ == "Package:"@,
            lines.deep_view() == spec_lines(status@),
            lines.deep_view().len() == lines@.len(),
            cnt + count_package_entries(lines.deep_view().skip(i as int))
                == count_package_entries(lines.deep_view()),
        decreases lines@.len() - i,
    {
        proof {
            lemma_count_package_step(lines.deep_view(), i as int);
            assert(lines.deep_view()[i as int] == lines@[i as int]@);
        }
        let cs = to_chars(lines[i].as_str());
        if prefix_at(&cs, &ps, 0) {
            cnt = cnt + 1;
        }
        i = i + 1;
    }
    proof {
        assert(lines.deep_view().skip(lines@.len() as int) =~= Seq::<Seq<char>>::empty());
    }
    cnt
}

/// Whether a directory-entry name carries the `rpm` extension: a final
/// dot-separated part equal to `rpm`, with a nonempty part before the dot.
pub open spec fn has_rpm_ext(n: Seq<char>) -> bool {
    let dot = rfind_before(n, n.len() as int, '.');
    dot >= 1 && n.subrange(dot + 1, n.len() as int) == "rpm"@
}

fn name_has_rpm_ext(name: &str) -> (r: bool)
    ensures
        r == has_rpm_ext(name@),
{
    let cs = to_chars(name);
    let k = rfind_char(&cs, '.');
    proof {
        lemma_rfind_before(name@, name@.len() as int, '.');
    }
    if k < 2 {
        return false;
    }
    let ps = to_chars("rpm");
    proof {
        reveal_strlit("rpm");
    }
    let r = cs.len() - k == 3 && prefix_at(&cs, &ps, k);
    proof {
        let dot = rfind_before(name@, name@.len() as int, '.');
        if r {
            assert(name@.subrange(dot + 1, name@.len() as int) =~= name@.subrange(
                k as int,
                k + 3,
            ));
        } else {
            if cs@.len() - k == 3 {
                assert(name@.subrange(dot + 1, name@.len() as int) != "rpm"@);
            } else {
                if name@.subrange(dot + 1, name@.len() as int) == "rpm"@ {
                    assert(name@.subrange(dot + 1, name@.len() as int).len() == 3);
                    assert(false);
                }
            }
        }
    }
    r
}

/// How many names in `ns` carry the `rpm` extension.
pub open spec fn count_rpm_names(ns: Seq<Seq<char>>) -> nat
    decreases ns.len(),
{
    if ns.len() == 0 {
        0
    } else {
        count_rpm_names(ns.drop_first()) + (if has_rpm_ext(ns[0]) {
            1nat
        } else {
            0nat
        })
    }
}

proof fn lemma_count_rpm_step(ns: Seq<Seq<char>>, i: int)
    requires
        0 <= i < ns.len(),
    ensures
        count_rpm_names(ns.skip(i)) == count_rpm_names(ns.skip(i + 1)) + (if has_rpm_ext(ns[i]) {
            1nat
        } else {
            0nat
        }),
{
    assert(ns.skip(i)[0] == ns[i]);
    assert(ns.skip(i).drop_first() =~= ns.skip(i + 1));
}

/// Counts the package-archive entries of an rpm database directory.
pub fn count_rpm_entries(names: &Vec<String>) -> (r: usize)
    ensures
        r == count_rpm_names(names.deep_view()),
{
    let mut cnt: usize = 0;
    let mut i: usize = 0;
    proof {
        assert(names.deep_view().skip(0) =~= names.deep_view());
    }
    while i < names.len()
        invariant
            i <= names@.len(),
            cnt <= i,
            names.deep_view().len() == names@.len(),
            cnt + count_rpm_names(names.deep_view().skip(i as int)) == count_rpm_names(
                names.deep_view(),
            ),
        decreases names@.len() - i,
    {
        proof {
            lemma_count_rpm_step(names.deep_view(), i as int);
            assert(names.deep_view()[i as int] == names@[i as int]@);
        }
        if name_has_rpm_ext(names[i].as_str()) {
            cnt = cnt + 1;
        }
        i = i + 1;
    }
    proof {
        assert(names.deep_view().skip(names@.len() as int) =~= Seq::<Seq<char>>::empty());
    }
    cnt
}

/// Counts installed packages, trying the three database layouts in their
/// fixed priority order and stopping at the first source that exists: the
/// flat status file, then the rpm database directory, then the per-package
/// directory layout.
///
/// `dpkg_status` is the status file's contents when that file exists;
/// `rpm_present` says whether the rpm database directory exists, and
/// `rpm_entries` holds its entry names when it could be listed; and
/// `pacman_dir_count` is the number of subdirectories of the per-package
/// layout when that directory could be listed.
pub fn get_package_count(
    dpkg_status: Option<&str>,
    rpm_present: bool,
    rpm_entries: Option<&Vec<String>>,
    pacman_dir_count: Option<usize>,
) -> (r: Option<usize>)
    ensures
        dpkg_status matches Some(s) ==> r is Some && r->0 == count_package_entries(
            spec_lines(s@),
        ),
        dpkg_status is None && rpm_present ==> match rpm_entries {
            Some(v) => r is Some && r->0 == count_rpm_names(v.deep_view()),
            None => r is None,
        },
        dpkg_status is None && !rpm_present ==> r == pacman_dir_count,
{
    if let Some(s) = dpkg_status {
        return Some(count_package_lines(s));
    }
    if rpm_present {
        return match rpm_entries {
            Some(v) => Some(count_rpm_entries(v)),
            None => None,
        };
    }
    pacman_dir_count
}

/// The first line of `ls` that starts with `p`.
pub open spec fn first_line_with_prefix(ls: Seq<Seq<char>>, p: Seq<char>) -> Option<Seq<char>>
    decreases ls.len(),
{
    if ls.len() == 0 {
        None
    } else if has_prefix(ls[0], p) {
        Some(ls[0])
    } else {
        first_line_with_prefix(ls.drop_first(), p)
    }
}

proof fn lemma_first_prefix_skip(ls: Seq<Seq<char>>, p: Seq<char>, i: int)
    requires
        0 <= i <= ls.len(),
        forall|t: int| 0 <= t < i ==> !has_prefix(ls[t], p),
    ensures
        first_line_with_prefix(ls, p) == first_line_with_prefix(ls.skip(i), p),
    decreases i,
{
    if i > 0 {
        lemma_first_prefix_skip(ls, p, i - 1);
        assert(ls.skip(i - 1)[0] == ls[i - 1]);
        assert(ls.skip(i - 1).drop_first() =~= ls.skip(i));
    } else {
        assert(ls.skip(0) =~= ls);
    }
}

/// What the processor-information interface yields for the model: the text
/// after the first colon of the first `model name` line, trimmed.
pub open spec fn spec_cpu_model(cpuinfo: Seq<char>) -> Option<Seq<char>> {
    match first_line_with_prefix(spec_lines(cpuinfo), "model name"@) {
        None => None,
        Some(l) => {
            let c1 = find_from(l, 0, ':');
            if c1 < l.len() {
                Some(spec_trim(l.subrange(c1 + 1, l.len() as int)))
            } else {
                None
            }
        },
    }
}

/// Extracts the processor model name; missing or malformed contents yield
/// no value.
pub fn get_cpu_model(cpuinfo: Option<&str>) -> (r: Option<String>)
    ensures
        match cpuinfo {
            None => r is None,
            Some(s) => match spec_cpu_model(s@) {
                None => r is None,
                Some(v) => r is Some && r->0@ == v,
            },
        },
{
    let s = match cpuinfo {
        None => { return None },
        Some(s) => s,
    };
    let lines = split_lines(s);
    let ps = to_chars("model name");
    let mut i: usize = 0;
    while i < lines.len()
        invariant
            i <= lines@.len(),
            cpuinfo is Some && cpuinfo->0@ == s@,
            ps@ == "model name"@,
            lines.deep_view() == spec_lines(s@),
            lines.deep_view().len() == lines@.len(),
            forall|t: int| 0 <= t < i ==> !has_prefix(lines.deep_view()[t], "model name"@),
        decreases lines@.len() - i,
    {
        let line = lines[i].as_str();
        let lcs = to_chars(line);
        proof {
            assert(lines.deep_view()[i as int] == lines@[i as int]@);
        }
        if prefix_at(&lcs, &ps, 0) {
            proof {
                lemma_first_prefix_skip(spec_lines(s@), "model name"@, i as int);
                assert(spec_lines(s@).skip(i as int)[0] == line@);
            }
            let c1 = find_char(&lcs, 0, ':');
            proof {
                lemma_find_from(line@, 0, ':');
            }
            if c1 < lcs.len() {
                return Some(trimmed(line.substring_char(c1 + 1, lcs.len())));
            } else {
                return None;
            }
        }
        i = i + 1;
    }
    proof {
        lemma_first_prefix_skip(spec_lines(s@), "model name"@, i as int);
        assert(spec_lines(s@).skip(i as int) =~= Seq::<Seq<char>>::empty());
    }
    None
}

/// Whether a device-listing line names a display-class device.
pub open spec fn is_gpu_line(l: Seq<char>) -> bool {
    ||| contains_seq(spec_lower(l), "vga"@)
    ||| contains_seq(spec_lower(l), "3d"@)
    ||| contains_seq(spec_lower(l), "2d"@)
}

/// The first display-class device line of `ls`.
pub open spec fn first_gpu_line(ls: Seq<Seq<char>>) -> Option<Seq<char>>
    decreases ls.len(),
{
    if ls.len() == 0 {
        None
    } else if is_gpu_line(ls[0]) {
        Some(ls[0])
    } else {
        first_gpu_line(ls.drop_first())
    }
}

proof fn lemma_first_gpu_skip(ls: Seq<Seq<char>>, i: int)
    requires
        0 <= i <= ls.len(),
        forall|t: int| 0 <= t < i ==> !is_gpu_line(ls[t]),
    ensures
        first_gpu_line(ls) == first_gpu_line(ls.skip(i)),
    decreases i,
{
    if i > 0 {
        lemma_first_gpu_skip(ls, i - 1);
        assert(ls.skip(i - 1)[0] == ls[i - 1]);
        assert(ls.skip(i - 1).drop_first() =~= ls.skip(i));
    } else {
        assert(ls.skip(0) =~= ls);
    }
}

/// What the device lister yields for the graphics adapter: the description
/// after the second colon of the first display-class line, trimmed.
pub open spec fn spec_gpu_model(out: Seq<char>) -> Option<Seq<char>> {
    match first_gpu_line(spec_lines(out)) {
        None => None,
        Some(l) => {
            let c1 = find_from(l, 0, ':');
            if c1 < l.len() {
                let c2 = find_from(l, c1 + 1, ':');
                if c2 < l.len() {
                    Some(spec_trim(l.subrange(c2 + 1, l.len() as int)))
                } else {
                    None
                }
            } else {
                None
            }
        },
    }
}

/// Extracts the graphics adapter description from the device lister's
/// output; a missing lister or an output without a display-class line
/// yields no value.
pub fn get_gpu_model(lspci_output: Option<&str>) -> (r: Option<String>)
    ensures
        match lspci_output {
            None => r is None,
            Some(s) => match spec_gpu_model(s@) {
                None => r is None,
                Some(v) => r is Some && r->0@ == v,
            },
        },
{
    let s = match lspci_output {
        None => { return None },
        Some(s) => s,
    };
    let lines = split_lines(s);
    let mut i: usize = 0;
    while i < lines.len()
        invariant
            i <= lines@.len(),
            lspci_output is Some && lspci_output->0@ == s@,
            lines.deep_view() == spec_lines(s@),
            lines.deep_view().len() == lines@.len(),
            forall|t: int| 0 <= t < i ==> !is_gpu_line(lines.deep_view()[t]),
        decreases lines@.len() - i,
    {
        let line = lines[i].as_str();
        let lcs = to_chars(line);
        let low = lower_all(&lcs);
        proof {
            assert(lines.deep_view()[i as int] == lines@[i as int]@);
        }
        if contains_lit(&low, "vga") || contains_lit(&low, "3d") || contains_lit(&low, "2d") {
            proof {
                lemma_first_gpu_skip(spec_lines(s@), i as int);
                assert(spec_lines(s@).skip(i as int)[0] == line@);
            }
            let c1 = find_char(&lcs, 0, ':');
            proof {
                lemma_find_from(line@, 0, ':');
            }
            if c1 < lcs.len() {
                let c2 = find_char(&lcs, c1 + 1, ':');
                proof {
                    lemma_find_from(line@, c1 + 1, ':');
                }
                if c2 < lcs.len() {
                    return Some(trimmed(line.substring_char(c2 + 1, lcs.len())));
                } else {
                    return None;
                }
            } else {
                return None;
            }
        }
        i = i + 1;
    }
    proof {
        lemma_first_gpu_skip(spec_lines(s@), i as int);
        assert(spec_lines(s@).skip(i as int) =~= Seq::<Seq<char>>::empty());
    }
    None
}

/// `a - b`, floored at zero.
pub open spec fn sat_sub(a: int, b: int) -> nat {
    if a >= b {
        (a - b) as nat
    } else {
        0
    }
}

/// `v` scaled to hundredths of a unit of `unit`, rounded to nearest: the
/// two-decimal figure shown for a capacity of `v` small units.
pub open spec fn spec_hundredths(v: nat, unit: nat) -> nat
    recommends
        unit > 0,
{
    (v * 100 + unit / 2) / unit
}

fn hundredths(v: u64, unit: u64) -> (r: u64)
    requires
        100 <= unit,
    ensures
        r == spec_hundredths(v as nat, unit as nat),
{
    let x: u128 = (v as u128) * 100 + ((unit / 2) as u128);
    let q: u128 = x / (unit as u128);
    proof {
        assert((v as int) * 100 + (unit as int) / 2 < (unit as int) * ((v as int) + 1))
            by (nonlinear_arith)
            requires
                100 <= unit as int,
                0 <= v as int,
        ;
        vstd::arithmetic::div_mod::lemma_multiply_divide_lt(
            (v as int) * 100 + (unit as int) / 2,
            unit as int,
            (v as int) + 1,
        );
    }
    q as u64
}

/// A whole number of hundredths written with two decimal places.
pub open spec fn two_dec_str(h: nat) -> Seq<char> {
    dec_str(h / 100) + "."@ + (if h % 100 < 10 {
        "0"@ + dec_str(h % 100)
    } else {
        dec_str(h % 100)
    })
}

fn two_dec_string(h: u64) -> (r: String)
    ensures
        r@ == two_dec_str(h as nat),
{
    let mut r = u64_to_string(h / 100);
    r.append(".");
    let f = h % 100;
    if f < 10 {
        r.append("0");
    }
    let fs = u64_to_string(f);
    r.append(fs.as_str());
    proof {
        assert(r@ =~= two_dec_str(h as nat));
    }
    r
}

/// The capacity summary: `used` and `total` scaled by `unit` to gigabytes
/// with two decimals, and the used percentage `used * 100 / total`,
/// truncated.
pub open spec fn spec_usage_display(used: nat, total: nat, unit: nat) -> Seq<char>
    recommends
        total > 0,
        unit > 0,
{
    two_dec_str(spec_hundredths(used, unit)) + "GB / "@ + two_dec_str(spec_hundredths(total, unit))
        + "GB ("@ + dec_str(used * 100 / total) + "%)"@
}

fn usage_display(used: u64, total: u64, unit: u64) -> (r: String)
    requires
        total > 0,
        100 <= unit,
        used <= total,
    ensures
        r@ == spec_usage_display(used as nat, total as nat, unit as nat),
{
    let pct128: u128 = (used as u128) * 100 / (total as u128);
    proof {
        vstd::arithmetic::mul::lemma_mul_inequality(used as int, total as int, 100);
        vstd::arithmetic::div_mod::lemma_multiply_divide_le(
            (used as int) * 100,
            total as int,
            100,
        );
    }
    let pct = pct128 as u64;
    let mut r = two_dec_string(hundredths(used, unit));
    r.append("GB / ");
    let ts = two_dec_string(hundredths(total, unit));
    r.append(ts.as_str());
    r.append("GB (");
    let psn = u64_to_string(pct);
    r.append(psn.as_str());
    r.append("%)");
    proof {
        assert(r@ =~= spec_usage_display(used as nat, total as nat, unit as nat));
    }
    r
}

/// Formats the memory summary from total and available kilobytes: used and
/// total in gigabytes with two decimals and the used percentage.  A missing
/// reading yields no value, and a zero total is rejected rather than
/// divided by.
pub fn get_memory_info(mem: Option<(u64, u64)>) -> (r: Option<String>)
    ensures
        mem is None ==> r is None,
        mem matches Some((total, avail)) ==> (total == 0 ==> r is None) && (total > 0 ==> r is Some
            && r->0@ == spec_usage_display(
            sat_sub(total as int, avail as int),
            total as nat,
            1048576,
        )),
{
    match mem {
        None => None,
        Some((total, avail)) => {
            if total == 0 {
                return None;
            }
            let used = if avail <= total {
                total - avail
            } else {
                0
            };
            Some(usage_display(used, total, 1048576))
        },
    }
}

/// Formats the disk summary from total and free megabytes, in the same
/// shape as the memory summary.  A missing reading yields no value, and a
/// zero total is rejected rather than divided by.
pub fn get_disk_info(disk: Option<(u64, u64)>) -> (r: Option<String>)
    ensures
        disk is None ==> r is None,
        disk matches Some((total, free)) ==> (total == 0 ==> r is None) && (total > 0 ==> r is Some
            && r->0@ == spec_usage_display(
            sat_sub(total as int, free as int),
            total as nat,
            1024,
        )),
{
    match disk {
        None => None,
        Some((total, free)) => {
            if total == 0 {
                return None;
            }
            let used = if free <= total {
                total - free
            } else {
                0
            };
            Some(usage_display(used, total, 1024))
        },
    }
}

/// The whole-degree reading of a thermal-zone interface: the trimmed
/// contents parsed as a signed count of millidegrees, divided by one
/// thousand toward zero; malformed contents fall back to `"?"`.
pub open spec fn spec_temperature(s: Seq<char>) -> Seq<char> {
    match spec_parse_i32(spec_trim(s)) {
        None => "?"@,
        Some(v) => {
            let mag = if v >= 0 {
                (v as int) / 1000
            } else {
                (-(v as int)) / 1000
            };
            if v < 0 && mag > 0 {
                "-"@ + dec_str(mag as nat) + "°C"@
            } else {
                dec_str(mag as nat) + "°C"@
            }
        },
    }
}

/// Formats the temperature in whole degrees.
pub fn get_temperature(contents: Option<&str>) -> (r: String)
    ensures
        contents is None ==> r@ == "?"@,
        contents matches Some(s) ==> r@ == spec_temperature(s@),
{
    let s = match contents {
        None => { return String::from_str("?") },
        Some(s) => s,
    };
    let t = trimmed(s);
    match parse_i32(t.as_str()) {
        None => String::from_str("?"),
        Some(v) => {
            let mut r: String;
            if v >= 0 {
                r = u64_to_string((v as u64) / 1000);
            } else {
                let mag = ((-(v as i64)) as u64) / 1000;
                if mag > 0 {
                    r = String::from_str("-");
                    let ms = u64_to_string(mag);
                    r.append(ms.as_str());
                } else {
                    r = u64_to_string(0);
                }
            }
            r.append("°C");
            proof {
                assert(r@ =~= spec_temperature(s@));
            }
            r
        },
    }
}

/// The value of a jiffie counter field: its parsed value, or zero when it
/// does not parse.
pub open spec fn field_val(t: Seq<char>) -> nat {
    match spec_parse_u64(t) {
        Some(v) => v as nat,
        None => 0,
    }
}

fn field_value(t: &str) -> (r: u64)
    ensures
        r == field_val(t@),
{
    match parse_u64(t) {
        Some(v) => v,
        None => 0,
    }
}

/// The processor-usage figure from the kernel statistics interface: one
/// hundred minus the idle share of the first eight aggregate counters,
/// shown as a percentage; a short or zero-valued line falls back to `"?"`.
pub open spec fn spec_cpu_usage(stat: Seq<char>) -> Seq<char> {
    let ls = spec_lines(stat);
    if ls.len() == 0 {
        "?"@
    } else {
        let toks = spec_tokens(ls[0]);
        if toks.len() >= 8 {
            let idle = field_val(toks[4]);
            let total = field_val(toks[1]) + field_val(toks[2]) + field_val(toks[3]) + field_val(
                toks[4],
            ) + field_val(toks[5]) + field_val(toks[6]) + field_val(toks[7]);
            if total > 0 {
                dec_str((100 - idle * 100 / total) as nat) + "%"@
            } else {
                "?"@
            }
        } else {
            "?"@
        }
    }
}

/// Computes the processor usage percentage.
pub fn get_cpu_usage(stat: Option<&str>) -> (r: String)
    ensures
        stat is None ==> r@ == "?"@,
        stat matches Some(s) ==> r@ == spec_cpu_usage(s@),
{
    let s = match stat {
        None => { return String::from_str("?") },
        Some(s) => s,
    };
    let lines = split_lines(s);
    if lines.len() == 0 {
        return String::from_str("?");
    }
    let toks = split_whitespace_tokens(lines[0].as_str());
    proof {
        assert(lines.deep_view()[0] == lines@[0]@);
    }
    if toks.len() < 8 {
        return String::from_str("?");
    }
    proof {
        assert forall|k: int| 0 <= k < 8 implies toks.deep_view()[k] == toks@[k]@ by {}
    }
    let f1 = field_value(toks[1].as_str());
    let f2 = field_value(toks[2].as_str());
    let f3 = field_value(toks[3].as_str());
    let f4 = field_value(toks[4].as_str());
    let f5 = field_value(toks[5].as_str());
    let f6 = field_value(toks[6].as_str());
    let f7 = field_value(toks[7].as_str());
    let idle: u128 = f4 as u128;
    let total: u128 = f1 as u128 + f2 as u128 + f3 as u128 + f4 as u128 + f5 as u128 + f6 as u128
        + f7 as u128;
    if total == 0 {
        return String::from_str("?");
    }
    let share: u128 = idle * 100 / total;
    proof {
        vstd::arithmetic::mul::lemma_mul_inequality(idle as int, total as int, 100);
        vstd::arithmetic::div_mod::lemma_multiply_divide_le(
            (idle as int) * 100,
            total as int,
            100,
        );
    }
    let usage: u64 = (100 - share) as u64;
    let mut r = u64_to_string(usage);
    r.append("%");
    proof {
        assert(r@ =~= spec_cpu_usage(s@));
    }
    r
}

/// The sentinel shown when no default route exists.
pub open spec fn no_connection_text() -> Seq<char> {
    "Нет соединения"@
}

/// The egress interface of the default route: the fifth field of the first
/// line of the routing-table query's output.
pub open spec fn spec_default_interface(route: Seq<char>) -> Option<Seq<char>> {
    let ls = spec_lines(route);
    if ls.len() == 0 {
        None
    } else {
        let toks = spec_tokens(ls[0]);
        if toks.len() >= 5 {
            Some(toks[4])
        } else {
            None
        }
    }
}

/// Extracts the default route's interface name.
pub fn default_route_interface(route_output: &str) -> (r: Option<String>)
    ensures
        match spec_default_interface(route_output@) {
            None => r is None,
            Some(v) => r is Some && r->0@ == v,
        },
{
    let lines = split_lines(route_output);
    if lines.len() == 0 {
        return None;
    }
    proof {
        assert(lines.deep_view()[0] == lines@[0]@);
    }
    let toks = split_whitespace_tokens(lines[0].as_str());
    if toks.len() >= 5 {
        proof {
            assert(toks.deep_view()[4] == toks@[4]@);
        }
        Some(toks[4].clone())
    } else {
        None
    }
}

/// Whether an address-query line reports a non-loopback IPv4 address and
/// has a field to take it from.
pub open spec fn is_inet_line(l: Seq<char>) -> bool {
    &&& contains_seq(l, "inet "@)
    &&& !contains_seq(l, "127.0.0.1"@)
    &&& spec_tokens(l).len() >= 2
}

/// The first usable address line of `ls`.
pub open spec fn first_inet_line(ls: Seq<Seq<char>>) -> Option<Seq<char>>
    decreases ls.len(),
{
    if ls.len() == 0 {
        None
    } else if is_inet_line(ls[0]) {
        Some(ls[0])
    } else {
        first_inet_line(ls.drop_first())
    }
}

proof fn lemma_first_inet_skip(ls: Seq<Seq<char>>, i: int)
    requires
        0 <= i <= ls.len(),
        forall|t: int| 0 <= t < i ==> !is_inet_line(ls[t]),
    ensures
        first_inet_line(ls) == first_inet_line(ls.skip(i)),
    decreases i,
{
    if i > 0 {
        lemma_first_inet_skip(ls, i - 1);
        assert(ls.skip(i - 1)[0] == ls[i - 1]);
        assert(ls.skip(i - 1).drop_first() =~= ls.skip(i));
    } else {
        assert(ls.skip(0) =~= ls);
    }
}

/// The interface's address: the second field of the first usable address
/// line, cut before any prefix-length slash.
pub open spec fn spec_interface_address(addr: Seq<char>) -> Option<Seq<char>> {
    match first_inet_line(spec_lines(addr)) {
        None => None,
        Some(l) => {
            let t = spec_tokens(l)[1];
            Some(t.subrange(0, find_from(t, 0, '/')))
        },
    }
}

/// Extracts the first non-loopback IPv4 address from an address query's
/// output.
pub fn parse_interface_address(addr_output: &str) -> (r: Option<String>)
    ensures
        match spec_interface_address(addr_output@) {
            None => r is None,
            Some(v) => r is Some && r->0@ == v,
        },
{
    let lines = split_lines(addr_output);
    let mut i: usize = 0;
    while i < lines.len()
        invariant
            i <= lines@.len(),
            lines.deep_view() == spec_lines(addr_output@),
            lines.deep_view().len() == lines@.len(),
            forall|t: int| 0 <= t < i ==> !is_inet_line(lines.deep_view()[t]),
        decreases lines@.len() - i,
    {
        let line = lines[i].as_str();
        let lcs = to_chars(line);
        proof {
            assert(lines.deep_view()[i as int] == lines@[i as int]@);
        }
        if contains_lit(&lcs, "inet ") && !contains_lit(&lcs, "127.0.0.1") {
            let toks = split_whitespace_tokens(line);
            if toks.len() >= 2 {
                proof {
                    lemma_first_inet_skip(spec_lines(addr_output@), i as int);
                    assert(spec_lines(addr_output@).skip(i as int)[0] == line@);
                    assert(toks.deep_view()[1] == toks@[1]@);
                }
                let t = toks[1].as_str();
                let tcs = to_chars(t);
                let cut = find_char(&tcs, 0, '/');
                proof {
                    lemma_find_from(t@, 0, '/');
                }
                return Some(String::from_str(t.substring_char(0, cut)));
            }
        }
        i = i + 1;
    }
    proof {
        lemma_first_inet_skip(spec_lines(addr_output@), i as int);
        assert(spec_lines(addr_output@).skip(i as int) =~= Seq::<Seq<char>>::empty());
    }
    None
}

/// Combines the route and address lookups into the network fact: no
/// default route gives the no-connection sentinel, an interface without an
/// address stands alone, and an interface with an address is shown as
/// `interface (address)`.
pub fn get_network_info(interface: Option<String>, address: Option<String>) -> (r: String)
    ensures
        interface is None ==> r@ == no_connection_text(),
        interface matches Some(i) ==> (match address {
            Some(a) => r@ == i@ + " ("@ + a@ + ")"@,
            None => r@ == i@,
        }),
{
    match interface {
        None => String::from_str("Нет соединения"),
        Some(i) => match address {
            None => i,
            Some(a) => {
                let mut r = i;
                r.append(" (");
                r.append(a.as_str());
                r.append(")");
                proof {
                    assert(r@ =~= interface->0@ + " ("@ + address->0@ + ")"@);
                }
                r
            },
        },
    }
}

/// The first token of `ts` that contains `p`.
pub open spec fn first_token_containing(ts: Seq<Seq<char>>, p: Seq<char>) -> Option<Seq<char>>
    decreases ts.len(),
{
    if ts.len() == 0 {
        None
    } else if contains_seq(ts[0], p) {
        Some(ts[0])
    } else {
        first_token_containing(ts.drop_first(), p)
    }
}

proof fn lemma_first_token_skip(ts: Seq<Seq<char>>, p: Seq<char>, i: int)
    requires
        0 <= i <= ts.len(),
        forall|t: int| 0 <= t < i ==> !contains_seq(ts[t], p),
    ensures
        first_token_containing(ts, p) == first_token_containing(ts.skip(i), p),
    decreases i,
{
    if i > 0 {
        lemma_first_token_skip(ts, p, i - 1);
        assert(ts.skip(i - 1)[0] == ts[i - 1]);
        assert(ts.skip(i - 1).drop_first() =~= ts.skip(i));
    } else {
        assert(ts.skip(0) =~= ts);
    }
}

/// Searches the tokens of `line` for the first one containing `p`.
fn find_token_containing(line: &str, p: &str) -> (r: Option<String>)
    ensures
        match first_token_containing(spec_tokens(line@), p@) {
            None => r is None,
            Some(v) => r is Some && r->0@ == v,
        },
{
    let toks = split_whitespace_tokens(line);
    let pcs = to_chars(p);
    let mut j: usize = 0;
    while j < toks.len()
        invariant
            j <= toks@.len(),
            pcs@ == p@,
            toks.deep_view() == spec_tokens(line@),
            toks.deep_view().len() == toks@.len(),
            forall|t: int| 0 <= t < j ==> !contains_seq(toks.deep_view()[t], p@),
        decreases toks@.len() - j,
    {
        let tcs = to_chars(toks[j].as_str());
        proof {
            assert(toks.deep_view()[j as int] == toks@[j as int]@);
        }
        if contains_chars(&tcs, &pcs) {
            proof {
                lemma_first_token_skip(spec_tokens(line@), p@, j as int);
                assert(spec_tokens(line@).skip(j as int)[0] == toks@[j as int]@);
            }
            return Some(toks[j].clone());
        }
        j = j + 1;
    }
    proof {
        lemma_first_token_skip(spec_tokens(line@), p@, j as int);
        assert(spec_tokens(line@).skip(j as int) =~= Seq::<Seq<char>>::empty());
    }
    None
}

/// Whether a display-query line marks the active mode: it holds the active
/// marker, a resolution-shaped token exists, and that token can be taken.
pub open spec fn is_active_mode_line(l: Seq<char>) -> bool {
    &&& contains_seq(l, "*"@)
    &&& contains_seq(l, "x"@)
    &&& first_token_containing(spec_tokens(l), "x"@) is Some
}

/// The first active-mode line of `ls`.
pub open spec fn first_active_mode_line(ls: Seq<Seq<char>>) -> Option<Seq<char>>
    decreases ls.len(),
{
    if ls.len() == 0 {
        None
    } else if is_active_mode_line(ls[0]) {
        Some(ls[0])
    } else {
        first_active_mode_line(ls.drop_first())
    }
}

proof fn lemma_first_active_skip(ls: Seq<Seq<char>>, i: int)
    requires
        0 <= i <= ls.len(),
        forall|t: int| 0 <= t < i ==> !is_active_mode_line(ls[t]),
    ensures
        first_active_mode_line(ls) == first_active_mode_line(ls.skip(i)),
    decreases i,
{
    if i > 0 {
        lemma_first_active_skip(ls, i - 1);
        assert(ls.skip(i - 1)[0] == ls[i - 1]);
        assert(ls.skip(i - 1).drop_first() =~= ls.skip(i));
    } else {
        assert(ls.skip(0) =~= ls);
    }
}

/// The resolution the mode-query tool reports: the first token containing
/// an `x` on the first line marked as the active mode.
pub open spec fn spec_xrandr_resolution(out: Seq<char>) -> Option<Seq<char>> {
    match first_active_mode_line(spec_lines(out)) {
        None => None,
        Some(l) => first_token_containing(spec_tokens(l), "x"@),
    }
}

/// Extracts the active resolution from the mode-query tool's output.
pub fn parse_xrandr_resolution(out: &str) -> (r: Option<String>)
    ensures
        match spec_xrandr_resolution(out@) {
            None => r is None,
            Some(v) => r is Some && r->0@ == v,
        },
{
    let lines = split_lines(out);
    let mut i: usize = 0;
    while i < lines.len()
        invariant
            i <= lines@.len(),
            lines.deep_view() == spec_lines(out@),
            lines.deep_view().len() == lines@.len(),
            forall|t: int| 0 <= t < i ==> !is_active_mode_line(lines.deep_view()[t]),
        decreases lines@.len() - i,
    {
        let line = lines[i].as_str();
        let lcs = to_chars(line);
        proof {
            assert(lines.deep_view()[i as int] == lines@[i as int]@);
        }
        if contains_lit(&lcs, "*") && contains_lit(&lcs, "x") {
            match find_token_containing(line, "x") {
                Some(tok) => {
                    proof {
                        lemma_first_active_skip(spec_lines(out@), i as int);
                        assert(spec_lines(out@).skip(i as int)[0] == line@);
                    }
                    return Some(tok);
                },
                None => {},
            }
        }
        i = i + 1;
    }
    proof {
        lemma_first_active_skip(spec_lines(out@), i as int);
        assert(spec_lines(out@).skip(i as int) =~= Seq::<Seq<char>>::empty());
    }
    None
}

/// Whether a display-info line reports the screen dimensions: its trimmed
/// text starts with the dimensions marker, a colon follows, and the field
/// after the colon has a token.
pub open spec fn is_dimensions_line(l: Seq<char>) -> bool {
    &&& has_prefix(spec_trim(l), "dimensions:"@)
    &&& find_from(l, 0, ':') < l.len()
    &&& spec_tokens(
        l.subrange(find_from(l, 0, ':') + 1, find_from(l, find_from(l, 0, ':') + 1, ':')),
    ).len() >= 1
}

/// The first dimensions line of `ls`.
pub open spec fn first_dimensions_line(ls: Seq<Seq<char>>) -> Option<Seq<char>>
    decreases ls.len(),
{
    if ls.len() == 0 {
        None
    } else if is_dimensions_line(ls[0]) {
        Some(ls[0])
    } else {
        first_dimensions_line(ls.drop_first())
    }
}

proof fn lemma_first_dimensions_skip(ls: Seq<Seq<char>>, i: int)
    requires
        0 <= i <= ls.len(),
        forall|t: int| 0 <= t < i ==> !is_dimensions_line(ls[t]),
    ensures
        first_dimensions_line(ls) == first_dimensions_line(ls.skip(i)),
    decreases i,
{
    if i > 0 {
        lemma_first_dimensions_skip(ls, i - 1);
        assert(ls.skip(i - 1)[0] == ls[i - 1]);
        assert(ls.skip(i - 1).drop_first() =~= ls.skip(i));
    } else {
        assert(ls.skip(0) =~= ls);
    }
}

/// The resolution the display-info tool reports: the first token of the
/// field between the first and second colon of the dimensions line.
pub open spec fn spec_xdpyinfo_resolution(out: Seq<char>) -> Option<Seq<char>> {
    match first_dimensions_line(spec_lines(out)) {
        None => None,
        Some(l) => {
            let c1 = find_from(l, 0, ':');
            Some(spec_tokens(l.subrange(c1 + 1, find_from(l, c1 + 1, ':')))[0])
        },
    }
}

/// Extracts the screen dimensions from the display-info tool's output.
pub fn parse_xdpyinfo_resolution(out: &str) -> (r: Option<String>)
    ensures
        match spec_xdpyinfo_resolution(out@) {
            None => r is None,
            Some(v) => r is Some && r->0@ == v,
        },
{
    let lines = split_lines(out);
    let ps = to_chars("dimensions:");
    let mut i: usize = 0;
    while i < lines.len()
        invariant
            i <= lines@.len(),
            ps@ == "dimensions:"@,
            lines.deep_view() == spec_lines(out@),
            lines.deep_view().len() == lines@.len(),
            forall|t: int| 0 <= t < i ==> !is_dimensions_line(lines.deep_view()[t]),
        decreases lines@.len() - i,
    {
        let line = lines[i].as_str();
        let lcs = to_chars(line);
        proof {
            assert(lines.deep_view()[i as int] == lines@[i as int]@);
        }
        let tl = trimmed(line);
        let tcs = to_chars(tl.as_str());
        if prefix_at(&tcs, &ps, 0) {
            let c1 = find_char(&lcs, 0, ':');
            proof {
                lemma_find_from(line@, 0, ':');
            }
            if c1 < lcs.len() {
                let c2 = find_char(&lcs, c1 + 1, ':');
                proof {
                    lemma_find_from(line@, c1 + 1, ':');
                }
                let seg = line.substring_char(c1 + 1, c2);
                let segtoks = split_whitespace_tokens(seg);
                if segtoks.len() >= 1 {
                    proof {
                        lemma_first_dimensions_skip(spec_lines(out@), i as int);
                        assert(spec_lines(out@).skip(i as int)[0] == line@);
                        assert(segtoks.deep_view()[0] == segtoks@[0]@);
                    }
                    return Some(segtoks[0].clone());
                }
            }
        }
        i = i + 1;
    }
    proof {
        lemma_first_dimensions_skip(spec_lines(out@), i as int);
        assert(spec_lines(out@).skip(i as int) =~= Seq::<Seq<char>>::empty());
    }
    None
}

/// Whether a compositor-output line reports the current mode.
pub open spec fn is_current_mode_line(l: Seq<char>) -> bool {
    &&& contains_seq(l, "current"@)
    &&& contains_seq(l, "x"@)
    &&& first_token_containing(spec_tokens(l), "x"@) is Some
}

/// The first current-mode line of `ls`.
pub open spec fn first_current_mode_line(ls: Seq<Seq<char>>) -> Option<Seq<char>>
    decreases ls.len(),
{
    if ls.len() == 0 {
        None
    } else if is_current_mode_line(ls[0]) {
        Some(ls[0])
    } else {
        first_current_mode_line(ls.drop_first())
    }
}

proof fn lemma_first_current_skip(ls: Seq<Seq<char>>, i: int)
    requires
        0 <= i <= ls.len(),
        forall|t: int| 0 <= t < i ==> !is_current_mode_line(ls[t]),
    ensures
        first_current_mode_line(ls) == first_current_mode_line(ls.skip(i)),
    decreases i,
{
    if i > 0 {
        lemma_first_current_skip(ls, i - 1);
        assert(ls.skip(i - 1)[0] == ls[i - 1]);
        assert(ls.skip(i - 1).drop_first() =~= ls.skip(i));
    } else {
        assert(ls.skip(0) =~= ls);
    }
}

/// The resolution the compositor-output tool reports: the first token
/// containing an `x` on the first current-mode line.
pub open spec fn spec_wlr_resolution(out: Seq<char>) -> Option<Seq<char>> {
    match first_current_mode_line(spec_lines(out)) {
        None => None,
        Some(l) => first_token_containing(spec_tokens(l), "x"@),
    }
}

/// Extracts the current resolution from the compositor-output tool's
/// output.
pub fn parse_wlr_resolution(out: &str) -> (r: Option<String>)
    ensures
        match spec_wlr_resolution(out@) {
            None => r is None,
            Some(v) => r is Some && r->0@ == v,
        },
{
    let lines = split_lines(out);
    let mut i: usize = 0;
    while i < lines.len()
        invariant
            i <= lines@.len(),
            lines.deep_view() == spec_lines(out@),
            lines.deep_view().len() == lines@.len(),
            forall|t: int| 0 <= t < i ==> !is_current_mode_line(lines.deep_view()[t]),
        decreases lines@.len() - i,
    {
        let line = lines[i].as_str();
        let lcs = to_chars(line);
        proof {
            assert(lines.deep_view()[i as int] == lines@[i as int]@);
        }
        if contains_lit(&lcs, "current") && contains_lit(&lcs, "x") {
            match find_token_containing(line, "x") {
                Some(tok) => {
                    proof {
                        lemma_first_current_skip(spec_lines(out@), i as int);
                        assert(spec_lines(out@).skip(i as int)[0] == line@);
                    }
                    return Some(tok);
                },
                None => {},
            }
        }
        i = i + 1;
    }
    proof {
        lemma_first_current_skip(spec_lines(out@), i as int);
        assert(spec_lines(out@).skip(i as int) =~= Seq::<Seq<char>>::empty());
    }
    None
}

/// The view of an optional borrowed string.
pub open spec fn opt_view(o: Option<&str>) -> Option<Seq<char>> {
    match o {
        None => None,
        Some(s) => Some(s@),
    }
}

/// The resolution after all three strategies are tried in their fixed
/// order: the mode-query tool, the display-info tool, then the
/// compositor-output tool; `"?"` when every one fails.
pub open spec fn spec_resolution(
    xrandr: Option<Seq<char>>,
    xdpyinfo: Option<Seq<char>>,
    wlr: Option<Seq<char>>,
) -> Seq<char> {
    let a = match xrandr {
        None => None,
        Some(s) => spec_xrandr_resolution(s),
    };
    if a is Some {
        a->0
    } else {
        let b = match xdpyinfo {
            None => None,
            Some(s) => spec_xdpyinfo_resolution(s),
        };
        if b is Some {
            b->0
        } else {
            let c = match wlr {
                None => None,
                Some(s) => spec_wlr_resolution(s),
            };
            if c is Some {
                c->0
            } else {
                "?"@
            }
        }
    }
}

/// Determines the screen resolution, trying each query tool's captured
/// output in the fixed order and falling back to `"?"`.
pub fn get_resolution(xrandr: Option<&str>, xdpyinfo: Option<&str>, wlr: Option<&str>) -> (r:
    String)
    ensures
        r@ == spec_resolution(opt_view(xrandr), opt_view(xdpyinfo), opt_view(wlr)),
{
    if let Some(s) = xrandr {
        if let Some(res) = parse_xrandr_resolution(s) {
            return res;
        }
    }
    if let Some(s) = xdpyinfo {
        if let Some(res) = parse_xdpyinfo_resolution(s) {
            return res;
        }
    }
    if let Some(s) = wlr {
        if let Some(res) = parse_wlr_resolution(s) {
            return res;
        }
    }
    String::from_str("?")
}

} // verus!
