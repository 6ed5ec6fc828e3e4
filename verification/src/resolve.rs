//! Target resolution helpers: choosing the one target source the caller
//! named, splitting comma-separated target lists, and cleaning the lines of
//! a targets file. File and inventory reading itself is plain I/O and stays
//! with the caller; the string logic lives here, verified.

use vstd::prelude::*;
use crate::data::Target;

verus! {

/// The characters stripped from both ends of a target line.
pub open spec fn is_space(c: char) -> bool {
    c == ' ' || c == '\t' || c == '\r'
}

/// `s` with leading spaces removed.
pub open spec fn trim_start_chars(s: Seq<char>) -> Seq<char>
    decreases s.len(),
{
    if s.len() > 0 && is_space(s.first()) {
        trim_start_chars(s.drop_first())
    } else {
        s
    }
}

/// `s` with trailing spaces removed.
pub open spec fn trim_end_chars(s: Seq<char>) -> Seq<char>
    decreases s.len(),
{
    if s.len() > 0 && is_space(s.last()) {
        trim_end_chars(s.drop_last())
    } else {
        s
    }
}

/// `s` with spaces removed from both ends.
pub open spec fn trim_chars(s: Seq<char>) -> Seq<char> {
    trim_end_chars(trim_start_chars(s))
}

proof fn lemma_trim_start(s: Seq<char>, lo: int)
    requires
        0 <= lo <= s.len(),
        forall|k: int| 0 <= k < lo ==> is_space(#[trigger] s[k]),
        lo == s.len() || !is_space(s[lo]),
    ensures
        trim_start_chars(s) == s.subrange(lo, s.len() as int),
    decreases lo,
{
    if lo == 0 {
        assert(s.subrange(0, s.len() as int) =~= s);
    } else {
        assert(is_space(s.first()));
        let s2 = s.drop_first();
        assert(s2 =~= s.subrange(1, s.len() as int));
        lemma_trim_start(s2, lo - 1);
        assert(s2.subrange(lo - 1, s2.len() as int) =~= s.subrange(lo, s.len() as int));
    }
}

proof fn lemma_trim_end(s: Seq<char>, hi: int)
    requires
        0 <= hi <= s.len(),
        forall|k: int| hi <= k < s.len() ==> is_space(#[trigger] s[k]),
        hi == 0 || !is_space(s[hi - 1]),
    ensures
        trim_end_chars(s) == s.subrange(0, hi),
    decreases s.len(),
{
    if hi == s.len() {
        assert(trim_end_chars(s) == s);
        assert(s.subrange(0, hi) =~= s);
    } else {
        assert(is_space(s.last()));
        let s2 = s.drop_last();
        assert(s2 =~= s.subrange(0, s.len() - 1));
        lemma_trim_end(s2, hi);
        assert(s2.subrange(0, hi) =~= s.subrange(0, hi));
    }
}

/// Strip the spaces from both ends of `s`, exactly as `trim_chars` says.
pub fn trim(s: &str) -> (r: String)
    ensures
        r@ == trim_chars(s@),
{
    let n = s.unicode_len();
    let mut lo: usize = 0;
    while lo < n && is_space_char(s.get_char(lo))
        invariant
            lo <= n,
            n == s@.len(),
            forall|k: int| 0 <= k < lo ==> is_space(#[trigger] s@[k]),
        decreases n - lo,
    {
        lo = lo + 1;
    }
    let mut hi: usize = n;
    while hi > lo && is_space_char(s.get_char(hi - 1))
        invariant
            lo <= hi <= n,
            n == s@.len(),
            forall|k: int| 0 <= k < lo ==> is_space(#[trigger] s@[k]),
            lo == n || !is_space(s@[lo as int]),
            forall|k: int| hi <= k < n ==> is_space(#[trigger] s@[k]),
        decreases hi,
    {
        hi = hi - 1;
    }
    let r = s.substring_char(lo, hi).to_owned();
    proof {
        lemma_trim_start(s@, lo as int);
        let t = s@.subrange(lo as int, n as int);
        if hi == lo {
            lemma_trim_end(t, 0);
        } else {
            assert(!is_space(t[hi - lo - 1]));
            lemma_trim_end(t, hi - lo);
        }
        assert(t.subrange(0, hi - lo) =~= s@.subrange(lo as int, hi as int));
    }
    r
}

/// Executable test for `is_space`.
fn is_space_char(c: char) -> (r: bool)
    ensures
        r == is_space(c),
{
    c == ' ' || c == '\t' || c == '\r'
}

/// Parts joined back with the separator between them.
pub open spec fn join_sep(parts: Seq<Seq<char>>, sep: char) -> Seq<char>
    decreases parts.len(),
{
    if parts.len() == 0 {
        Seq::empty()
    } else if parts.len() == 1 {
        parts[0]
    } else {
        join_sep(parts.drop_last(), sep) + seq![sep] + parts.last()
    }
}

/// No character of `s` is the separator.
pub open spec fn sep_free(s: Seq<char>, sep: char) -> bool {
    forall|i: int| 0 <= i < s.len() ==> s[i] != sep
}

proof fn lemma_join_snoc(parts: Seq<Seq<char>>, p: Seq<char>, sep: char)
    ensures
        join_sep(parts.push(p), sep) == if parts.len() == 0 {
            p
        } else {
            join_sep(parts, sep) + seq![sep] + p
        },
{
    let w = parts.push(p);
    if parts.len() == 0 {
        assert(w.len() == 1);
        assert(w[0] == p);
    } else {
        assert(w.drop_last() =~= parts);
        assert(w.last() == p);
    }
}

/// Split `s` at every occurrence of `sep`. The parts, joined back with the
/// separator, are exactly `s`, and no part contains the separator — which
/// pins the split down completely. A comma-separated target list
/// `"host1,host2,host3"` becomes its three hosts.
pub fn split_on(s: &str, sep: char) -> (r: Vec<String>)
    ensures
        join_sep(r.deep_view(), sep) == s@,
        forall|i: int| 0 <= i < r.deep_view().len() ==> sep_free(#[trigger] r.deep_view()[i], sep),
        r.deep_view().len() >= 1,
{
    let n = s.unicode_len();
    let mut parts: Vec<String> = Vec::new();
    let mut start: usize = 0;
    let mut i: usize = 0;
    while i < n
        invariant
            start <= i <= n,
            n == s@.len(),
            forall|k: int| start <= k < i ==> s@[k] != sep,
            forall|j: int|
                0 <= j < parts.deep_view().len() ==> sep_free(#[trigger] parts.deep_view()[j], sep),
            join_sep(parts.deep_view().push(s@.subrange(start as int, i as int)), sep)
                == s@.subrange(0, i as int),
        decreases n - i,
    {
        let c = s.get_char(i);
        if c == sep {
            let part = s.substring_char(start, i).to_owned();
            let ghost pdv = parts.deep_view();
            let ghost cur = s@.subrange(start as int, i as int);
            parts.push(part);
            proof {
                assert(part@ == cur);
                assert(parts.deep_view() =~~= pdv.push(cur));
                lemma_join_snoc(pdv, cur, sep);
                lemma_join_snoc(pdv.push(cur), s@.subrange(i as int + 1, i as int + 1), sep);
                assert(s@.subrange(i as int + 1, i as int + 1) =~= Seq::<char>::empty());
                assert(join_sep(pdv.push(cur).push(s@.subrange(i as int + 1, i as int + 1)), sep)
                    =~= s@.subrange(0, i as int) + seq![sep]);
                assert(s@.subrange(0, i as int) + seq![sep] =~= s@.subrange(0, i as int + 1));
            }
            start = i + 1;
        } else {
            proof {
                let pdv = parts.deep_view();
                let cur = s@.subrange(start as int, i as int);
                let cur2 = s@.subrange(start as int, i as int + 1);
                assert(cur2 =~= cur + seq![s@[i as int]]);
                lemma_join_snoc(pdv, cur, sep);
                lemma_join_snoc(pdv, cur2, sep);
                if pdv.len() == 0 {
                    assert(join_sep(pdv.push(cur2), sep) =~= s@.subrange(0, i as int + 1));
                } else {
                    assert((join_sep(pdv, sep) + seq![sep] + cur) + seq![s@[i as int]]
                        =~= join_sep(pdv, sep) + seq![sep] + cur2);
                    assert(s@.subrange(0, i as int) + seq![s@[i as int]] =~= s@.subrange(
                        0,
                        i as int + 1,
                    ));
                }
            }
        }
        i = i + 1;
    }
    let last = s.substring_char(start, n).to_owned();
    let ghost pdv = parts.deep_view();
    parts.push(last);
    proof {
        assert(parts.deep_view() =~~= pdv.push(s@.subrange(start as int, n as int)));
        assert(s@.subrange(0, n as int) =~= s@);
    }
    parts
}

/// Whether a cleaned line is a comment.
pub open spec fn is_comment(s: Seq<char>) -> bool {
    s.len() > 0 && s[0] == '#'
}

/// Each line trimmed, comment lines dropped.
pub open spec fn clean_lines(lines: Seq<Seq<char>>) -> Seq<Seq<char>>
    decreases lines.len(),
{
    if lines.len() == 0 {
        Seq::empty()
    } else {
        let t = trim_chars(lines.first());
        let rest = clean_lines(lines.drop_first());
        if is_comment(t) {
            rest
        } else {
            seq![t] + rest
        }
    }
}

proof fn lemma_clean_lines_snoc(lines: Seq<Seq<char>>, p: Seq<char>)
    ensures
        clean_lines(lines.push(p)) == clean_lines(lines) + (if is_comment(trim_chars(p)) {
            Seq::<Seq<char>>::empty()
        } else {
            seq![trim_chars(p)]
        }),
    decreases lines.len(),
{
    let w = lines.push(p);
    if lines.len() == 0 {
        assert(w.first() == p);
        assert(w.drop_first() =~~= Seq::<Seq<char>>::empty());
        assert(clean_lines(Seq::<Seq<char>>::empty()) == Seq::<Seq<char>>::empty());
        assert(clean_lines(lines) == Seq::<Seq<char>>::empty());
        if is_comment(trim_chars(p)) {
            assert(clean_lines(w) =~~= clean_lines(lines));
        } else {
            assert(clean_lines(w) =~~= clean_lines(lines) + seq![trim_chars(p)]);
        }
    } else {
        assert(w.first() == lines.first());
        assert(w.drop_first() =~~= lines.drop_first().push(p));
        lemma_clean_lines_snoc(lines.drop_first(), p);
        let t0 = trim_chars(lines.first());
        if is_comment(t0) {
            assert(clean_lines(w) =~~= clean_lines(lines) + (if is_comment(trim_chars(p)) {
                Seq::<Seq<char>>::empty()
            } else {
                seq![trim_chars(p)]
            }));
        } else {
            assert(clean_lines(w) =~~= clean_lines(lines) + (if is_comment(trim_chars(p)) {
                Seq::<Seq<char>>::empty()
            } else {
                seq![trim_chars(p)]
            }));
        }
    }
}

/// The lines of a targets or inventory file: the newline-split pieces, with
/// a trailing empty piece (from a final newline) dropped.
pub open spec fn spec_file_lines(raw: Seq<Seq<char>>) -> Seq<Seq<char>> {
    if raw.len() > 0 && raw.last().len() == 0 {
        raw.drop_last()
    } else {
        raw
    }
}

/// Parse the text of a targets file: one entry per line, each line trimmed,
/// lines starting with `#` dropped. Empty lines are kept, as a caller that
/// wants them out can filter them.
pub fn parse_target_lines(text: &str) -> (r: Vec<String>)
    ensures
        exists|raw: Seq<Seq<char>>|
            {
                &&& join_sep(raw, '\n') == text@
                &&& (forall|i: int| 0 <= i < raw.len() ==> sep_free(#[trigger] raw[i], '\n'))
                &&& r.deep_view() == clean_lines(spec_file_lines(raw))
            },
{
    let mut raw = split_on(text, '\n');
    let ghost raw_dv = raw.deep_view();
    if raw.len() > 0 && raw[raw.len() - 1].as_str().is_empty() {
        let _ = raw.pop();
        proof {
            assert(raw.deep_view() =~~= spec_file_lines(raw_dv));
        }
    } else {
        proof {
            assert(raw.deep_view() =~~= spec_file_lines(raw_dv));
        }
    }
    let n = raw.len();
    let mut out: Vec<String> = Vec::new();
    let mut i: usize = 0;
    while i < n
        invariant
            i <= n,
            n == raw.deep_view().len(),
            out.deep_view() == clean_lines(raw.deep_view().subrange(0, i as int)),
        decreases n - i,
    {
        let t = trim(raw[i].as_str());
        let keep = if t.as_str().unicode_len() > 0 {
            t.as_str().get_char(0) != '#'
        } else {
            true
        };
        let ghost odv = out.deep_view();
        let ghost tview = t@;
        if keep {
            out.push(t);
        }
        proof {
            let pre = raw.deep_view().subrange(0, i as int);
            let pre2 = raw.deep_view().subrange(0, i as int + 1);
            assert(pre2 =~~= pre.push(raw.deep_view()[i as int]));
            lemma_clean_lines_snoc(pre, raw.deep_view()[i as int]);
            if keep {
                assert(out.deep_view() =~~= odv.push(tview));
                assert(out.deep_view() =~~= clean_lines(pre2));
            } else {
                assert(out.deep_view() =~~= clean_lines(pre2));
            }
        }
        i = i + 1;
    }
    proof {
        assert(raw.deep_view().subrange(0, n as int) =~~= raw.deep_view());
    }
    out
}

/// Which source the caller chose for the target list.
#[derive(PartialEq, Eq, Structural, Clone, Copy, Debug)]
pub enum TargetSelection {
    /// A comma-separated list was given on the command line.
    FromList,
    /// A targets file was named (or defaulted) and must be read.
    FromFile,
    /// An inventory group was named; resolution is the collaborator's job.
    FromInventory,
}

/// Why no target source could be selected.
#[derive(PartialEq, Eq, Structural, Clone, Copy, Debug)]
pub enum SelectError {
    /// None of the three source options was used.
    NoSourceGiven,
    /// More than one of the three source options was used.
    MultipleSourcesGiven,
}

/// 1 for a flag that was given, 0 otherwise.
pub open spec fn spec_flag(b: bool) -> int {
    if b {
        1int
    } else {
        0int
    }
}

/// Choose the target source from which options were given: exactly one of
/// the three must be used.
pub fn select_target_source(has_list: bool, has_file: bool, has_inventory_group: bool) -> (r:
    Result<TargetSelection, SelectError>)
    ensures
        r == if !has_list && !has_file && !has_inventory_group {
            Result::<TargetSelection, SelectError>::Err(SelectError::NoSourceGiven)
        } else if spec_flag(has_list) + spec_flag(has_file) + spec_flag(has_inventory_group) > 1 {
            Result::<TargetSelection, SelectError>::Err(SelectError::MultipleSourcesGiven)
        } else if has_list {
            Result::<TargetSelection, SelectError>::Ok(TargetSelection::FromList)
        } else if has_file {
            Result::<TargetSelection, SelectError>::Ok(TargetSelection::FromFile)
        } else {
            Result::<TargetSelection, SelectError>::Ok(TargetSelection::FromInventory)
        },
{
    if !has_list && !has_file && !has_inventory_group {
        return Err(SelectError::NoSourceGiven);
    }
    let count = flag_to_int(has_list) + flag_to_int(has_file) + flag_to_int(has_inventory_group);
    if count > 1 {
        return Err(SelectError::MultipleSourcesGiven);
    }
    if has_list {
        Ok(TargetSelection::FromList)
    } else if has_file {
        Ok(TargetSelection::FromFile)
    } else {
        Ok(TargetSelection::FromInventory)
    }
}

/// Counting extension used to detect that more than one source option was
/// given.
pub trait OptionExt<T> {
    /// What `to_int` returns.
    spec fn spec_to_int(&self) -> int;

    /// 1 for an option that was given, 0 otherwise.
    fn to_int(&self) -> (r: i32)
        ensures
            r == self.spec_to_int(),
    ;
}

impl<T> OptionExt<T> for Option<T> {
    open spec fn spec_to_int(&self) -> int {
        if self is Some {
            1int
        } else {
            0int
        }
    }

    fn to_int(&self) -> (r: i32) {
        match self {
            Option::Some(_) => 1,
            Option::None => 0,
        }
    }
}

/// 1 for a flag that was given, 0 otherwise.
pub fn flag_to_int(b: bool) -> (r: i32)
    ensures
        r == spec_flag(b),
{
    if b {
        1
    } else {
        0
    }
}

/// Well-known fallback locations and connection defaults used when the
/// caller names none: candidate inventory paths (tried in order), the
/// default private key, and the default port and connect timeout.
pub struct Config {
    pub default_inventory_file: Vec<String>,
    pub default_private_key: Vec<String>,
    pub default_port: u16,
    pub default_timeout_s: u64,
}

impl Default for Config {
    fn default() -> (c: Config)
        ensures
            c.default_inventory_file@.len() == 3,
            c.default_inventory_file@[0]@ == "~/.multissh/inventory"@,
            c.default_inventory_file@[1]@ == "~/.config/multissh/inventory"@,
            c.default_inventory_file@[2]@ == "/etc/multissh/inventory"@,
            c.default_private_key@.len() == 1,
            c.default_private_key@[0]@ == "~/.ssh/id_rsa"@,
            c.default_port == 22,
            c.default_timeout_s == 10,
    {
        let mut inv: Vec<String> = Vec::new();
        inv.push("~/.multissh/inventory".to_owned());
        inv.push("~/.config/multissh/inventory".to_owned());
        inv.push("/etc/multissh/inventory".to_owned());
        let mut key: Vec<String> = Vec::new();
        key.push("~/.ssh/id_rsa".to_owned());
        Config {
            default_inventory_file: inv,
            default_private_key: key,
            default_port: 22,
            default_timeout_s: 10,
        }
    }
}

/// Pair every host with the one port of the run.
pub fn make_targets(hosts: Vec<String>, port: u16) -> (r: Vec<Target>)
    ensures
        r@.len() == hosts@.len(),
        forall|i: int|
            0 <= i < hosts@.len() ==> (#[trigger] r@[i]).host@ == hosts@[i]@ && r@[i].port == port,
{
    let mut r: Vec<Target> = Vec::new();
    let n = hosts.len();
    let mut hosts = hosts;
    let ghost gh = hosts@;
    let mut i: usize = 0;
    while i < n
        invariant
            i <= n,
            n == gh.len(),
            hosts@ =~= gh.subrange(i as int, n as int),
            r@.len() == i,
            forall|j: int|
                0 <= j < i ==> (#[trigger] r@[j]).host@ == gh[j]@ && r@[j].port == port,
        decreases n - i,
    {
        let h = hosts.remove(0);
        r.push(Target { host: h, port });
        i = i + 1;
    }
    r
}

} // verus!
