//! The process identity resolver: maps owning-process identifiers to
//! display name and executable path, memoizing every answer — including
//! a failed lookup, which degrades to the Unknown placeholder instead of
//! failing the run — so that each identifier costs at most one external
//! query. The external query itself runs outside the library; its
//! outcome is handed in and recorded here.

use vstd::prelude::*;
use crate::text::ascii_lower_seq;
use crate::text::base_name;
use crate::text::base_name_spec;
use crate::text::eq_ignore_ascii_case_exec;
use crate::text::split_lines;
use crate::text::split_lines_exec;
use crate::text::str_eq;
use crate::text::tokenize;
use crate::text::tokens_of;

verus! {

/// Resolved metadata for one process identifier.
pub struct ProcessIdentity {
    /// Executable or display name, or "Unknown".
    pub name: String,
    /// Filesystem path to the executable, or "Unknown".
    pub path: String,
}

/// The mathematical image of a `ProcessIdentity`.
pub struct IdentityView {
    pub name: Seq<char>,
    pub path: Seq<char>,
}

impl View for ProcessIdentity {
    type V = IdentityView;

    open spec fn view(&self) -> IdentityView {
        IdentityView { name: self.name@, path: self.path@ }
    }
}

/// The placeholder identity of a process that could not be identified.
pub open spec fn unknown_identity() -> IdentityView {
    IdentityView { name: "Unknown"@, path: "Unknown"@ }
}

impl ProcessIdentity {
    /// The degraded placeholder identity.
    pub fn unknown() -> (r: Self)
        ensures
            r@ == unknown_identity(),
    {
        ProcessIdentity { name: String::from_str("Unknown"), path: String::from_str("Unknown") }
    }
}

/// What a lookup outcome is recorded as: the identity it found, or the
/// placeholder when it failed or found nothing.
pub open spec fn degraded(found: Option<IdentityView>) -> IdentityView {
    match found {
        Some(id) => id,
        None => unknown_identity(),
    }
}

/// The first identity recorded for `pid`, if any.
pub open spec fn cache_lookup(
    entries: Seq<(Seq<char>, IdentityView)>,
    pid: Seq<char>,
) -> Option<IdentityView>
    decreases entries.len(),
{
    if entries.len() == 0 {
        None
    } else if entries[0].0 == pid {
        Some(entries[0].1)
    } else {
        cache_lookup(entries.drop_first(), pid)
    }
}

/// What `pid` resolves to against a cache: its recorded identity, or
/// the placeholder when nothing is recorded.
pub open spec fn resolved_identity(
    entries: Seq<(Seq<char>, IdentityView)>,
    pid: Seq<char>,
) -> IdentityView {
    degraded(cache_lookup(entries, pid))
}

/// What the cache holds after a lookup outcome for `pid` is recorded:
/// unchanged when `pid` is already cached, extended by the possibly
/// degraded outcome otherwise.
pub open spec fn stored(
    entries: Seq<(Seq<char>, IdentityView)>,
    pid: Seq<char>,
    found: Option<IdentityView>,
) -> Seq<(Seq<char>, IdentityView)> {
    if cache_lookup(entries, pid) is Some {
        entries
    } else {
        entries.push((pid, degraded(found)))
    }
}

/// `cache_lookup` is decided by the first entry holding the key.
proof fn lemma_cache_lookup_at(entries: Seq<(Seq<char>, IdentityView)>, pid: Seq<char>, j: int)
    requires
        0 <= j <= entries.len(),
        forall|k: int| 0 <= k < j ==> (#[trigger] entries[k]).0 != pid,
        j == entries.len() || entries[j].0 == pid,
    ensures
        cache_lookup(entries, pid) == if j == entries.len() {
            Option::<IdentityView>::None
        } else {
            Some(entries[j].1)
        },
    decreases j,
{
    if j == 0 {
    } else {
        assert(entries[0].0 != pid);
        let t = entries.drop_first();
        assert(forall|k: int| 0 <= k < j - 1 ==> (#[trigger] t[k]) == entries[k + 1]);
        if j - 1 < t.len() {
            assert(t[j - 1] == entries[j]);
        }
        lemma_cache_lookup_at(t, pid, j - 1);
    }
}

/// Extending a cache that lacks `pid` with an entry for `pid` makes
/// that entry its answer; entries for other keys never change an
/// answer.
proof fn lemma_cache_lookup_push(
    entries: Seq<(Seq<char>, IdentityView)>,
    pid: Seq<char>,
    e: (Seq<char>, IdentityView),
)
    ensures
        e.0 == pid && cache_lookup(entries, pid) is None ==> cache_lookup(
            entries.push(e),
            pid,
        ) == Some(e.1),
        e.0 != pid ==> cache_lookup(entries.push(e), pid) == cache_lookup(entries, pid),
    decreases entries.len(),
{
    if entries.len() == 0 {
        assert(entries.push(e)[0] == e);
        assert(entries.push(e).drop_first() =~= Seq::<(Seq<char>, IdentityView)>::empty());
        assert(cache_lookup(Seq::<(Seq<char>, IdentityView)>::empty(), pid) is None);
        if e.0 != pid {
            assert(cache_lookup(entries.push(e), pid) == cache_lookup(
                entries.push(e).drop_first(),
                pid,
            ));
        }
    } else {
        assert(entries.push(e)[0] == entries[0]);
        assert(entries.push(e).drop_first() =~= entries.drop_first().push(e));
        lemma_cache_lookup_push(entries.drop_first(), pid, e);
    }
}

/// The memoizing identity cache. It lives for the whole run: an answer,
/// once recorded, is never evicted and never queried for again.
pub struct Resolver {
    cache: Vec<(String, ProcessIdentity)>,
}

impl Resolver {
    /// The cache contents as key–identity pairs, in insertion order.
    pub closed spec fn entries(self) -> Seq<(Seq<char>, IdentityView)> {
        self.cache@.map_values(|e: (String, ProcessIdentity)| (e.0@, e.1@))
    }

    /// A fresh resolver with an empty cache.
    pub fn new() -> (r: Self)
        ensures
            r.entries() =~= Seq::<(Seq<char>, IdentityView)>::empty(),
    {
        Resolver { cache: Vec::new() }
    }

    /// Index of the first cache entry for `pid`, scanning in insertion
    /// order.
    fn find(&self, pid: &str) -> (j: usize)
        ensures
            j <= self.entries().len(),
            cache_lookup(self.entries(), pid@) == if j == self.entries().len() {
                Option::<IdentityView>::None
            } else {
                Some(self.entries()[j as int].1)
            },
    {
        let ghost entries = self.entries();
        let mut j: usize = 0;
        while j < self.cache.len()
            invariant
                j <= self.cache@.len(),
                entries == self.entries(),
                entries.len() == self.cache@.len(),
                forall|k: int| 0 <= k < j ==> (#[trigger] entries[k]).0 != pid@,
            decreases self.cache@.len() - j,
        {
            if str_eq(self.cache[j].0.as_str(), pid) {
                proof {
                    assert(entries[j as int].0 == pid@);
                    lemma_cache_lookup_at(entries, pid@, j as int);
                }
                return j;
            }
            proof {
                assert(entries[j as int].0 != pid@);
            }
            j = j + 1;
        }
        proof {
            lemma_cache_lookup_at(entries, pid@, j as int);
        }
        j
    }

    /// Whether an external lookup is still owed for `pid`: true exactly
    /// when no answer is cached, so a cached identifier is never looked
    /// up again.
    pub fn needs_lookup(&self, pid: &str) -> (b: bool)
        ensures
            b == (cache_lookup(self.entries(), pid@) is None),
    {
        let j = self.find(pid);
        j == self.cache.len()
    }

    /// Records a lookup outcome for `pid`: a failed or empty lookup is
    /// recorded as the Unknown placeholder, and an identifier that is
    /// already cached is left untouched.
    pub fn store(&mut self, pid: &str, found: Option<ProcessIdentity>)
        ensures
            final(self).entries() == stored(
                old(self).entries(),
                pid@,
                match found {
                    Some(id) => Some(id@),
                    None => None,
                },
            ),
    {
        let ghost entries = self.entries();
        let j = self.find(pid);
        if j == self.cache.len() {
            let id = match found {
                Some(id) => id,
                None => ProcessIdentity::unknown(),
            };
            let key = pid.to_owned();
            self.cache.push((key, id));
            proof {
                assert(self.entries() =~= entries.push((pid@, id@)));
            }
        }
    }

    /// The identity `pid` resolves to right now: the cached answer, or
    /// the Unknown placeholder when none is recorded.
    pub fn identity_for(&self, pid: &str) -> (r: ProcessIdentity)
        ensures
            r@ == resolved_identity(self.entries(), pid@),
    {
        let j = self.find(pid);
        if j == self.cache.len() {
            ProcessIdentity::unknown()
        } else {
            let entry = &self.cache[j];
            ProcessIdentity { name: entry.1.name.clone(), path: entry.1.path.clone() }
        }
    }
}

/// Index of the first field whose ASCII-lower-cased text equals
/// `label`, if any.
pub open spec fn col_index(toks: Seq<Seq<char>>, label: Seq<char>) -> Option<int>
    decreases toks.len(),
{
    if toks.len() == 0 {
        None
    } else if ascii_lower_seq(toks[0]) == label {
        Some(0)
    } else {
        match col_index(toks.drop_first(), label) {
            Some(i) => Some(i + 1),
            None => None,
        }
    }
}

/// `col_index` is decided by the first matching field.
proof fn lemma_col_index_at(toks: Seq<Seq<char>>, label: Seq<char>, j: int)
    requires
        0 <= j <= toks.len(),
        forall|k: int| 0 <= k < j ==> ascii_lower_seq(#[trigger] toks[k]) != label,
        j == toks.len() || ascii_lower_seq(toks[j]) == label,
    ensures
        col_index(toks, label) == if j == toks.len() {
            Option::<int>::None
        } else {
            Some(j)
        },
    decreases j,
{
    if j == 0 {
    } else {
        assert(ascii_lower_seq(toks[0]) != label);
        let t = toks.drop_first();
        assert(forall|k: int| 0 <= k < j - 1 ==> (#[trigger] t[k]) == toks[k + 1]);
        if j - 1 < t.len() {
            assert(t[j - 1] == toks[j]);
        }
        lemma_col_index_at(t, label, j - 1);
    }
}

/// What the tabular output of the system management query names a
/// process, read by locating the name and executable-path columns in
/// the header row — by their case-insensitive titles, not by position —
/// and taking the matching fields of the first data row. Output that
/// lacks a data row, either column title, or either field yields
/// nothing, which a caller records as a failed lookup.
pub open spec fn identity_table_spec(text: Seq<char>) -> Option<IdentityView> {
    let lines = split_lines(text);
    if lines.len() < 2 {
        None
    } else {
        let header = tokens_of(lines[0]);
        let data = tokens_of(lines[1]);
        match (col_index(header, "name"@), col_index(header, "executablepath"@)) {
            (Some(n), Some(p)) => if n < data.len() && p < data.len() {
                Some(IdentityView { name: data[n], path: data[p] })
            } else {
                None
            },
            _ => None,
        }
    }
}

/// Finds the first field of `toks` titled `label` up to ASCII case.
/// `label` must already be lower-case for the answer to mean a
/// case-insensitive match.
fn find_column(toks: &Vec<String>, label: &str) -> (j: usize)
    requires
        ascii_lower_seq(label@) == label@,
    ensures
        j <= toks@.len(),
        col_index(toks@.map_values(|t: String| t@), label@) == if j == toks@.len() {
            Option::<int>::None
        } else {
            Some(j as int)
        },
{
    let ghost tseq = toks@.map_values(|t: String| t@);
    let mut j: usize = 0;
    while j < toks.len()
        invariant
            j <= toks@.len(),
            tseq == toks@.map_values(|t: String| t@),
            ascii_lower_seq(label@) == label@,
            forall|k: int| 0 <= k < j ==> ascii_lower_seq(#[trigger] tseq[k]) != label@,
        decreases toks@.len() - j,
    {
        if eq_ignore_ascii_case_exec(toks[j].as_str(), label) {
            proof {
                assert(ascii_lower_seq(tseq[j as int]) == label@);
                lemma_col_index_at(tseq, label@, j as int);
            }
            return j;
        }
        proof {
            assert(ascii_lower_seq(tseq[j as int]) != label@);
        }
        j = j + 1;
    }
    proof {
        lemma_col_index_at(tseq, label@, j as int);
    }
    j
}

/// Reads a process identity out of the tabular output of the system
/// management query tool, as `identity_table_spec` describes.
pub fn parse_identity_table(output: &str) -> (r: Option<ProcessIdentity>)
    ensures
        match identity_table_spec(output@) {
            Some(v) => r matches Some(id) && id@ == v,
            None => r is None,
        },
{
    proof {
        reveal_strlit("name");
        reveal_strlit("executablepath");
        assert(ascii_lower_seq("name"@) =~= "name"@);
        assert(ascii_lower_seq("executablepath"@) =~= "executablepath"@);
    }
    let lines = split_lines_exec(output);
    if lines.len() < 2 {
        return None;
    }
    let header = tokenize(lines[0].as_str());
    let data = tokenize(lines[1].as_str());
    proof {
        assert(lines@.map_values(|t: String| t@)[0] == lines@[0]@);
        assert(lines@.map_values(|t: String| t@)[1] == lines@[1]@);
    }
    let n = find_column(&header, "name");
    let p = find_column(&header, "executablepath");
    if n == header.len() || p == header.len() {
        return None;
    }
    if n >= data.len() || p >= data.len() {
        return None;
    }
    proof {
        let dseq = data@.map_values(|t: String| t@);
        assert(dseq[n as int] == data@[n as int]@);
        assert(dseq[p as int] == data@[p as int]@);
    }
    Some(ProcessIdentity { name: data[n].clone(), path: data[p].clone() })
}

/// The identity read straight from a process's executable image path,
/// the way the direct-introspection lookup derives it: the display name
/// is the path's final backslash-separated component.
pub fn identity_from_image_path(path: &str) -> (r: ProcessIdentity)
    ensures
        r@.name == base_name_spec(path@),
        r@.path == path@,
{
    ProcessIdentity { name: base_name(path), path: path.to_owned() }
}

/// Resolver memoization: once an outcome for `pid` is recorded, no
/// further lookup is owed for it, resolving it yields the recorded
/// identity — the same value on every later resolution — and recording
/// another outcome changes nothing.
pub proof fn lemma_resolver_memoization(
    entries: Seq<(Seq<char>, IdentityView)>,
    pid: Seq<char>,
    found: Option<IdentityView>,
    later: Option<IdentityView>,
)
    ensures
        cache_lookup(stored(entries, pid, found), pid) is Some,
        cache_lookup(entries, pid) is None ==> resolved_identity(stored(entries, pid, found), pid)
            == degraded(found),
        stored(stored(entries, pid, found), pid, later) == stored(entries, pid, found),
{
    lemma_cache_lookup_push(entries, pid, (pid, degraded(found)));
}

/// Resolver total degradation: a `pid` whose lookup failed or returned
/// nothing resolves to the Unknown placeholder — both before anything
/// is recorded for it and after the failure is recorded — and the
/// failure is cached like any answer.
pub proof fn lemma_resolver_degradation(entries: Seq<(Seq<char>, IdentityView)>, pid: Seq<char>)
    ensures
        cache_lookup(entries, pid) is None ==> resolved_identity(entries, pid)
            == unknown_identity(),
        cache_lookup(entries, pid) is None ==> resolved_identity(
            stored(entries, pid, None),
            pid,
        ) == unknown_identity(),
        cache_lookup(stored(entries, pid, None), pid) is Some,
{
    lemma_resolver_memoization(entries, pid, None, None);
}

} // verus!
