//! The connection snapshot parser: turns the multi-line tabular output
//! of the OS connection-enumeration tool into an ordered sequence of
//! connection records, applying the configured protocol and state
//! restrictions and the optional row cap while it parses.

use vstd::prelude::*;
use crate::cli::PortownArgs;
use crate::text::has_substring;
use crate::text::split_lines;
use crate::text::split_lines_exec;
use crate::text::str_contains;
use crate::text::str_eq;
use crate::text::tokenize;
use crate::text::tokens_of;

verus! {

/// The transport protocol of one connection row.
#[derive(Debug, Clone, Copy, PartialEq, Eq, Structural)]
pub enum Protocol {
    Tcp,
    Udp,
}

/// One parsed row of the connection snapshot. Addresses and state are
/// kept as the tool printed them; the owning process identifier stays a
/// string so that a malformed value degrades later instead of failing
/// the snapshot.
pub struct ConnectionRecord {
    pub protocol: Protocol,
    pub local_address: String,
    pub foreign_address: String,
    pub state: String,
    pub owner_pid: String,
}

/// The mathematical image of a `ConnectionRecord`.
pub struct ConnectionRecordView {
    pub protocol: Protocol,
    pub local_address: Seq<char>,
    pub foreign_address: Seq<char>,
    pub state: Seq<char>,
    pub owner_pid: Seq<char>,
}

impl View for ConnectionRecord {
    type V = ConnectionRecordView;

    open spec fn view(&self) -> ConnectionRecordView {
        ConnectionRecordView {
            protocol: self.protocol,
            local_address: self.local_address@,
            foreign_address: self.foreign_address@,
            state: self.state@,
            owner_pid: self.owner_pid@,
        }
    }
}

/// The protocol a line reports: the TCP marker wins when both occur,
/// and a line with neither marker is not a connection row.
pub open spec fn protocol_of_line(line: Seq<char>) -> Option<Protocol> {
    if has_substring(line, "TCP"@) {
        Some(Protocol::Tcp)
    } else if has_substring(line, "UDP"@) {
        Some(Protocol::Udp)
    } else {
        None
    }
}

/// The fewest whitespace-delimited fields a well-formed row can have:
/// a UDP row carries no state column, so it is one field shorter.
pub open spec fn min_fields(p: Protocol) -> nat {
    match p {
        Protocol::Tcp => 5,
        Protocol::Udp => 4,
    }
}

/// The record read from the fields of a well-formed row. A UDP row's
/// state is the dash sentinel, since UDP has no connection state.
pub open spec fn record_of_tokens(p: Protocol, toks: Seq<Seq<char>>) -> ConnectionRecordView {
    match p {
        Protocol::Tcp => ConnectionRecordView {
            protocol: p,
            local_address: toks[1],
            foreign_address: toks[2],
            state: toks[3],
            owner_pid: toks[4],
        },
        Protocol::Udp => ConnectionRecordView {
            protocol: p,
            local_address: toks[1],
            foreign_address: toks[2],
            state: "-"@,
            owner_pid: toks[3],
        },
    }
}

/// What one line of tool output parses to: one record when the line
/// carries a protocol marker and enough fields, nothing otherwise.
pub open spec fn parse_line_spec(line: Seq<char>) -> Option<ConnectionRecordView> {
    match protocol_of_line(line) {
        Some(p) => if tokens_of(line).len() >= min_fields(p) {
            Some(record_of_tokens(p, tokens_of(line)))
        } else {
            None
        },
        None => None,
    }
}

/// Whether a record survives the configured restrictions.
pub open spec fn passes_filters(args: PortownArgs, r: ConnectionRecordView) -> bool {
    &&& args.tcp_only ==> r.protocol == Protocol::Tcp
    &&& args.udp_only ==> r.protocol == Protocol::Udp
    &&& args.listen ==> r.state == "LISTENING"@
    &&& args.established_only ==> r.state == "ESTABLISHED"@
}

/// Parsing and filtering of one line under a configuration.
pub open spec fn accepted_record(args: PortownArgs, line: Seq<char>) -> Option<
    ConnectionRecordView,
> {
    match parse_line_spec(line) {
        Some(r) => if passes_filters(args, r) {
            Some(r)
        } else {
            None
        },
        None => None,
    }
}

/// The per-line acceptance function of a configuration.
pub open spec fn acceptor(args: PortownArgs) -> spec_fn(Seq<char>) -> Option<
    ConnectionRecordView,
> {
    |line: Seq<char>| accepted_record(args, line)
}

/// Every record the tool output yields under a configuration's
/// restrictions, in output order, before the row cap.
pub open spec fn filtered_snapshot(args: PortownArgs, text: Seq<char>) -> Seq<
    ConnectionRecordView,
> {
    split_lines(text).filter_map(acceptor(args))
}

/// The full snapshot of a configuration: the filtered records,
/// truncated to the configured row cap when one is set.
pub open spec fn snapshot_spec(args: PortownArgs, text: Seq<char>) -> Seq<ConnectionRecordView> {
    let filtered = filtered_snapshot(args, text);
    match args.depth {
        Some(d) => if d < filtered.len() {
            filtered.take(d as int)
        } else {
            filtered
        },
        None => filtered,
    }
}

/// Parses one line of tool output into a connection record, if it is a
/// well-formed connection row.
pub fn parse_line(line: &str) -> (r: Option<ConnectionRecord>)
    ensures
        match parse_line_spec(line@) {
            Some(v) => r matches Some(rec) && rec@ == v,
            None => r is None,
        },
{
    let is_tcp = str_contains(line, "TCP");
    let is_udp = str_contains(line, "UDP");
    if !is_tcp && !is_udp {
        return None;
    }
    let toks = tokenize(line);
    let ghost tseq = toks@.map_values(|t: String| t@);
    if is_tcp {
        if toks.len() < 5 {
            return None;
        }
        proof {
            assert(tseq[1] == toks@[1]@ && tseq[2] == toks@[2]@ && tseq[3] == toks@[3]@ && tseq[4]
                == toks@[4]@);
        }
        Some(
            ConnectionRecord {
                protocol: Protocol::Tcp,
                local_address: toks[1].clone(),
                foreign_address: toks[2].clone(),
                state: toks[3].clone(),
                owner_pid: toks[4].clone(),
            },
        )
    } else {
        if toks.len() < 4 {
            return None;
        }
        proof {
            assert(tseq[1] == toks@[1]@ && tseq[2] == toks@[2]@ && tseq[3] == toks@[3]@);
        }
        Some(
            ConnectionRecord {
                protocol: Protocol::Udp,
                local_address: toks[1].clone(),
                foreign_address: toks[2].clone(),
                state: String::from_str("-"),
                owner_pid: toks[3].clone(),
            },
        )
    }
}

/// Whether a record survives the configured restrictions.
pub fn record_passes(args: &PortownArgs, rec: &ConnectionRecord) -> (b: bool)
    ensures
        b == passes_filters(*args, rec@),
{
    if args.tcp_only && rec.protocol != Protocol::Tcp {
        return false;
    }
    if args.udp_only && rec.protocol != Protocol::Udp {
        return false;
    }
    if args.listen && !str_eq(rec.state.as_str(), "LISTENING") {
        return false;
    }
    if args.established_only && !str_eq(rec.state.as_str(), "ESTABLISHED") {
        return false;
    }
    true
}

/// Parses the raw output of the connection-enumeration tool into the
/// ordered, filtered, capped sequence of connection records.
pub fn parse_connections(args: &PortownArgs, text: &str) -> (r: Vec<ConnectionRecord>)
    ensures
        r@.map_values(|rec: ConnectionRecord| rec@) == snapshot_spec(*args, text@),
{
    let lines = split_lines_exec(text);
    let ghost lseqs = lines@.map_values(|t: String| t@);
    let mut out: Vec<ConnectionRecord> = Vec::new();
    let mut i: usize = 0;
    let mut capped = false;
    proof {
        assert(lseqs.take(0) =~= Seq::<Seq<char>>::empty());
        assert(Seq::<Seq<char>>::empty().filter_map(acceptor(*args)) =~= Seq::<
            ConnectionRecordView,
        >::empty());
    }
    while i < lines.len() && !capped
        invariant
            i <= lines.len(),
            lseqs == lines@.map_values(|t: String| t@),
            lseqs == split_lines(text@),
            out@.map_values(|rec: ConnectionRecord| rec@) =~= lseqs.take(i as int).filter_map(
                acceptor(*args),
            ),
            match args.depth {
                Some(d) => out@.len() <= d && (capped ==> out@.len() == d),
                None => !capped,
            },
        decreases lines.len() - i + (if capped {
            0int
        } else {
            1int
        }),
    {
        let mut hit_cap = false;
        if let Some(d) = args.depth {
            if out.len() >= d {
                hit_cap = true;
            }
        }
        if hit_cap {
            capped = true;
        } else {
            let line = &lines[i];
            let parsed = parse_line(line.as_str());
            proof {
                assert(lseqs[i as int] == lines@[i as int]@);
            }
            match parsed {
                Some(rec) => {
                    if record_passes(args, &rec) {
                        out.push(rec);
                    }
                },
                None => {},
            }
            proof {
                lseqs.lemma_filter_map_take_succ(acceptor(*args), i as int);
                assert(out@.map_values(|rec: ConnectionRecord| rec@) =~= lseqs.take(
                    i as int + 1,
                ).filter_map(acceptor(*args)));
            }
            i = i + 1;
        }
    }
    proof {
        let filtered = filtered_snapshot(*args, text@);
        lemma_filter_map_split(lseqs, i as int, acceptor(*args));
        if capped {
            match args.depth {
                Some(d) => {
                    assert(out@.len() == d);
                    assert(filtered =~= out@.map_values(|rec: ConnectionRecord| rec@)
                        + lseqs.skip(i as int).filter_map(acceptor(*args)));
                    if d < filtered.len() {
                        assert(filtered.take(d as int) =~= out@.map_values(
                            |rec: ConnectionRecord| rec@,
                        ));
                    } else {
                        assert(filtered =~= out@.map_values(|rec: ConnectionRecord| rec@));
                    }
                },
                None => {},
            }
        } else {
            assert(i == lines.len());
            assert(lseqs.take(lseqs.len() as int) =~= lseqs);
            assert(out@.map_values(|rec: ConnectionRecord| rec@) =~= filtered);
        }
    }
    out
}

/// Reports whether `s` occurs among the strings of `v`.
fn string_vec_contains(v: &Vec<String>, s: &str) -> (b: bool)
    ensures
        b == v@.map_values(|t: String| t@).contains(s@),
{
    let ghost vs = v@.map_values(|t: String| t@);
    let mut i: usize = 0;
    while i < v.len()
        invariant
            i <= v@.len(),
            vs == v@.map_values(|t: String| t@),
            forall|k: int| 0 <= k < i ==> vs[k] != s@,
        decreases v@.len() - i,
    {
        if str_eq(v[i].as_str(), s) {
            proof {
                assert(vs[i as int] == s@);
            }
            return true;
        }
        i = i + 1;
    }
    false
}

/// Some record of `records` names `p` as its owning process.
pub open spec fn pid_referenced(records: Seq<ConnectionRecord>, p: Seq<char>) -> bool {
    exists|i: int| 0 <= i < records.len() && #[trigger] records[i]@.owner_pid == p
}

/// `pids` is a duplicate-free list of exactly the owning-process
/// identifiers that `records` reference.
pub open spec fn lists_distinct_pids(pids: Seq<Seq<char>>, records: Seq<ConnectionRecord>) -> bool {
    &&& pids.no_duplicates()
    &&& forall|i: int| 0 <= i < records.len() ==> pids.contains(#[trigger] records[i]@.owner_pid)
    &&& forall|j: int| #![trigger pids[j]] 0 <= j < pids.len() ==> pid_referenced(records, pids[j])
}

/// The distinct owning-process identifiers referenced by a snapshot, in
/// order of first appearance: each referenced identifier exactly once,
/// and nothing else.
pub fn distinct_pids(records: &Vec<ConnectionRecord>) -> (r: Vec<String>)
    ensures
        lists_distinct_pids(r@.map_values(|t: String| t@), records@),
{
    let mut r: Vec<String> = Vec::new();
    let mut i: usize = 0;
    while i < records.len()
        invariant
            i <= records@.len(),
            r@.map_values(|t: String| t@).no_duplicates(),
            forall|k: int|
                0 <= k < i ==> r@.map_values(|t: String| t@).contains(
                    #[trigger] records@[k]@.owner_pid,
                ),
            forall|j: int| #![trigger r@[j]]
                0 <= j < r@.len() ==> pid_referenced(records@, r@[j]@),
        decreases records@.len() - i,
    {
        let ghost prev = r@.map_values(|t: String| t@);
        let pid = &records[i].owner_pid;
        if !string_vec_contains(&r, pid.as_str()) {
            let copy = pid.clone();
            r.push(copy);
            proof {
                assert(r@.map_values(|t: String| t@) =~= prev.push(pid@));
                assert(forall|j: int|
                    0 <= j < prev.len() ==> r@.map_values(|t: String| t@)[j] == prev[j]);
                assert(r@.map_values(|t: String| t@)[prev.len() as int] == records@[i as int]@.owner_pid);
                assert(records@[i as int]@.owner_pid == pid@);
                assert(pid_referenced(records@, pid@));
            }
        }
        i = i + 1;
    }
    proof {
        let pids = r@.map_values(|t: String| t@);
        assert forall|j: int| #![trigger pids[j]] 0 <= j < pids.len() implies pid_referenced(
            records@,
            pids[j],
        ) by {
            assert(pids[j] == r@[j]@);
        }
    }
    r
}

/// Parsing completeness: a line that carries a protocol marker and at
/// least the protocol's minimum field count parses to exactly one
/// record; a line without a marker, or with too few fields, parses to
/// none — and in neither case does the parse of the whole text fail.
pub proof fn lemma_parsing_completeness(line: Seq<char>)
    ensures
        has_substring(line, "TCP"@) && tokens_of(line).len() >= 5 ==> (parse_line_spec(line)
            matches Some(r) && r.protocol == Protocol::Tcp),
        !has_substring(line, "TCP"@) && has_substring(line, "UDP"@) && tokens_of(line).len() >= 4
            ==> (parse_line_spec(line) matches Some(r) && r.protocol == Protocol::Udp),
        !has_substring(line, "TCP"@) && !has_substring(line, "UDP"@) ==> parse_line_spec(line)
            is None,
        has_substring(line, "TCP"@) && tokens_of(line).len() < 5 ==> parse_line_spec(line) is None,
        !has_substring(line, "TCP"@) && has_substring(line, "UDP"@) && tokens_of(line).len() < 4
            ==> parse_line_spec(line) is None,
{
}

/// Filter correctness: every record of a configuration's snapshot also
/// stands in the unrestricted snapshot of the same text, and it obeys
/// each restriction the configuration sets.
pub proof fn lemma_filter_correctness(args: PortownArgs, text: Seq<char>, r: ConnectionRecordView)
    requires
        snapshot_spec(args, text).contains(r),
    ensures
        snapshot_spec(PortownArgs::unrestricted(), text).contains(r),
        args.tcp_only ==> r.protocol == Protocol::Tcp,
        args.udp_only ==> r.protocol == Protocol::Udp,
        args.listen ==> r.state == "LISTENING"@,
        args.established_only ==> r.state == "ESTABLISHED"@,
{
    let filtered = filtered_snapshot(args, text);
    let snap = snapshot_spec(args, text);
    let j = choose|j: int| 0 <= j < snap.len() && snap[j] == r;
    assert(filtered.contains(r)) by {
        assert(snap[j] == filtered[j]);
    }
    let lines = split_lines(text);
    lines.lemma_filter_map_contains(acceptor(args), r);
    let line = choose|line: Seq<char>|
        #[trigger] lines.contains(line) && acceptor(args)(line) == Some(r);
    assert(accepted_record(args, line) == Some(r));
    assert(parse_line_spec(line) == Some(r) && passes_filters(args, r));
    let k = choose|k: int| 0 <= k < lines.len() && lines[k] == line;
    lemma_filter_map_member(lines, k, acceptor(PortownArgs::unrestricted()));
    assert(accepted_record(PortownArgs::unrestricted(), line) == Some(r));
    assert(snapshot_spec(PortownArgs::unrestricted(), text) == filtered_snapshot(
        PortownArgs::unrestricted(),
        text,
    ));
}

/// Mapping through `g` — a mapping `f` with a filter `p` folded in —
/// is mapping through `f` and then filtering with `p`.
proof fn lemma_filter_map_then_filter<A, B>(
    s: Seq<A>,
    f: spec_fn(A) -> Option<B>,
    g: spec_fn(A) -> Option<B>,
    p: spec_fn(B) -> bool,
)
    requires
        forall|a: A| #[trigger] g(a) == (match f(a) {
            Some(b) => if p(b) {
                Some(b)
            } else {
                None::<B>
            },
            None => None::<B>,
        }),
    ensures
        s.filter_map(g) =~= s.filter_map(f).filter(p),
    decreases s.len(),
{
    reveal(Seq::filter);
    if s.len() == 0 {
    } else {
        let rest = s.drop_last();
        lemma_filter_map_then_filter(rest, f, g, p);
        assert(g(s.last()) == (match f(s.last()) {
            Some(b) => if p(b) {
                Some(b)
            } else {
                None::<B>
            },
            None => None::<B>,
        }));
        match f(s.last()) {
            Some(b) => {
                assert((rest.filter_map(f) + seq![b]).drop_last() =~= rest.filter_map(f));
                assert((rest.filter_map(f) + seq![b]).last() == b);
            },
            None => {},
        }
    }
}

/// Every line's acceptance under a configuration is its unrestricted
/// parse with the configuration's restrictions folded in, so a
/// configuration's records are exactly the unrestricted records that
/// pass its restrictions, in the same order.
pub proof fn lemma_filters_refine_the_unrestricted_snapshot(args: PortownArgs, text: Seq<char>)
    ensures
        filtered_snapshot(args, text) =~= filtered_snapshot(
            PortownArgs::unrestricted(),
            text,
        ).filter(|r: ConnectionRecordView| passes_filters(args, r)),
{
    let f = acceptor(PortownArgs::unrestricted());
    let g = acceptor(args);
    let p = |r: ConnectionRecordView| passes_filters(args, r);
    assert forall|line: Seq<char>| #[trigger] g(line) == (match f(line) {
        Some(b) => if p(b) {
            Some(b)
        } else {
            None::<ConnectionRecordView>
        },
        None => None::<ConnectionRecordView>,
    }) by {
        assert(accepted_record(args, line) == (match parse_line_spec(line) {
            Some(r) => if passes_filters(args, r) {
                Some(r)
            } else {
                None::<ConnectionRecordView>
            },
            None => None::<ConnectionRecordView>,
        }));
    }
    lemma_filter_map_then_filter(split_lines(text), f, g, p);
}

/// Row cap: with a cap of `n`, the snapshot holds the lesser of `n` and
/// the number of surviving records; a cap of zero yields an empty
/// snapshot, and no cap leaves the filtered sequence whole.
pub proof fn lemma_row_cap(args: PortownArgs, text: Seq<char>)
    ensures
        args.depth matches Some(n) ==> snapshot_spec(args, text).len() == if (n as int)
            <= filtered_snapshot(args, text).len() {
            n as int
        } else {
            filtered_snapshot(args, text).len() as int
        },
        args.depth == Some(0usize) ==> snapshot_spec(args, text) =~= Seq::<
            ConnectionRecordView,
        >::empty(),
        args.depth is None ==> snapshot_spec(args, text) == filtered_snapshot(args, text),
{
}

/// A member of a sequence whose image under `f` is a value contributes
/// that value to the sequence's `filter_map` image.
proof fn lemma_filter_map_member<A, B>(s: Seq<A>, i: int, f: spec_fn(A) -> Option<B>)
    requires
        0 <= i < s.len(),
        f(s[i]) is Some,
    ensures
        s.filter_map(f).contains(f(s[i])->0),
    decreases s.len(),
{
    if i == s.len() - 1 {
        match f(s.last()) {
            Some(b) => {
                assert(s.filter_map(f) == s.drop_last().filter_map(f) + seq![b]);
                assert(s.filter_map(f)[s.filter_map(f).len() - 1] == b);
            },
            None => {},
        }
    } else {
        lemma_filter_map_member(s.drop_last(), i, f);
        assert(s.drop_last()[i] == s[i]);
        let sub = s.drop_last().filter_map(f);
        let j = choose|j: int| 0 <= j < sub.len() && sub[j] == f(s[i])->0;
        match f(s.last()) {
            Some(b) => {
                assert(s.filter_map(f) == sub + seq![b]);
                assert(s.filter_map(f)[j] == sub[j]);
            },
            None => {
                assert(s.filter_map(f) == sub);
            },
        }
    }
}

/// Splitting a sequence at any point splits its `filter_map` image.
proof fn lemma_filter_map_split<A, B>(s: Seq<A>, k: int, f: spec_fn(A) -> Option<B>)
    requires
        0 <= k <= s.len(),
    ensures
        s.filter_map(f) =~= s.take(k).filter_map(f) + s.skip(k).filter_map(f),
    decreases s.len() - k,
{
    if k == s.len() {
        assert(s.take(k) =~= s);
        assert(s.skip(k) =~= Seq::<A>::empty());
        assert(Seq::<A>::empty().filter_map(f) =~= Seq::<B>::empty());
    } else {
        lemma_filter_map_split(s, k + 1, f);
        s.lemma_filter_map_take_succ(f, k);
        assert(s.skip(k) =~= seq![s[k]] + s.skip(k + 1));
        Seq::<A>::lemma_filter_map_singleton(s[k], f);
        lemma_filter_map_app(seq![s[k]], s.skip(k + 1), f);
    }
}

/// `filter_map` distributes over concatenation.
proof fn lemma_filter_map_app<A, B>(a: Seq<A>, b: Seq<A>, f: spec_fn(A) -> Option<B>)
    ensures
        (a + b).filter_map(f) =~= a.filter_map(f) + b.filter_map(f),
    decreases b.len(),
{
    if b.len() == 0 {
        assert(a + b =~= a);
        assert(b.filter_map(f) =~= Seq::<B>::empty());
    } else {
        lemma_filter_map_app(a, b.drop_last(), f);
        assert((a + b).drop_last() =~= a + b.drop_last());
        assert((a + b).last() == b.last());
    }
}

} // verus!
