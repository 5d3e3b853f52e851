//! The progress reconstructor.  From a table manifest and the dump
//! tool's log text it rebuilds, on every call and from scratch, each
//! table's state and the aggregate counts.  Completion is partly
//! inferred: when a worker thread that was alone on a table turns up on
//! a different one, the table it left is taken as finished.

use vstd::prelude::*;
use vstd::string::StringExecFns;
use crate::progress::{
    spec_estimate_match, spec_report_match, spec_error_match, spec_finished, spec_log_lines,
    estimate_match, report_match, error_match, finished_match, split_log_lines,
};
use crate::foreign::chars_to_string;

verus! {

/// A table's place in the run.
#[derive(Clone, Copy, Debug, PartialEq, Eq, Structural)]
pub enum TableStatus {
    Pending,
    InProgress,
    Completed,
    Skipped,
    Error,
}

/// One table's reconstructed state.
#[derive(Debug, Clone)]
pub struct TableProgress {
    pub name: String,
    pub status: TableStatus,
    pub progress_percent: Option<u32>,
    pub started_at: Option<u64>,
    pub completed_at: Option<u64>,
    pub error_message: Option<String>,
}

/// The mathematical shadow of a table entry.
pub ghost struct TableEntryV {
    pub name: Seq<char>,
    pub status: TableStatus,
    pub percent: Option<u32>,
    pub started_at: Option<u64>,
    pub completed_at: Option<u64>,
    pub error: Option<Seq<char>>,
}

impl View for TableProgress {
    type V = TableEntryV;

    open spec fn view(&self) -> TableEntryV {
        TableEntryV {
            name: self.name@,
            status: self.status,
            percent: self.progress_percent,
            started_at: self.started_at,
            completed_at: self.completed_at,
            error: match self.error_message {
                Some(m) => Some(m@),
                None => None,
            },
        }
    }
}

/// The views of a row of table entries.
pub open spec fn spec_entry_views(ts: Seq<TableProgress>) -> Seq<TableEntryV> {
    ts.map_values(|t: TableProgress| t@)
}

/// Every manifest table starts out pending, with nothing recorded.
pub open spec fn spec_init_tables(names: Seq<Seq<char>>) -> Seq<TableEntryV> {
    Seq::new(
        names.len(),
        |i: int|
            TableEntryV {
                name: names[i],
                status: TableStatus::Pending,
                percent: None,
                started_at: None,
                completed_at: None,
                error: None,
            },
    )
}

/// The first entry carrying a name, if any: log lines address tables by
/// name, and the earliest manifest entry wins.
pub open spec fn spec_find_table(ts: Seq<TableEntryV>, name: Seq<char>) -> Option<int>
    decreases ts.len(),
{
    if ts.len() == 0 {
        None
    } else if ts[0].name == name {
        Some(0)
    } else {
        match spec_find_table(ts.skip(1), name) {
            Some(j) => Some(j + 1),
            None => None,
        }
    }
}

pub proof fn lemma_find_table_first(ts: Seq<TableEntryV>, name: Seq<char>)
    ensures
        match spec_find_table(ts, name) {
            Some(i) => 0 <= i < ts.len() && ts[i].name == name && forall|j: int|
                0 <= j < i ==> ts[j].name != name,
            None => forall|j: int| 0 <= j < ts.len() ==> ts[j].name != name,
        },
    decreases ts.len(),
{
    if ts.len() > 0 && ts[0].name != name {
        lemma_find_table_first(ts.skip(1), name);
        assert forall|j: int| 1 <= j < ts.len() implies ts.skip(1)[j - 1] == ts[j] by {}
    }
}

/// A row-estimate notice: the named table moves from pending to
/// in-progress.
pub open spec fn spec_apply_estimate(ts: Seq<TableEntryV>, name: Seq<char>, now: u64) -> Seq<
    TableEntryV,
> {
    match spec_find_table(ts, name) {
        Some(i) => {
            if ts[i].status == TableStatus::Pending {
                ts.update(
                    i,
                    TableEntryV {
                        status: TableStatus::InProgress,
                        started_at: if ts[i].started_at is None {
                            Some(now)
                        } else {
                            ts[i].started_at
                        },
                        ..ts[i]
                    },
                )
            } else {
                ts
            }
        },
        None => ts,
    }
}

/// No thread other than `th` is currently assigned to `table`.
pub open spec fn spec_no_other_thread(
    threads: Map<u32, Seq<char>>,
    th: u32,
    table: Seq<char>,
) -> bool {
    forall|m: u32| m != th && threads.contains_key(m) ==> threads[m] != table
}

/// A thread's progress report.  If the thread was alone on a different
/// table, that table is inferred complete; the thread is reassigned, and
/// the reported table is recorded in progress at the reported percent.
pub open spec fn spec_apply_report(
    ts: Seq<TableEntryV>,
    threads: Map<u32, Seq<char>>,
    th: u32,
    name: Seq<char>,
    pct: u32,
    now: u64,
) -> (Seq<TableEntryV>, Map<u32, Seq<char>>) {
    let ts1 = if threads.contains_key(th) && threads[th] != name && spec_no_other_thread(
        threads,
        th,
        threads[th],
    ) {
        match spec_find_table(ts, threads[th]) {
            Some(i) => {
                if ts[i].status != TableStatus::Error {
                    ts.update(
                        i,
                        TableEntryV {
                            status: TableStatus::Completed,
                            percent: Some(100u32),
                            completed_at: Some(now),
                            ..ts[i]
                        },
                    )
                } else {
                    ts
                }
            },
            None => ts,
        }
    } else {
        ts
    };
    let ts2 = match spec_find_table(ts1, name) {
        Some(i) => ts1.update(
            i,
            TableEntryV {
                status: TableStatus::InProgress,
                percent: Some(pct),
                started_at: if ts1[i].started_at is None {
                    Some(now)
                } else {
                    ts1[i].started_at
                },
                ..ts1[i]
            },
        ),
        None => ts1,
    };
    (ts2, threads.insert(th, name))
}

/// An error marker: the named table moves to error with a generic
/// message, whatever state it was in.
pub open spec fn spec_apply_error(ts: Seq<TableEntryV>, name: Seq<char>) -> Seq<TableEntryV> {
    match spec_find_table(ts, name) {
        Some(i) => ts.update(
            i,
            TableEntryV {
                status: TableStatus::Error,
                error: Some("Error during backup"@),
                ..ts[i]
            },
        ),
        None => ts,
    }
}

/// One log line's effect: the estimate rule, then the report rule, then
/// the error rule, each when its pattern matches.
pub open spec fn spec_apply_line(
    ts: Seq<TableEntryV>,
    threads: Map<u32, Seq<char>>,
    line: Seq<char>,
    now: u64,
) -> (Seq<TableEntryV>, Map<u32, Seq<char>>) {
    let a = match spec_estimate_match(line) {
        Some(n) => spec_apply_estimate(ts, n, now),
        None => ts,
    };
    let (b, th2) = match spec_report_match(line) {
        Some(r) => spec_apply_report(a, threads, r.0, r.1, r.2, now),
        None => (a, threads),
    };
    let c = match spec_error_match(line) {
        Some(n) => spec_apply_error(b, n),
        None => b,
    };
    (c, th2)
}

/// The whole log's effect, line by line from the top.
pub open spec fn spec_replay(
    ts: Seq<TableEntryV>,
    threads: Map<u32, Seq<char>>,
    lines: Seq<Seq<char>>,
    now: u64,
) -> (Seq<TableEntryV>, Map<u32, Seq<char>>)
    decreases lines.len(),
{
    if lines.len() == 0 {
        (ts, threads)
    } else {
        let p = spec_apply_line(ts, threads, lines[0], now);
        spec_replay(p.0, p.1, lines.skip(1), now)
    }
}

pub proof fn lemma_replay_snoc(
    ts: Seq<TableEntryV>,
    threads: Map<u32, Seq<char>>,
    lines: Seq<Seq<char>>,
    k: int,
    now: u64,
)
    requires
        0 <= k < lines.len(),
    ensures
        spec_replay(ts, threads, lines.take(k + 1), now) == ({
            let p = spec_replay(ts, threads, lines.take(k), now);
            spec_apply_line(p.0, p.1, lines[k], now)
        }),
    decreases k,
{
    if k == 0 {
        let p = spec_apply_line(ts, threads, lines[0], now);
        assert(lines.take(1).len() == 1);
        assert(lines.take(1)[0] == lines[0]);
        assert(lines.take(1).skip(1) =~= Seq::<Seq<char>>::empty());
        assert(lines.take(0) =~= Seq::<Seq<char>>::empty());
        assert(spec_replay(ts, threads, lines.take(0), now) == (ts, threads));
        assert(spec_replay(ts, threads, lines.take(1), now) == spec_replay(
            p.0,
            p.1,
            lines.take(1).skip(1),
            now,
        ));
        assert(spec_replay(p.0, p.1, lines.take(1).skip(1), now) == p);
    } else {
        let p0 = spec_apply_line(ts, threads, lines[0], now);
        assert(lines.take(k + 1).len() == k + 1);
        assert(lines.take(k).len() == k);
        assert(lines.take(k + 1)[0] == lines[0]);
        assert(lines.take(k)[0] == lines[0]);
        assert(lines.take(k + 1).skip(1) =~= lines.skip(1).take(k));
        assert(lines.take(k).skip(1) =~= lines.skip(1).take(k - 1));
        assert(lines.skip(1)[k - 1] == lines[k]);
        lemma_replay_snoc(p0.0, p0.1, lines.skip(1), k - 1, now);
        assert(spec_replay(ts, threads, lines.take(k + 1), now) == spec_replay(
            p0.0,
            p0.1,
            lines.skip(1).take(k),
            now,
        ));
        assert(spec_replay(ts, threads, lines.take(k), now) == spec_replay(
            p0.0,
            p0.1,
            lines.skip(1).take(k - 1),
            now,
        ));
        assert(spec_replay(p0.0, p0.1, lines.skip(1).take(k), now) == ({
            let q = spec_replay(p0.0, p0.1, lines.skip(1).take(k - 1), now);
            spec_apply_line(q.0, q.1, lines.skip(1)[k - 1], now)
        }));
    }
}

/// Replaying never adds or drops table entries, and never renames one.
pub proof fn lemma_apply_line_len(
    ts: Seq<TableEntryV>,
    threads: Map<u32, Seq<char>>,
    line: Seq<char>,
    now: u64,
)
    ensures
        spec_apply_line(ts, threads, line, now).0.len() == ts.len(),
{
    let a = match spec_estimate_match(line) {
        Some(n) => spec_apply_estimate(ts, n, now),
        None => ts,
    };
    assert(a.len() == ts.len()) by {
        match spec_estimate_match(line) {
            Some(n) => {
                lemma_find_table_first(ts, n);
            },
            None => {},
        }
    }
    let b = match spec_report_match(line) {
        Some(r) => spec_apply_report(a, threads, r.0, r.1, r.2, now).0,
        None => a,
    };
    assert(b.len() == a.len()) by {
        match spec_report_match(line) {
            Some(r) => {
                let th = r.0;
                let ts1 = if threads.contains_key(th) && threads[th] != r.1
                    && spec_no_other_thread(threads, th, threads[th]) {
                    match spec_find_table(a, threads[th]) {
                        Some(i) => {
                            if a[i].status != TableStatus::Error {
                                a.update(
                                    i,
                                    TableEntryV {
                                        status: TableStatus::Completed,
                                        percent: Some(100u32),
                                        completed_at: Some(now),
                                        ..a[i]
                                    },
                                )
                            } else {
                                a
                            }
                        },
                        None => a,
                    }
                } else {
                    a
                };
                lemma_find_table_first(a, if threads.contains_key(th) {
                    threads[th]
                } else {
                    r.1
                });
                assert(ts1.len() == a.len());
                lemma_find_table_first(ts1, r.1);
            },
            None => {},
        }
    }
    assert(spec_apply_line(ts, threads, line, now).0.len() == b.len()) by {
        match spec_error_match(line) {
            Some(n) => {
                lemma_find_table_first(b, n);
            },
            None => {},
        }
    }
}

pub proof fn lemma_replay_len(
    ts: Seq<TableEntryV>,
    threads: Map<u32, Seq<char>>,
    lines: Seq<Seq<char>>,
    now: u64,
)
    ensures
        spec_replay(ts, threads, lines, now).0.len() == ts.len(),
    decreases lines.len(),
{
    if lines.len() > 0 {
        let p = spec_apply_line(ts, threads, lines[0], now);
        lemma_apply_line_len(ts, threads, lines[0], now);
        lemma_replay_len(p.0, p.1, lines.skip(1), now);
    }
}

/// Whether any line carries the end-of-dump marker.
pub open spec fn spec_any_finished(lines: Seq<Seq<char>>) -> bool {
    exists|i: int| 0 <= i < lines.len() && spec_finished(#[trigger] lines[i])
}

/// The end-of-run sweep: everything not in error and not yet completed
/// is forced complete at one hundred percent.
pub open spec fn spec_sweep(ts: Seq<TableEntryV>, now: u64) -> Seq<TableEntryV> {
    Seq::new(
        ts.len(),
        |i: int|
            if ts[i].status == TableStatus::Error || ts[i].status == TableStatus::Completed {
                ts[i]
            } else {
                TableEntryV {
                    status: TableStatus::Completed,
                    percent: Some(100u32),
                    completed_at: Some(now),
                    ..ts[i]
                }
            },
    )
}

/// What reconstruction yields for the manifest tables: the replay of
/// every line over the freshly initialized row, swept if any line says
/// the dump finished.
pub open spec fn spec_reconstruct(names: Seq<Seq<char>>, lines: Seq<Seq<char>>, now: u64) -> Seq<
    TableEntryV,
> {
    let t = spec_replay(spec_init_tables(names), Map::empty(), lines, now).0;
    if spec_any_finished(lines) {
        spec_sweep(t, now)
    } else {
        t
    }
}

// ---------------------------------------------------------------------------
// The executable state: a row of entries plus a thread-assignment table.
// ---------------------------------------------------------------------------
/// The views of the thread-assignment entries.
pub open spec fn spec_pair_views(s: Seq<(u32, String)>) -> Seq<(u32, Seq<char>)> {
    s.map_values(|p: (u32, String)| (p.0, p.1@))
}

/// The map a thread-assignment list denotes.
pub open spec fn spec_threads_of(s: Seq<(u32, Seq<char>)>) -> Map<u32, Seq<char>>
    decreases s.len(),
{
    if s.len() == 0 {
        Map::empty()
    } else {
        spec_threads_of(s.drop_last()).insert(s.last().0, s.last().1)
    }
}

/// No two entries share a thread.
pub open spec fn spec_threads_unique(s: Seq<(u32, Seq<char>)>) -> bool {
    forall|i: int, j: int| 0 <= i < j < s.len() ==> (#[trigger] s[i]).0 != (#[trigger] s[j]).0
}

/// With unique threads, the list and its map agree entry by entry.
pub proof fn lemma_threads_of(s: Seq<(u32, Seq<char>)>)
    requires
        spec_threads_unique(s),
    ensures
        forall|k: u32|
            spec_threads_of(s).contains_key(k) <==> exists|i: int|
                0 <= i < s.len() && (#[trigger] s[i]).0 == k,
        forall|i: int|
            0 <= i < s.len() ==> spec_threads_of(s)[(#[trigger] s[i]).0] == s[i].1,
    decreases s.len(),
{
    if s.len() > 0 {
        let d = s.drop_last();
        assert(spec_threads_unique(d)) by {
            assert forall|i: int, j: int| 0 <= i < j < d.len() implies (#[trigger] d[i]).0 != (
            #[trigger] d[j]).0 by {
                assert(d[i] == s[i] && d[j] == s[j]);
            }
        }
        lemma_threads_of(d);
        assert forall|i: int| 0 <= i < s.len() implies spec_threads_of(s)[(#[trigger] s[i]).0]
            == s[i].1 by {
            if i < s.len() - 1 {
                assert(d[i] == s[i]);
                assert(s[i].0 != s.last().0);
            }
        }
        assert forall|k: u32| spec_threads_of(s).contains_key(k) implies exists|i: int|
            0 <= i < s.len() && (#[trigger] s[i]).0 == k by {
            if k == s.last().0 {
                assert((s[s.len() - 1]).0 == k);
            } else {
                assert(spec_threads_of(s) == spec_threads_of(d).insert(s.last().0, s.last().1));
                assert(spec_threads_of(d).contains_key(k));
                let i = choose|i: int| 0 <= i < d.len() && (#[trigger] d[i]).0 == k;
                assert(d[i] == s[i]);
                assert((s[i]).0 == k);
            }
        }
        assert forall|k: u32|
            (exists|i: int| 0 <= i < s.len() && (#[trigger] s[i]).0 == k) implies spec_threads_of(
            s,
        ).contains_key(k) by {
            let i = choose|i: int| 0 <= i < s.len() && (#[trigger] s[i]).0 == k;
            if i < s.len() - 1 {
                assert((d[i]).0 == k);
            }
        }
    }
}

/// Finds the first table entry carrying a name.
fn find_table(tables: &Vec<TableProgress>, name: &String) -> (r: Option<usize>)
    ensures
        match (r, spec_find_table(spec_entry_views(tables@), name@)) {
            (Some(a), Some(b)) => a as int == b && a < tables@.len(),
            (None, None) => true,
            _ => false,
        },
{
    let ghost tv = spec_entry_views(tables@);
    let mut j: usize = 0;
    while j < tables.len()
        invariant
            j <= tables@.len(),
            tv == spec_entry_views(tables@),
            tv.len() == tables@.len(),
            forall|k: int| 0 <= k < j ==> (#[trigger] tv[k]).name != name@,
        decreases tables@.len() - j,
    {
        proof {
            assert(tv[j as int] == tables@[j as int]@);
        }
        if tables[j].name == *name {
            proof {
                lemma_find_table_first(tv, name@);
                match spec_find_table(tv, name@) {
                    Some(b) => {
                        if b < j {
                            assert(tv[b].name != name@);
                        }
                        if b > j {
                            assert(tv[j as int].name != name@);
                        }
                    },
                    None => {
                        assert(tv[j as int].name != name@);
                    },
                }
            }
            return Some(j);
        }
        j = j + 1;
    }
    proof {
        lemma_find_table_first(tv, name@);
        match spec_find_table(tv, name@) {
            Some(b) => {
                assert(tv[b].name != name@);
            },
            None => {},
        }
    }
    None
}

/// Finds a thread's entry in the assignment list.
fn threads_lookup(threads: &Vec<(u32, String)>, th: u32) -> (r: Option<usize>)
    ensures
        match r {
            Some(i) => i < threads@.len() && threads@[i as int].0 == th,
            None => forall|k: int| 0 <= k < threads@.len() ==> (#[trigger] threads@[k]).0 != th,
        },
{
    let mut j: usize = 0;
    while j < threads.len()
        invariant
            j <= threads@.len(),
            forall|k: int| 0 <= k < j ==> (#[trigger] threads@[k]).0 != th,
        decreases threads@.len() - j,
    {
        if threads[j].0 == th {
            return Some(j);
        }
        j = j + 1;
    }
    None
}

/// Whether no thread besides `th` is assigned to `table`.
fn no_other_thread_on(threads: &Vec<(u32, String)>, th: u32, table: &String) -> (r: bool)
    requires
        spec_threads_unique(spec_pair_views(threads@)),
    ensures
        r == spec_no_other_thread(spec_threads_of(spec_pair_views(threads@)), th, table@),
{
    let ghost pv = spec_pair_views(threads@);
    let ghost tm = spec_threads_of(pv);
    proof {
        lemma_threads_of(pv);
    }
    let mut j: usize = 0;
    while j < threads.len()
        invariant
            j <= threads@.len(),
            pv == spec_pair_views(threads@),
            pv.len() == threads@.len(),
            spec_threads_unique(pv),
            tm == spec_threads_of(pv),
            forall|k: int|
                0 <= k < j ==> ((#[trigger] pv[k]).0 == th || pv[k].1 != table@),
        decreases threads@.len() - j,
    {
        proof {
            assert(pv[j as int] == (threads@[j as int].0, threads@[j as int].1@));
        }
        if threads[j].0 != th && threads[j].1 == *table {
            proof {
                lemma_threads_of(pv);
                assert(tm[pv[j as int].0] == pv[j as int].1);
                assert(tm.contains_key(pv[j as int].0));
                assert(!spec_no_other_thread(tm, th, table@));
            }
            return false;
        }
        j = j + 1;
    }
    proof {
        lemma_threads_of(pv);
        assert forall|m: u32| m != th && tm.contains_key(m) implies tm[m] != table@ by {
            let i = choose|i: int| 0 <= i < pv.len() && (#[trigger] pv[i]).0 == m;
            assert(tm[pv[i].0] == pv[i].1);
            assert(pv[i].0 == m || pv[i].1 != table@);
        }
    }
    true
}

/// Applies the estimate rule for a named table.
fn apply_estimate(tables: &mut Vec<TableProgress>, name: &String, now: u64)
    ensures
        spec_entry_views(final (tables)@) == spec_apply_estimate(
            spec_entry_views(old(tables)@),
            name@,
            now,
        ),
{
    let ghost tv0 = spec_entry_views(tables@);
    match find_table(tables, name) {
        Some(i) => {
            proof {
                assert(tv0[i as int] == tables@[i as int]@);
            }
            if tables[i].status == TableStatus::Pending {
                tables[i].status = TableStatus::InProgress;
                if tables[i].started_at.is_none() {
                    tables[i].started_at = Some(now);
                }
                proof {
                    assert(spec_entry_views(tables@) =~= spec_apply_estimate(tv0, name@, now));
                }
            } else {
                proof {
                    assert(spec_entry_views(tables@) =~= spec_apply_estimate(tv0, name@, now));
                }
            }
        },
        None => {
            proof {
                assert(spec_entry_views(tables@) =~= spec_apply_estimate(tv0, name@, now));
            }
        },
    }
}

/// Applies the error rule for a named table.
fn apply_error(tables: &mut Vec<TableProgress>, name: &String)
    ensures
        spec_entry_views(final (tables)@) == spec_apply_error(
            spec_entry_views(old(tables)@),
            name@,
        ),
{
    let ghost tv0 = spec_entry_views(tables@);
    match find_table(tables, name) {
        Some(i) => {
            proof {
                assert(tv0[i as int] == tables@[i as int]@);
            }
            tables[i].status = TableStatus::Error;
            tables[i].error_message = Some("Error during backup".to_owned());
            proof {
                assert(spec_entry_views(tables@) =~= spec_apply_error(tv0, name@));
            }
        },
        None => {
            proof {
                assert(spec_entry_views(tables@) =~= spec_apply_error(tv0, name@));
            }
        },
    }
}

/// Applies the report rule: the inferred completion, the reassignment,
/// and the reported table's new state.
fn apply_report(
    tables: &mut Vec<TableProgress>,
    threads: &mut Vec<(u32, String)>,
    th: u32,
    name: String,
    pct: u32,
    now: u64,
)
    requires
        spec_threads_unique(spec_pair_views(old(threads)@)),
    ensures
        spec_threads_unique(spec_pair_views(final (threads)@)),
        (
            spec_entry_views(final (tables)@),
            spec_threads_of(spec_pair_views(final (threads)@)),
        ) == spec_apply_report(
            spec_entry_views(old(tables)@),
            spec_threads_of(spec_pair_views(old(threads)@)),
            th,
            name@,
            pct,
            now,
        ),
{
    let ghost tv0 = spec_entry_views(tables@);
    let ghost pv0 = spec_pair_views(threads@);
    let ghost tm0 = spec_threads_of(pv0);
    let ghost spec_result = spec_apply_report(tv0, tm0, th, name@, pct, now);
    proof {
        lemma_threads_of(pv0);
    }
    let idx = threads_lookup(threads, th);
    match idx {
        Some(pi) => {
            proof {
                assert(pv0[pi as int] == (threads@[pi as int].0, threads@[pi as int].1@));
                assert(tm0.contains_key(th));
                assert(tm0[th] == threads@[pi as int].1@);
            }
            let prev = threads[pi].1.clone();
            if !(prev == name) {
                let alone = no_other_thread_on(threads, th, &prev);
                if alone {
                    match find_table(tables, &prev) {
                        Some(i) => {
                            proof {
                                assert(tv0[i as int] == tables@[i as int]@);
                            }
                            if !(tables[i].status == TableStatus::Error) {
                                tables[i].status = TableStatus::Completed;
                                tables[i].progress_percent = Some(100);
                                tables[i].completed_at = Some(now);
                            }
                        },
                        None => {},
                    }
                }
            }
            proof {
                assert(spec_entry_views(tables@) =~= (if tm0.contains_key(th) && tm0[th] != name@
                    && spec_no_other_thread(tm0, th, tm0[th]) {
                    match spec_find_table(tv0, tm0[th]) {
                        Some(i) => {
                            if tv0[i].status != TableStatus::Error {
                                tv0.update(
                                    i,
                                    TableEntryV {
                                        status: TableStatus::Completed,
                                        percent: Some(100u32),
                                        completed_at: Some(now),
                                        ..tv0[i]
                                    },
                                )
                            } else {
                                tv0
                            }
                        },
                        None => tv0,
                    }
                } else {
                    tv0
                }));
            }
            threads[pi].1 = name.clone();
            proof {
                assert(spec_pair_views(threads@) =~= pv0.update(pi as int, (th, name@)));
                lemma_threads_update(pv0, pi as int, name@);
                assert(spec_threads_of(spec_pair_views(threads@)) =~= tm0.insert(th, name@));
            }
        },
        None => {
            proof {
                assert forall|k: u32| tm0.contains_key(k) implies k != th by {
                    let i = choose|i: int| 0 <= i < pv0.len() && (#[trigger] pv0[i]).0 == k;
                    assert(pv0[i] == (threads@[i].0, threads@[i].1@));
                }
                assert(!tm0.contains_key(th));
            }
            let ghost pre_push = threads@;
            threads.push((th, name.clone()));
            proof {
                let pv1 = spec_pair_views(threads@);
                assert(pv1.drop_last() =~= spec_pair_views(pre_push));
                assert(pv1.last() == (th, name@));
                assert(spec_threads_of(pv1) =~= tm0.insert(th, name@));
                assert(spec_threads_unique(pv1)) by {
                    assert forall|a: int, b: int| 0 <= a < b < pv1.len() implies (
                    #[trigger] pv1[a]).0 != (#[trigger] pv1[b]).0 by {
                        if b < pv1.len() - 1 {
                            assert(pv0[a] == pv1[a] && pv0[b] == pv1[b]);
                        } else {
                            assert(pv1[a] == pv0[a]);
                            assert(pv0[a] == (pre_push[a].0, pre_push[a].1@));
                        }
                    }
                }
            }
        },
    }
    let ghost tv1 = spec_entry_views(tables@);
    match find_table(tables, &name) {
        Some(i) => {
            proof {
                assert(tv1[i as int] == tables@[i as int]@);
            }
            tables[i].status = TableStatus::InProgress;
            tables[i].progress_percent = Some(pct);
            if tables[i].started_at.is_none() {
                tables[i].started_at = Some(now);
            }
            proof {
                assert(spec_entry_views(tables@) =~= spec_result.0);
            }
        },
        None => {
            proof {
                assert(spec_entry_views(tables@) =~= spec_result.0);
            }
        },
    }
    proof {
        assert(spec_threads_of(spec_pair_views(threads@)) =~= spec_result.1);
    }
}

/// Applies one log line's rules in order.
fn apply_line(
    tables: &mut Vec<TableProgress>,
    threads: &mut Vec<(u32, String)>,
    line: &Vec<char>,
    now: u64,
)
    requires
        spec_threads_unique(spec_pair_views(old(threads)@)),
    ensures
        spec_threads_unique(spec_pair_views(final (threads)@)),
        (
            spec_entry_views(final (tables)@),
            spec_threads_of(spec_pair_views(final (threads)@)),
        ) == spec_apply_line(
            spec_entry_views(old(tables)@),
            spec_threads_of(spec_pair_views(old(threads)@)),
            line@,
            now,
        ),
{
    match estimate_match(line) {
        Some(name_chars) => {
            let name = chars_to_string(&name_chars);
            apply_estimate(tables, &name, now);
        },
        None => {},
    }
    match report_match(line) {
        Some((th, name_chars, pct)) => {
            let name = chars_to_string(&name_chars);
            apply_report(tables, threads, th, name, pct, now);
        },
        None => {},
    }
    match error_match(line) {
        Some(name_chars) => {
            let name = chars_to_string(&name_chars);
            apply_error(tables, &name);
        },
        None => {},
    }
}

/// How many entries stand in a status.
pub open spec fn spec_count_status(ts: Seq<TableEntryV>, st: TableStatus) -> int
    decreases ts.len(),
{
    if ts.len() == 0 {
        0
    } else {
        spec_count_status(ts.drop_last(), st) + if ts.last().status == st {
            1int
        } else {
            0int
        }
    }
}

pub proof fn lemma_count_bounds(ts: Seq<TableEntryV>, st: TableStatus)
    ensures
        0 <= spec_count_status(ts, st) <= ts.len(),
    decreases ts.len(),
{
    if ts.len() > 0 {
        lemma_count_bounds(ts.drop_last(), st);
    }
}

/// Counts the entries standing in a status.
pub fn count_status(tables: &Vec<TableProgress>, st: TableStatus) -> (r: usize)
    ensures
        r as int == spec_count_status(spec_entry_views(tables@), st),
        r <= tables@.len(),
{
    let ghost tv = spec_entry_views(tables@);
    let mut r: usize = 0;
    let mut i: usize = 0;
    proof {
        assert(tv.take(0) =~= Seq::<TableEntryV>::empty());
    }
    while i < tables.len()
        invariant
            i <= tables@.len(),
            tv == spec_entry_views(tables@),
            tv.len() == tables@.len(),
            r <= i,
            r as int == spec_count_status(tv.take(i as int), st),
        decreases tables@.len() - i,
    {
        proof {
            assert(tv.take(i + 1).drop_last() =~= tv.take(i as int));
            assert(tv.take(i + 1).last() == tv[i as int]);
            assert(tv[i as int] == tables@[i as int]@);
        }
        if tables[i].status == st {
            r = r + 1;
        }
        i = i + 1;
    }
    proof {
        assert(tv.take(tv.len() as int) =~= tv);
    }
    r
}

/// The appended entries for the manifest's excluded tables: always
/// skipped, with the standing explanation, whatever the log said.
pub open spec fn spec_excluded_entries(names: Seq<Seq<char>>, now: u64) -> Seq<TableEntryV> {
    Seq::new(
        names.len(),
        |i: int|
            TableEntryV {
                name: names[i],
                status: TableStatus::Skipped,
                percent: None,
                started_at: None,
                completed_at: Some(now),
                error: Some("Non-InnoDB table, excluded from backup"@),
            },
    )
}

/// The aggregate percentage: completed and skipped tables over the
/// total, floored, and zero when there are no tables.
pub open spec fn spec_overall(completed: int, skipped: int, total: int) -> int {
    if total > 0 {
        ((completed + skipped) * 100) / total
    } else {
        0
    }
}

/// The manifest the dump run wrote for the reconstructor: the table
/// list, the excluded list, and the run's identity.
#[derive(Debug, Clone)]
pub struct RdumperMeta {
    pub count: u32,
    pub tables: Vec<String>,
    pub excluded_tables: Vec<String>,
    pub database_name: String,
    pub started_at: String,
}

/// The derived, never-cached snapshot of a run's progress.
#[derive(Debug, Clone)]
pub struct DetailedProgress {
    pub job_id: String,
    pub overall_progress: u32,
    pub total_tables: u32,
    pub completed_tables: u32,
    pub in_progress_tables: u32,
    pub pending_tables: u32,
    pub skipped_tables: u32,
    pub error_tables: u32,
    pub tables: Vec<TableProgress>,
    pub excluded_tables: Vec<String>,
    pub database_name: String,
    pub started_at: u64,
    pub last_updated: u64,
}

/// A copy of a list of names.
fn clone_string_vec(v: &Vec<String>) -> (r: Vec<String>)
    ensures
        r@ =~= v@,
{
    let mut r: Vec<String> = Vec::new();
    let mut i: usize = 0;
    while i < v.len()
        invariant
            i <= v@.len(),
            r@ =~= v@.take(i as int),
        decreases v@.len() - i,
    {
        r.push(v[i].clone());
        i = i + 1;
        proof {
            assert(r@ =~= v@.take(i as int));
        }
    }
    proof {
        assert(v@.take(v@.len() as int) =~= v@);
    }
    r
}

/// The reconstructor: stateless per call, reading a manifest and the
/// current log text.
pub struct ProgressTracker {
    pub log_dir: String,
}

impl ProgressTracker {
    pub fn new(log_dir: String) -> (t: ProgressTracker)
        ensures
            t.log_dir == log_dir,
    {
        ProgressTracker { log_dir }
    }

    /// Where the run's manifest lives under the tracker's directory.
    pub fn meta_file_path(&self) -> (r: String)
        ensures
            r@ == crate::text::spec_join(self.log_dir@, "rdumper.meta.json"@),
    {
        crate::text::join_path(self.log_dir.as_str(), "rdumper.meta.json")
    }

    /// Where the run's log lives under the tracker's directory.
    pub fn log_file_path(&self) -> (r: String)
        ensures
            r@ == crate::text::spec_join(self.log_dir@, "mydumper.log"@),
    {
        crate::text::join_path(self.log_dir.as_str(), "mydumper.log")
    }

    /// Replays the whole log over the manifest tables: every rule on
    /// every line, and the end-of-run sweep if the dump finished.
    pub fn parse_table_progress(
        &self,
        log_content: &str,
        table_names: &Vec<String>,
        now: u64,
    ) -> (r: Vec<TableProgress>)
        ensures
            spec_entry_views(r@) == spec_reconstruct(
                table_names.deep_view(),
                spec_log_lines(log_content@),
                now,
            ),
            r@.len() == table_names@.len(),
    {
        let ghost names = table_names.deep_view();
        let mut tables: Vec<TableProgress> = Vec::new();
        let mut i: usize = 0;
        proof {
            assert(names.len() == table_names@.len());
            assert(names.take(0) =~= Seq::<Seq<char>>::empty());
            assert(spec_entry_views(tables@) =~= spec_init_tables(names.take(0)));
        }
        while i < table_names.len()
            invariant
                i <= table_names@.len(),
                names == table_names.deep_view(),
                names.len() == table_names@.len(),
                tables@.len() == i as int,
                spec_entry_views(tables@) =~= spec_init_tables(names.take(i as int)),
            decreases table_names@.len() - i,
        {
            let ghost old_tables = tables@;
            tables.push(
                TableProgress {
                    name: table_names[i].clone(),
                    status: TableStatus::Pending,
                    progress_percent: None,
                    started_at: None,
                    completed_at: None,
                    error_message: None,
                },
            );
            i = i + 1;
            proof {
                assert(tables@.len() == i as int);
                assert(names[i - 1] == table_names@[i - 1]@);
                assert forall|j: int| 0 <= j < i implies spec_entry_views(tables@)[j]
                    == spec_init_tables(names.take(i as int))[j] by {
                    assert(spec_entry_views(tables@)[j] == tables@[j]@);
                    assert(names.take(i as int)[j] == names[j]);
                    if j < i - 1 {
                        assert(tables@[j] == old_tables[j]);
                        assert(spec_entry_views(old_tables)[j] == old_tables[j]@);
                        assert(names.take(i - 1)[j] == names[j]);
                    }
                }
                assert(spec_entry_views(tables@) =~= spec_init_tables(names.take(i as int)));
            }
        }
        proof {
            assert(names.take(names.len() as int) =~= names);
        }
        let chars = crate::text::str_to_chars(log_content);
        let lines = split_log_lines(&chars);
        let ghost ldeep = lines.deep_view();
        let ghost init = spec_init_tables(names);
        let mut threads: Vec<(u32, String)> = Vec::new();
        let mut finished = false;
        let mut k: usize = 0;
        proof {
            assert(ldeep.take(0) =~= Seq::<Seq<char>>::empty());
            assert(spec_pair_views(threads@) =~= Seq::<(u32, Seq<char>)>::empty());
            assert(spec_threads_of(spec_pair_views(threads@)) =~= Map::<u32, Seq<char>>::empty());
            assert(spec_replay(init, Map::empty(), ldeep.take(0), now) == (
                init,
                Map::<u32, Seq<char>>::empty(),
            ));
            assert(!spec_any_finished(ldeep.take(0)));
        }
        while k < lines.len()
            invariant
                k <= lines@.len(),
                ldeep == lines.deep_view(),
                ldeep.len() == lines@.len(),
                spec_threads_unique(spec_pair_views(threads@)),
                (
                    spec_entry_views(tables@),
                    spec_threads_of(spec_pair_views(threads@)),
                ) == spec_replay(init, Map::empty(), ldeep.take(k as int), now),
                finished == spec_any_finished(ldeep.take(k as int)),
            decreases lines@.len() - k,
        {
            proof {
                assert(lines@[k as int]@ == ldeep[k as int]);
            }
            apply_line(&mut tables, &mut threads, &lines[k], now);
            proof {
                lemma_replay_snoc(init, Map::empty(), ldeep, k as int, now);
            }
            if finished_match(&lines[k]) {
                finished = true;
            }
            k = k + 1;
            proof {
                if finished {
                    if spec_finished(ldeep[k - 1]) {
                        assert(spec_any_finished(ldeep.take(k as int))) by {
                            assert(ldeep.take(k as int)[k - 1] == ldeep[k - 1]);
                        }
                    } else {
                        let w = choose|i: int|
                            0 <= i < k - 1 && spec_finished(#[trigger] ldeep.take(k - 1)[i]);
                        assert(ldeep.take(k as int)[w] == ldeep[w]);
                        assert(spec_any_finished(ldeep.take(k as int)));
                    }
                } else {
                    assert forall|i: int| 0 <= i < k implies !spec_finished(
                        #[trigger] ldeep.take(k as int)[i],
                    ) by {
                        if i < k - 1 {
                            assert(ldeep.take(k - 1)[i] == ldeep[i]);
                        }
                        assert(ldeep.take(k as int)[i] == ldeep[i]);
                    }
                }
            }
        }
        proof {
            assert(ldeep.take(ldeep.len() as int) =~= ldeep);
            lemma_replay_len(init, Map::empty(), ldeep, now);
        }
        if finished {
            let ghost pre = spec_entry_views(tables@);
            let n = tables.len();
            let mut i2: usize = 0;
            while i2 < n
                invariant
                    i2 <= n,
                    n == tables@.len(),
                    pre.len() == n,
                    forall|j: int|
                        i2 <= j < n ==> spec_entry_views(tables@)[j] == pre[j],
                    forall|j: int|
                        0 <= j < i2 ==> spec_entry_views(tables@)[j] == spec_sweep(pre, now)[j],
                decreases n - i2,
            {
                proof {
                    assert(spec_entry_views(tables@)[i2 as int] == tables@[i2 as int]@);
                }
                let ghost before = spec_entry_views(tables@);
                if !(tables[i2].status == TableStatus::Error || tables[i2].status
                    == TableStatus::Completed) {
                    tables[i2].status = TableStatus::Completed;
                    tables[i2].progress_percent = Some(100);
                    tables[i2].completed_at = Some(now);
                }
                i2 = i2 + 1;
                proof {
                    assert forall|j: int| 0 <= j < tables@.len() && j != i2 - 1 implies
                        spec_entry_views(tables@)[j] == before[j] by {
                        assert(spec_entry_views(tables@)[j] == tables@[j]@);
                    }
                    assert(spec_entry_views(tables@)[i2 - 1] == spec_sweep(pre, now)[i2 - 1]);
                }
            }
            proof {
                assert(spec_entry_views(tables@) =~= spec_sweep(pre, now));
            }
        }
        tables
    }

    /// The full snapshot: the manifest tables reconstructed from the
    /// log, the excluded tables appended as skipped, the counts by
    /// status, and the floored aggregate percentage.
    pub fn load_detailed_progress(
        &self,
        job_id: &str,
        meta: &RdumperMeta,
        log_content: &str,
        now: u64,
    ) -> (r: DetailedProgress)
        requires
            meta.tables@.len() + meta.excluded_tables@.len() <= u32::MAX,
        ensures
            ({
                let names = meta.tables.deep_view();
                let excl = meta.excluded_tables.deep_view();
                let all = spec_reconstruct(names, spec_log_lines(log_content@), now)
                    + spec_excluded_entries(excl, now);
                &&& spec_entry_views(r.tables@) == all
                &&& r.excluded_tables@ =~= meta.excluded_tables@
                &&& r.job_id@ == job_id@
                &&& r.database_name == meta.database_name
                &&& r.total_tables == all.len()
                &&& r.completed_tables as int == spec_count_status(all, TableStatus::Completed)
                &&& r.in_progress_tables as int == spec_count_status(all, TableStatus::InProgress)
                &&& r.pending_tables as int == spec_count_status(all, TableStatus::Pending)
                &&& r.skipped_tables as int == spec_count_status(all, TableStatus::Skipped)
                &&& r.error_tables as int == spec_count_status(all, TableStatus::Error)
                &&& r.overall_progress as int == spec_overall(
                    spec_count_status(all, TableStatus::Completed),
                    spec_count_status(all, TableStatus::Skipped),
                    all.len() as int,
                )
                &&& r.started_at == (match crate::foreign::rfc3339_parse(meta.started_at@) {
                    Some(t) => if 0 <= t < 253402300800 {
                        t as u64
                    } else {
                        now
                    },
                    None => now,
                })
                &&& r.last_updated == now
            }),
    {
        let mut tables = self.parse_table_progress(log_content, &meta.tables, now);
        let ghost reconstructed = spec_entry_views(tables@);
        let ghost excl = meta.excluded_tables.deep_view();
        let mut e: usize = 0;
        proof {
            assert(excl.len() == meta.excluded_tables@.len());
            assert(spec_excluded_entries(excl.take(0), now) =~= Seq::<TableEntryV>::empty());
            assert(spec_entry_views(tables@) =~= reconstructed + spec_excluded_entries(
                excl.take(0),
                now,
            ));
        }
        while e < meta.excluded_tables.len()
            invariant
                e <= meta.excluded_tables@.len(),
                excl == meta.excluded_tables.deep_view(),
                excl.len() == meta.excluded_tables@.len(),
                spec_entry_views(tables@) == reconstructed + spec_excluded_entries(
                    excl.take(e as int),
                    now,
                ),
            decreases meta.excluded_tables@.len() - e,
        {
            let ghost prepush = spec_entry_views(tables@);
            tables.push(
                TableProgress {
                    name: meta.excluded_tables[e].clone(),
                    status: TableStatus::Skipped,
                    progress_percent: None,
                    started_at: None,
                    completed_at: Some(now),
                    error_message: Some("Non-InnoDB table, excluded from backup".to_owned()),
                },
            );
            e = e + 1;
            proof {
                assert(excl[e - 1] == meta.excluded_tables@[e - 1]@);
                let newv = tables@[tables@.len() - 1]@;
                assert(spec_entry_views(tables@) =~= prepush.push(newv));
                assert(newv == spec_excluded_entries(excl.take(e as int), now)[e - 1]);
                assert(spec_excluded_entries(excl.take(e as int), now) =~= spec_excluded_entries(
                    excl.take(e - 1),
                    now,
                ).push(newv));
                assert(spec_entry_views(tables@) =~= reconstructed + spec_excluded_entries(
                    excl.take(e as int),
                    now,
                ));
            }
        }
        proof {
            assert(excl.take(excl.len() as int) =~= excl);
        }
        let ghost all = spec_entry_views(tables@);
        let total = tables.len();
        let completed = count_status(&tables, TableStatus::Completed);
        let in_progress = count_status(&tables, TableStatus::InProgress);
        let pending = count_status(&tables, TableStatus::Pending);
        let skipped = count_status(&tables, TableStatus::Skipped);
        let errors = count_status(&tables, TableStatus::Error);
        proof {
            lemma_count_bounds(all, TableStatus::Completed);
            lemma_count_bounds(all, TableStatus::Skipped);
            assert(all.len() == tables@.len());
            assert(tables@.len() == meta.tables@.len() + meta.excluded_tables@.len());
        }
        let overall: u32 = if total > 0 {
            let num: u64 = ((completed as u64) + (skipped as u64)) * 100;
            let q: u64 = num / (total as u64);
            proof {
                let c = completed as int;
                let s = skipped as int;
                let t = total as int;
                assert((c + s) * 100 <= 200 * t) by (nonlinear_arith)
                    requires
                        0 <= c <= t,
                        0 <= s <= t,
                ;
                vstd::arithmetic::div_mod::lemma_div_is_ordered((c + s) * 100, 200 * t, t);
                assert(200 * t / t == 200) by (nonlinear_arith)
                    requires
                        t > 0,
                ;
            }
            q as u32
        } else {
            0
        };
        let started_at: u64 = match crate::foreign::parse_rfc3339(meta.started_at.as_str()) {
            Some(t) => {
                if 0 <= t && t < 253402300800 {
                    t as u64
                } else {
                    now
                }
            },
            None => now,
        };
        DetailedProgress {
            job_id: job_id.to_owned(),
            overall_progress: overall,
            total_tables: total as u32,
            completed_tables: completed as u32,
            in_progress_tables: in_progress as u32,
            pending_tables: pending as u32,
            skipped_tables: skipped as u32,
            error_tables: errors as u32,
            tables,
            excluded_tables: clone_string_vec(&meta.excluded_tables),
            database_name: meta.database_name.clone(),
            started_at,
            last_updated: now,
        }
    }
}

// ---------------------------------------------------------------------------
// Laws of the reconstruction.
// ---------------------------------------------------------------------------
/// The names of a row of entries.
pub open spec fn spec_names(ts: Seq<TableEntryV>) -> Seq<Seq<char>> {
    ts.map_values(|e: TableEntryV| e.name)
}

/// The statuses of a row of entries.
pub open spec fn spec_statuses(ts: Seq<TableEntryV>) -> Seq<TableStatus> {
    ts.map_values(|e: TableEntryV| e.status)
}

/// Finding a table looks only at names.
pub proof fn lemma_find_table_names(a: Seq<TableEntryV>, b: Seq<TableEntryV>, name: Seq<char>)
    requires
        spec_names(a) == spec_names(b),
    ensures
        spec_find_table(a, name) == spec_find_table(b, name),
    decreases a.len(),
{
    assert(spec_names(a).len() == a.len());
    assert(spec_names(b).len() == b.len());
    if a.len() > 0 {
        assert(spec_names(a)[0] == a[0].name);
        assert(spec_names(b)[0] == b[0].name);
        assert(spec_names(a.skip(1)) =~= spec_names(b.skip(1))) by {
            assert forall|i: int| 0 <= i < a.len() - 1 implies spec_names(a.skip(1))[i]
                == spec_names(b.skip(1))[i] by {
                assert(a.skip(1)[i] == a[i + 1]);
                assert(b.skip(1)[i] == b[i + 1]);
                assert(spec_names(a)[i + 1] == a[i + 1].name);
                assert(spec_names(b)[i + 1] == b[i + 1].name);
            }
        }
        lemma_find_table_names(a.skip(1), b.skip(1), name);
    }
}

/// One line's effect depends, for names, statuses and the thread table,
/// only on names, statuses and threads: the clock never influences what
/// a table's state becomes, only the recorded instants.
pub proof fn lemma_apply_line_now_independent(
    a: Seq<TableEntryV>,
    b: Seq<TableEntryV>,
    threads: Map<u32, Seq<char>>,
    line: Seq<char>,
    n1: u64,
    n2: u64,
)
    requires
        spec_names(a) == spec_names(b),
        spec_statuses(a) == spec_statuses(b),
    ensures
        ({
            let ra = spec_apply_line(a, threads, line, n1);
            let rb = spec_apply_line(b, threads, line, n2);
            &&& spec_names(ra.0) =~= spec_names(rb.0)
            &&& spec_statuses(ra.0) =~= spec_statuses(rb.0)
            &&& ra.1 == rb.1
        }),
{
    assert(spec_names(a).len() == a.len());
    assert(spec_names(b).len() == b.len());
    assert forall|i: int| 0 <= i < a.len() implies a[i].name == b[i].name && a[i].status
        == b[i].status by {
        assert(spec_names(a)[i] == a[i].name && spec_names(b)[i] == b[i].name);
        assert(spec_statuses(a)[i] == a[i].status && spec_statuses(b)[i] == b[i].status);
    }
    let a1 = match spec_estimate_match(line) {
        Some(n) => spec_apply_estimate(a, n, n1),
        None => a,
    };
    let b1 = match spec_estimate_match(line) {
        Some(n) => spec_apply_estimate(b, n, n2),
        None => b,
    };
    assert(spec_names(a1) =~= spec_names(b1) && spec_statuses(a1) =~= spec_statuses(b1)) by {
        match spec_estimate_match(line) {
            Some(n) => {
                lemma_find_table_names(a, b, n);
                lemma_find_table_first(a, n);
            },
            None => {},
        }
    }
    assert(spec_names(a1).len() == a1.len());
    assert forall|i: int| 0 <= i < a1.len() implies a1[i].name == b1[i].name && a1[i].status
        == b1[i].status by {
        assert(spec_names(a1)[i] == a1[i].name && spec_names(b1)[i] == b1[i].name);
        assert(spec_statuses(a1)[i] == a1[i].status && spec_statuses(b1)[i] == b1[i].status);
    }
    let pa = match spec_report_match(line) {
        Some(r) => spec_apply_report(a1, threads, r.0, r.1, r.2, n1),
        None => (a1, threads),
    };
    let pb = match spec_report_match(line) {
        Some(r) => spec_apply_report(b1, threads, r.0, r.1, r.2, n2),
        None => (b1, threads),
    };
    assert(spec_names(pa.0) =~= spec_names(pb.0) && spec_statuses(pa.0) =~= spec_statuses(pb.0)
        && pa.1 == pb.1) by {
        match spec_report_match(line) {
            Some(r) => {
                if threads.contains_key(r.0) {
                    lemma_find_table_names(a1, b1, threads[r.0]);
                    lemma_find_table_first(a1, threads[r.0]);
                }
                let a2 = spec_apply_report(a1, threads, r.0, r.1, r.2, n1).0;
                let at = if threads.contains_key(r.0) && threads[r.0] != r.1
                    && spec_no_other_thread(threads, r.0, threads[r.0]) {
                    match spec_find_table(a1, threads[r.0]) {
                        Some(i) => {
                            if a1[i].status != TableStatus::Error {
                                a1.update(
                                    i,
                                    TableEntryV {
                                        status: TableStatus::Completed,
                                        percent: Some(100u32),
                                        completed_at: Some(n1),
                                        ..a1[i]
                                    },
                                )
                            } else {
                                a1
                            }
                        },
                        None => a1,
                    }
                } else {
                    a1
                };
                let bt = if threads.contains_key(r.0) && threads[r.0] != r.1
                    && spec_no_other_thread(threads, r.0, threads[r.0]) {
                    match spec_find_table(b1, threads[r.0]) {
                        Some(i) => {
                            if b1[i].status != TableStatus::Error {
                                b1.update(
                                    i,
                                    TableEntryV {
                                        status: TableStatus::Completed,
                                        percent: Some(100u32),
                                        completed_at: Some(n2),
                                        ..b1[i]
                                    },
                                )
                            } else {
                                b1
                            }
                        },
                        None => b1,
                    }
                } else {
                    b1
                };
                assert(spec_names(at) =~= spec_names(bt) && spec_statuses(at) =~= spec_statuses(
                    bt,
                )) by {
                    assert forall|i: int| 0 <= i < at.len() implies spec_names(at)[i]
                        == spec_names(bt)[i] && spec_statuses(at)[i] == spec_statuses(bt)[i] by {
                        assert(spec_names(at)[i] == at[i].name);
                        assert(spec_names(bt)[i] == bt[i].name);
                        assert(spec_statuses(at)[i] == at[i].status);
                        assert(spec_statuses(bt)[i] == bt[i].status);
                    }
                }
                assert(spec_names(at).len() == at.len());
                assert forall|i: int| 0 <= i < at.len() implies at[i].name == bt[i].name
                    && at[i].status == bt[i].status by {
                    assert(spec_names(at)[i] == at[i].name && spec_names(bt)[i] == bt[i].name);
                    assert(spec_statuses(at)[i] == at[i].status && spec_statuses(bt)[i]
                        == bt[i].status);
                }
                lemma_find_table_names(at, bt, r.1);
                lemma_find_table_first(at, r.1);
            },
            None => {},
        }
    }
    assert(spec_names(pa.0).len() == pa.0.len());
    assert forall|i: int| 0 <= i < pa.0.len() implies pa.0[i].name == pb.0[i].name
        && pa.0[i].status == pb.0[i].status by {
        assert(spec_names(pa.0)[i] == pa.0[i].name && spec_names(pb.0)[i] == pb.0[i].name);
        assert(spec_statuses(pa.0)[i] == pa.0[i].status && spec_statuses(pb.0)[i]
            == pb.0[i].status);
    }
    match spec_error_match(line) {
        Some(n) => {
            lemma_find_table_names(pa.0, pb.0, n);
            lemma_find_table_first(pa.0, n);
            let ca = spec_apply_error(pa.0, n);
            let cb = spec_apply_error(pb.0, n);
            assert forall|i: int| 0 <= i < ca.len() implies spec_names(ca)[i] == spec_names(cb)[i]
                && spec_statuses(ca)[i] == spec_statuses(cb)[i] by {
                assert(spec_names(ca)[i] == ca[i].name);
                assert(spec_names(cb)[i] == cb[i].name);
                assert(spec_statuses(ca)[i] == ca[i].status);
                assert(spec_statuses(cb)[i] == cb[i].status);
            }
            assert(spec_names(ca) =~= spec_names(cb));
            assert(spec_statuses(ca) =~= spec_statuses(cb));
        },
        None => {},
    }
}

/// Replaying depends on the clock only for the recorded instants.
pub proof fn lemma_replay_now_independent(
    a: Seq<TableEntryV>,
    b: Seq<TableEntryV>,
    threads: Map<u32, Seq<char>>,
    lines: Seq<Seq<char>>,
    n1: u64,
    n2: u64,
)
    requires
        spec_names(a) == spec_names(b),
        spec_statuses(a) == spec_statuses(b),
    ensures
        spec_names(spec_replay(a, threads, lines, n1).0) =~= spec_names(
            spec_replay(b, threads, lines, n2).0,
        ),
        spec_statuses(spec_replay(a, threads, lines, n1).0) =~= spec_statuses(
            spec_replay(b, threads, lines, n2).0,
        ),
        spec_replay(a, threads, lines, n1).1 == spec_replay(b, threads, lines, n2).1,
    decreases lines.len(),
{
    if lines.len() > 0 {
        let pa = spec_apply_line(a, threads, lines[0], n1);
        let pb = spec_apply_line(b, threads, lines[0], n2);
        lemma_apply_line_now_independent(a, b, threads, lines[0], n1, n2);
        lemma_replay_now_independent(pa.0, pb.0, pa.1, lines.skip(1), n1, n2);
    }
}

/// Through a line with no error marker, no table enters error.
pub proof fn lemma_apply_line_no_new_errors(
    ts: Seq<TableEntryV>,
    threads: Map<u32, Seq<char>>,
    line: Seq<char>,
    now: u64,
)
    requires
        spec_error_match(line) is None,
    ensures
        ({
            let r = spec_apply_line(ts, threads, line, now).0;
            &&& r.len() == ts.len()
            &&& spec_names(r) =~= spec_names(ts)
            &&& forall|i: int|
                0 <= i < ts.len() && (#[trigger] r[i]).status == TableStatus::Error ==> ts[i].status
                    == TableStatus::Error
        }),
{
    lemma_apply_line_len(ts, threads, line, now);
    let a = match spec_estimate_match(line) {
        Some(n) => spec_apply_estimate(ts, n, now),
        None => ts,
    };
    assert(spec_names(a) =~= spec_names(ts) && (forall|i: int|
        0 <= i < ts.len() && (#[trigger] a[i]).status == TableStatus::Error ==> ts[i].status
            == TableStatus::Error)) by {
        match spec_estimate_match(line) {
            Some(n) => {
                lemma_find_table_first(ts, n);
                assert forall|i: int| 0 <= i < a.len() implies spec_names(a)[i] == spec_names(
                    ts,
                )[i] by {
                    assert(spec_names(a)[i] == a[i].name);
                    assert(spec_names(ts)[i] == ts[i].name);
                }
            },
            None => {},
        }
    }
    let p = match spec_report_match(line) {
        Some(r) => spec_apply_report(a, threads, r.0, r.1, r.2, now),
        None => (a, threads),
    };
    assert(spec_names(p.0) =~= spec_names(ts) && (forall|i: int|
        0 <= i < ts.len() && (#[trigger] p.0[i]).status == TableStatus::Error ==> a[i].status
            == TableStatus::Error)) by {
        match spec_report_match(line) {
            Some(r) => {
                if threads.contains_key(r.0) {
                    lemma_find_table_first(a, threads[r.0]);
                }
                let ts1 = spec_apply_report(a, threads, r.0, r.1, r.2, now).0;
                let mid = if threads.contains_key(r.0) && threads[r.0] != r.1
                    && spec_no_other_thread(threads, r.0, threads[r.0]) {
                    match spec_find_table(a, threads[r.0]) {
                        Some(i) => {
                            if a[i].status != TableStatus::Error {
                                a.update(
                                    i,
                                    TableEntryV {
                                        status: TableStatus::Completed,
                                        percent: Some(100u32),
                                        completed_at: Some(now),
                                        ..a[i]
                                    },
                                )
                            } else {
                                a
                            }
                        },
                        None => a,
                    }
                } else {
                    a
                };
                lemma_find_table_first(mid, r.1);
                assert forall|i: int| 0 <= i < p.0.len() implies spec_names(p.0)[i] == spec_names(
                    ts,
                )[i] by {
                    assert(spec_names(p.0)[i] == p.0[i].name);
                    assert(spec_names(a)[i] == a[i].name);
                    assert(spec_names(ts)[i] == ts[i].name);
                }
            },
            None => {},
        }
    }
    match spec_error_match(line) {
        Some(_) => {
            assert(false);
        },
        None => {},
    }
}

/// Through error-free lines, no table enters error.
pub proof fn lemma_replay_no_new_errors(
    ts: Seq<TableEntryV>,
    threads: Map<u32, Seq<char>>,
    lines: Seq<Seq<char>>,
    now: u64,
)
    requires
        forall|k: int| 0 <= k < lines.len() ==> spec_error_match(#[trigger] lines[k]) is None,
    ensures
        ({
            let r = spec_replay(ts, threads, lines, now).0;
            &&& r.len() == ts.len()
            &&& spec_names(r) =~= spec_names(ts)
            &&& forall|i: int|
                0 <= i < ts.len() && (#[trigger] r[i]).status == TableStatus::Error ==> ts[i].status
                    == TableStatus::Error
        }),
    decreases lines.len(),
{
    if lines.len() > 0 {
        let p = spec_apply_line(ts, threads, lines[0], now);
        lemma_apply_line_no_new_errors(ts, threads, lines[0], now);
        assert forall|k: int| 0 <= k < lines.skip(1).len() implies spec_error_match(
            #[trigger] lines.skip(1)[k],
        ) is None by {
            assert(lines.skip(1)[k] == lines[k + 1]);
        }
        lemma_replay_no_new_errors(p.0, p.1, lines.skip(1), now);
        let r = spec_replay(ts, threads, lines, now).0;
        assert forall|i: int| 0 <= i < r.len() implies spec_names(r)[i] == spec_names(ts)[i] by {
            assert(spec_names(r)[i] == spec_names(p.0)[i]);
            assert(spec_names(p.0)[i] == spec_names(ts)[i]);
        }
    }
}

/// Through a line with no error marker, no table leaves completed unless
/// a report names it.
pub proof fn lemma_apply_line_preserves(
    st_ref: Seq<TableEntryV>,
    ts: Seq<TableEntryV>,
    threads: Map<u32, Seq<char>>,
    line: Seq<char>,
    now: u64,
)
    requires
        spec_names(ts) == spec_names(st_ref),
        spec_error_match(line) is None,
        (match spec_report_match(line) {
            Some(r) => match spec_find_table(st_ref, r.1) {
                Some(j) => st_ref[j].status != TableStatus::Completed,
                None => true,
            },
            None => true,
        }),
        forall|i: int|
            0 <= i < st_ref.len() && (#[trigger] st_ref[i]).status == TableStatus::Completed
                ==> ts[i].status == TableStatus::Completed,
    ensures
        ({
            let r = spec_apply_line(ts, threads, line, now).0;
            &&& spec_names(r) =~= spec_names(st_ref)
            &&& forall|i: int|
                0 <= i < st_ref.len() && (#[trigger] st_ref[i]).status == TableStatus::Completed
                    ==> r[i].status == TableStatus::Completed
        }),
{
    assert(spec_names(ts).len() == ts.len());
    assert(spec_names(st_ref).len() == st_ref.len());
    let a = match spec_estimate_match(line) {
        Some(n) => spec_apply_estimate(ts, n, now),
        None => ts,
    };
    assert(spec_names(a) =~= spec_names(ts) && (forall|i: int|
        0 <= i < st_ref.len() && (#[trigger] st_ref[i]).status == TableStatus::Completed
            ==> a[i].status == TableStatus::Completed)) by {
        match spec_estimate_match(line) {
            Some(n) => {
                lemma_find_table_first(ts, n);
                assert forall|i: int| 0 <= i < a.len() implies spec_names(a)[i] == spec_names(
                    ts,
                )[i] by {
                    assert(spec_names(a)[i] == a[i].name);
                    assert(spec_names(ts)[i] == ts[i].name);
                }
            },
            None => {},
        }
    }
    let p = match spec_report_match(line) {
        Some(r) => spec_apply_report(a, threads, r.0, r.1, r.2, now),
        None => (a, threads),
    };
    assert(spec_names(p.0) =~= spec_names(st_ref) && (forall|i: int|
        0 <= i < st_ref.len() && (#[trigger] st_ref[i]).status == TableStatus::Completed
            ==> p.0[i].status == TableStatus::Completed)) by {
        match spec_report_match(line) {
            Some(r) => {
                let ts1 = if threads.contains_key(r.0) && threads[r.0] != r.1
                    && spec_no_other_thread(threads, r.0, threads[r.0]) {
                    match spec_find_table(a, threads[r.0]) {
                        Some(i) => {
                            if a[i].status != TableStatus::Error {
                                a.update(
                                    i,
                                    TableEntryV {
                                        status: TableStatus::Completed,
                                        percent: Some(100u32),
                                        completed_at: Some(now),
                                        ..a[i]
                                    },
                                )
                            } else {
                                a
                            }
                        },
                        None => a,
                    }
                } else {
                    a
                };
                if threads.contains_key(r.0) {
                    lemma_find_table_first(a, threads[r.0]);
                }
                assert(spec_names(ts1) =~= spec_names(st_ref)) by {
                    assert forall|i: int| 0 <= i < ts1.len() implies spec_names(ts1)[i]
                        == spec_names(st_ref)[i] by {
                        assert(spec_names(ts1)[i] == ts1[i].name);
                        assert(spec_names(a)[i] == a[i].name);
                        assert(spec_names(st_ref)[i] == st_ref[i].name);
                    }
                }
                lemma_find_table_names(ts1, st_ref, r.1);
                lemma_find_table_first(ts1, r.1);
            },
            None => {},
        }
    }
    match spec_error_match(line) {
        Some(_) => {
            assert(false);
        },
        None => {},
    }
}

/// The heart of the growth law: replaying further lines that carry no
/// error marker and report no table the reference row already shows
/// completed keeps every completed table completed, and makes no table
/// newly erroneous.
pub proof fn lemma_replay_preserves(
    st_ref: Seq<TableEntryV>,
    ts: Seq<TableEntryV>,
    threads: Map<u32, Seq<char>>,
    lines: Seq<Seq<char>>,
    now: u64,
)
    requires
        spec_names(ts) == spec_names(st_ref),
        forall|k: int| 0 <= k < lines.len() ==> spec_error_match(#[trigger] lines[k]) is None,
        forall|k: int|
            0 <= k < lines.len() ==> (match spec_report_match(#[trigger] lines[k]) {
                Some(r) => match spec_find_table(st_ref, r.1) {
                    Some(j) => st_ref[j].status != TableStatus::Completed,
                    None => true,
                },
                None => true,
            }),
        forall|i: int|
            0 <= i < st_ref.len() && (#[trigger] st_ref[i]).status == TableStatus::Completed
                ==> ts[i].status == TableStatus::Completed,
    ensures
        ({
            let r = spec_replay(ts, threads, lines, now).0;
            &&& spec_names(r) =~= spec_names(st_ref)
            &&& forall|i: int|
                0 <= i < st_ref.len() && (#[trigger] st_ref[i]).status == TableStatus::Completed
                    ==> r[i].status == TableStatus::Completed
        }),
    decreases lines.len(),
{
    if lines.len() > 0 {
        let p = spec_apply_line(ts, threads, lines[0], now);
        lemma_apply_line_preserves(st_ref, ts, threads, lines[0], now);
        assert forall|k: int| 0 <= k < lines.skip(1).len() implies spec_error_match(
            #[trigger] lines.skip(1)[k],
        ) is None by {
            assert(lines.skip(1)[k] == lines[k + 1]);
        }
        assert forall|k: int| 0 <= k < lines.skip(1).len() implies (match spec_report_match(
            #[trigger] lines.skip(1)[k],
        ) {
            Some(r) => match spec_find_table(st_ref, r.1) {
                Some(j) => st_ref[j].status != TableStatus::Completed,
                None => true,
            },
            None => true,
        }) by {
            assert(lines.skip(1)[k] == lines[k + 1]);
        }
        lemma_replay_preserves(st_ref, p.0, p.1, lines.skip(1), now);
    }
}

/// Pointwise preservation of a status gives a count that cannot shrink.
pub proof fn lemma_count_pointwise(a: Seq<TableEntryV>, b: Seq<TableEntryV>, st: TableStatus)
    requires
        a.len() == b.len(),
        forall|i: int| 0 <= i < a.len() && (#[trigger] a[i]).status == st ==> b[i].status == st,
    ensures
        spec_count_status(a, st) <= spec_count_status(b, st),
    decreases a.len(),
{
    if a.len() > 0 {
        assert forall|i: int|
            0 <= i < a.len() - 1 && (#[trigger] a.drop_last()[i]).status == st implies
            b.drop_last()[i].status == st by {
            assert(a.drop_last()[i] == a[i]);
            assert(b.drop_last()[i] == b[i]);
        }
        lemma_count_pointwise(a.drop_last(), b.drop_last(), st);
    }
}

/// Counting distributes over putting two rows side by side.
pub proof fn lemma_count_concat(a: Seq<TableEntryV>, b: Seq<TableEntryV>, st: TableStatus)
    ensures
        spec_count_status(a + b, st) == spec_count_status(a, st) + spec_count_status(b, st),
    decreases b.len(),
{
    if b.len() == 0 {
        assert(a + b =~= a);
    } else {
        assert((a + b).drop_last() =~= a + b.drop_last());
        assert((a + b).last() == b.last());
        lemma_count_concat(a, b.drop_last(), st);
    }
}

/// Excluded tables never count toward pending or in-progress, and every
/// one of them stands skipped in the combined row, whatever the log
/// held.
pub proof fn lemma_excluded_always_skipped(
    names: Seq<Seq<char>>,
    excl: Seq<Seq<char>>,
    lines: Seq<Seq<char>>,
    now: u64,
)
    ensures
        ({
            let base = spec_reconstruct(names, lines, now);
            let all = base + spec_excluded_entries(excl, now);
            &&& all.len() == names.len() + excl.len()
            &&& forall|k: int|
                0 <= k < excl.len() ==> (#[trigger] all[base.len() + k]).status
                    == TableStatus::Skipped && all[base.len() + k].name == excl[k]
            &&& spec_count_status(all, TableStatus::Pending) == spec_count_status(
                base,
                TableStatus::Pending,
            )
            &&& spec_count_status(all, TableStatus::InProgress) == spec_count_status(
                base,
                TableStatus::InProgress,
            )
            &&& spec_count_status(all, TableStatus::Skipped) >= excl.len()
        }),
{
    let base = spec_reconstruct(names, lines, now);
    let ex = spec_excluded_entries(excl, now);
    let all = base + ex;
    lemma_replay_len(spec_init_tables(names), Map::empty(), lines, now);
    assert(base.len() == names.len());
    lemma_count_concat(base, ex, TableStatus::Pending);
    lemma_count_concat(base, ex, TableStatus::InProgress);
    lemma_count_concat(base, ex, TableStatus::Skipped);
    lemma_count_all_of(ex, now, excl);
    lemma_count_bounds(base, TableStatus::Skipped);
    assert(ex.len() == excl.len());
    assert forall|k: int| 0 <= k < excl.len() implies (#[trigger] all[base.len() + k]).status
        == TableStatus::Skipped && all[base.len() + k].name == excl[k] by {
        assert(all[base.len() + k] == ex[k]);
    }
}

/// Every synthesized excluded entry is skipped, so the excluded row
/// counts nothing as pending or in progress and everything as skipped.
proof fn lemma_count_all_of(ex: Seq<TableEntryV>, now: u64, excl: Seq<Seq<char>>)
    requires
        ex == spec_excluded_entries(excl, now),
    ensures
        spec_count_status(ex, TableStatus::Pending) == 0,
        spec_count_status(ex, TableStatus::InProgress) == 0,
        spec_count_status(ex, TableStatus::Skipped) == ex.len(),
    decreases excl.len(),
{
    if excl.len() > 0 {
        let d = spec_excluded_entries(excl.drop_last(), now);
        assert(ex.drop_last() =~= d);
        lemma_count_all_of(d, now, excl.drop_last());
        assert(ex.last().status == TableStatus::Skipped);
    }
}

/// The growth law: when the log only grows, and the new lines carry no
/// error marker and report progress on no table the earlier snapshot
/// already shows completed, the completed-table count never decreases,
/// whatever instants the two reconstructions ran at.
pub proof fn lemma_completed_count_monotone(
    names: Seq<Seq<char>>,
    lines1: Seq<Seq<char>>,
    lines2: Seq<Seq<char>>,
    now1: u64,
    now2: u64,
)
    requires
        lines1.len() <= lines2.len(),
        lines1 == lines2.take(lines1.len() as int),
        forall|k: int|
            lines1.len() <= k < lines2.len() ==> spec_error_match(#[trigger] lines2[k]) is None,
        forall|k: int|
            lines1.len() <= k < lines2.len() ==> (match spec_report_match(
                #[trigger] lines2[k],
            ) {
                Some(r) => match spec_find_table(spec_reconstruct(names, lines1, now1), r.1) {
                    Some(j) => spec_reconstruct(names, lines1, now1)[j].status
                        != TableStatus::Completed,
                    None => true,
                },
                None => true,
            }),
    ensures
        spec_count_status(spec_reconstruct(names, lines1, now1), TableStatus::Completed)
            <= spec_count_status(spec_reconstruct(names, lines2, now2), TableStatus::Completed),
{
    let init = spec_init_tables(names);
    let empty_threads = Map::<u32, Seq<char>>::empty();
    let st1 = spec_replay(init, empty_threads, lines1, now1);
    let st1b = spec_replay(init, empty_threads, lines1, now2);
    let snap1 = spec_reconstruct(names, lines1, now1);
    let snap2 = spec_reconstruct(names, lines2, now2);
    lemma_replay_now_independent(init, init, empty_threads, lines1, now1, now2);
    lemma_replay_len(init, empty_threads, lines1, now1);
    lemma_replay_len(init, empty_threads, lines1, now2);
    // The second run replays the prefix and then the rest.
    let suffix = lines2.skip(lines1.len() as int);
    lemma_replay_split(init, empty_threads, lines2, lines1.len() as int, now2);
    let fin = spec_replay(st1b.0, st1b.1, suffix, now2).0;
    lemma_replay_len(st1b.0, st1b.1, suffix, now2);
    let st_ref = if spec_any_finished(lines1) {
        spec_sweep(st1.0, now1)
    } else {
        st1.0
    };
    assert(snap1 == st_ref);
    assert(st_ref.len() == st1.0.len());
    assert(spec_names(st1b.0) =~= spec_names(st_ref)) by {
        assert forall|i: int| 0 <= i < st1.0.len() implies spec_names(st1b.0)[i] == spec_names(
            st_ref,
        )[i] by {
            assert(spec_names(st1b.0)[i] == st1b.0[i].name);
            assert(spec_names(st1.0)[i] == st1.0[i].name);
            assert(spec_names(st_ref)[i] == st_ref[i].name);
        }
    }
    assert forall|k: int| 0 <= k < suffix.len() implies spec_error_match(
        #[trigger] suffix[k],
    ) is None by {
        assert(suffix[k] == lines2[lines1.len() + k]);
    }
    if !spec_any_finished(lines1) {
        // The reference row is the prefix replay itself: completion
        // carries through the added lines index by index.
        assert forall|i: int|
            0 <= i < st_ref.len() && (#[trigger] st_ref[i]).status == TableStatus::Completed
            implies st1b.0[i].status == TableStatus::Completed by {
            assert(spec_statuses(st1.0)[i] == st1.0[i].status);
            assert(spec_statuses(st1b.0)[i] == st1b.0[i].status);
        }
        assert forall|k: int| 0 <= k < suffix.len() implies (match spec_report_match(
            #[trigger] suffix[k],
        ) {
            Some(r) => match spec_find_table(st_ref, r.1) {
                Some(j) => st_ref[j].status != TableStatus::Completed,
                None => true,
            },
            None => true,
        }) by {
            assert(suffix[k] == lines2[lines1.len() + k]);
        }
        lemma_replay_preserves(st_ref, st1b.0, st1b.1, suffix, now2);
        assert forall|i: int|
            0 <= i < st_ref.len() && (#[trigger] snap1[i]).status == TableStatus::Completed
            implies snap2[i].status == TableStatus::Completed by {
            assert(fin[i].status == TableStatus::Completed);
            if spec_any_finished(lines2) {
                assert(snap2[i] == spec_sweep(fin, now2)[i]);
            } else {
                assert(snap2[i] == fin[i]);
            }
        }
        assert(snap2.len() == snap1.len());
        lemma_count_pointwise(snap1, snap2, TableStatus::Completed);
    } else {
        // The prefix finished, hence so does the grown log, and both
        // snapshots are swept: completion is exactly freedom from
        // error, which error-free lines cannot disturb.
        assert(spec_any_finished(lines2)) by {
            let w = choose|i: int| 0 <= i < lines1.len() && spec_finished(#[trigger] lines1[i]);
            assert(lines2[w] == lines1[w]);
        }
        lemma_replay_no_new_errors(st1b.0, st1b.1, suffix, now2);
        assert(snap2 == spec_sweep(fin, now2));
        assert forall|i: int|
            0 <= i < st_ref.len() && (#[trigger] snap1[i]).status == TableStatus::Completed
            implies snap2[i].status == TableStatus::Completed by {
            assert(st_ref[i] == spec_sweep(st1.0, now1)[i]);
            assert(st1.0[i].status != TableStatus::Error);
            assert(spec_statuses(st1.0)[i] == st1.0[i].status);
            assert(spec_statuses(st1b.0)[i] == st1b.0[i].status);
            assert(st1b.0[i].status != TableStatus::Error);
            assert(fin[i].status != TableStatus::Error);
            assert(snap2[i] == spec_sweep(fin, now2)[i]);
        }
        assert(snap2.len() == snap1.len());
        lemma_count_pointwise(snap1, snap2, TableStatus::Completed);
    }
}

/// Replaying a whole row of lines is replaying a prefix and then the
/// rest.
pub proof fn lemma_replay_split(
    ts: Seq<TableEntryV>,
    threads: Map<u32, Seq<char>>,
    lines: Seq<Seq<char>>,
    k: int,
    now: u64,
)
    requires
        0 <= k <= lines.len(),
    ensures
        spec_replay(ts, threads, lines, now) == ({
            let p = spec_replay(ts, threads, lines.take(k), now);
            spec_replay(p.0, p.1, lines.skip(k), now)
        }),
    decreases k,
{
    if k == 0 {
        assert(lines.take(0) =~= Seq::<Seq<char>>::empty());
        assert(lines.skip(0) =~= lines);
    } else {
        let p0 = spec_apply_line(ts, threads, lines[0], now);
        assert(lines.take(k)[0] == lines[0]);
        assert(lines.take(k).skip(1) =~= lines.skip(1).take(k - 1));
        assert(lines.skip(1).skip(k - 1) =~= lines.skip(k));
        lemma_replay_split(p0.0, p0.1, lines.skip(1), k - 1, now);
    }
}

/// Overwriting one entry's table is inserting it into the map.
pub proof fn lemma_threads_update(s: Seq<(u32, Seq<char>)>, i: int, v: Seq<char>)
    requires
        spec_threads_unique(s),
        0 <= i < s.len(),
    ensures
        spec_threads_of(s.update(i, (s[i].0, v))) =~= spec_threads_of(s).insert(s[i].0, v),
        spec_threads_unique(s.update(i, (s[i].0, v))),
    decreases s.len(),
{
    let s2 = s.update(i, (s[i].0, v));
    assert(spec_threads_unique(s2)) by {
        assert forall|a: int, b: int| 0 <= a < b < s2.len() implies (#[trigger] s2[a]).0 != (
        #[trigger] s2[b]).0 by {
            assert(s2[a].0 == s[a].0 && s2[b].0 == s[b].0);
        }
    }
    if i == s.len() - 1 {
        assert(s2.drop_last() =~= s.drop_last());
        assert(s2.last() == (s[i].0, v));
        assert(spec_threads_of(s2) =~= spec_threads_of(s).insert(s[i].0, v));
    } else {
        let d = s.drop_last();
        assert(spec_threads_unique(d)) by {
            assert forall|a: int, b: int| 0 <= a < b < d.len() implies (#[trigger] d[a]).0 != (
            #[trigger] d[b]).0 by {
                assert(d[a] == s[a] && d[b] == s[b]);
            }
        }
        lemma_threads_update(d, i, v);
        assert(s2.drop_last() =~= d.update(i, (d[i].0, v)));
        assert(s2.last() == s.last());
        assert(s[i].0 != s.last().0);
        assert(spec_threads_of(s2) =~= spec_threads_of(s).insert(s[i].0, v));
    }
}

} // verus!
