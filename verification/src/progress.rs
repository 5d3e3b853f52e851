//! The progress reconstructor's log grammar.  The dump tool's log is
//! read line by line; a line can carry a row-estimate notice, a worker
//! thread's per-table progress report, an error marker naming a table,
//! or the overall end-of-dump marker.  Matching follows the tool's
//! formats exactly: a pattern is searched from the left, each piece
//! taking the longest run it can.

use vstd::prelude::*;
use crate::text::{
    spec_is_digit, is_digit, spec_match_at, spec_find, spec_rfind, find_last,
};
use crate::schedule::{spec_all_digits, spec_digits_val};

verus! {

/// A value parsed as the tool parses it: too large for `u32` collapses
/// to zero.
pub open spec fn spec_capped(v: int) -> u32 {
    if 0 <= v <= u32::MAX {
        v as u32
    } else {
        0u32
    }
}

/// The end of the run of decimal digits starting at `from`.
pub open spec fn spec_digit_run_end(s: Seq<char>, from: int) -> int
    decreases s.len() - from,
{
    if !(0 <= from < s.len()) {
        from
    } else if !spec_is_digit(s[from]) {
        from
    } else {
        spec_digit_run_end(s, from + 1)
    }
}

/// The end of the run of non-backtick characters starting at `from`.
pub open spec fn spec_nontick_run_end(s: Seq<char>, from: int) -> int
    decreases s.len() - from,
{
    if !(0 <= from < s.len()) {
        from
    } else if s[from] == '`' {
        from
    } else {
        spec_nontick_run_end(s, from + 1)
    }
}

/// The end of the run of non-dot characters starting at `from`.
pub open spec fn spec_nondot_run_end(s: Seq<char>, from: int) -> int
    decreases s.len() - from,
{
    if !(0 <= from < s.len()) {
        from
    } else if s[from] == '.' {
        from
    } else {
        spec_nondot_run_end(s, from + 1)
    }
}

/// The end of the run of non-space characters starting at `from`.
pub open spec fn spec_nonspace_run_end(s: Seq<char>, from: int) -> int
    decreases s.len() - from,
{
    if !(0 <= from < s.len()) {
        from
    } else if s[from] == ' ' {
        from
    } else {
        spec_nonspace_run_end(s, from + 1)
    }
}

pub proof fn lemma_run_end_bounds(s: Seq<char>, from: int)
    requires
        0 <= from <= s.len(),
    ensures
        from <= spec_digit_run_end(s, from) <= s.len(),
        from <= spec_nontick_run_end(s, from) <= s.len(),
        from <= spec_nondot_run_end(s, from) <= s.len(),
        from <= spec_nonspace_run_end(s, from) <= s.len(),
    decreases s.len() - from,
{
    if from < s.len() {
        lemma_run_end_bounds(s, from + 1);
    }
}

/// A worker thread's progress report:
/// ``Thread N: `db`.`table` [ P% ]`` attempted at one position.
pub open spec fn spec_try_report_at(s: Seq<char>, i: int) -> Option<(u32, Seq<char>, u32)> {
    if !spec_match_at(s, "Thread "@, i) {
        None
    } else {
        let t0 = i + "Thread "@.len();
        let t1 = spec_digit_run_end(s, t0);
        if t1 == t0 || !spec_match_at(s, ": `"@, t1) {
            None
        } else {
            let d0 = t1 + ": `"@.len();
            let d1 = spec_nontick_run_end(s, d0);
            if d1 == d0 || !spec_match_at(s, "`.`"@, d1) {
                None
            } else {
                let b0 = d1 + "`.`"@.len();
                let b1 = spec_nontick_run_end(s, b0);
                if b1 == b0 || !spec_match_at(s, "` [ "@, b1) {
                    None
                } else {
                    let p0 = b1 + "` [ "@.len();
                    let p1 = spec_digit_run_end(s, p0);
                    if p1 == p0 || !spec_match_at(s, "% ]"@, p1) {
                        None
                    } else {
                        Some(
                            (
                                spec_capped(spec_digits_val(s.subrange(t0, t1))),
                                s.subrange(b0, b1),
                                spec_capped(spec_digits_val(s.subrange(p0, p1))),
                            ),
                        )
                    }
                }
            }
        }
    }
}

/// The leftmost successful report attempt on a line.
pub open spec fn spec_report_search(s: Seq<char>, i: int) -> Option<(u32, Seq<char>, u32)>
    decreases s.len() - i,
{
    if !(0 <= i < s.len()) {
        None
    } else {
        match spec_try_report_at(s, i) {
            Some(r) => Some(r),
            None => spec_report_search(s, i + 1),
        }
    }
}

/// What a thread-progress line says: the thread, the table, the percent.
pub open spec fn spec_report_match(s: Seq<char>) -> Option<(u32, Seq<char>, u32)> {
    spec_report_search(s, 0)
}

pub proof fn lemma_report_search_first(s: Seq<char>, i: int)
    requires
        0 <= i,
    ensures
        match spec_report_search(s, i) {
            Some(r) => exists|j: int|
                i <= j < s.len() && #[trigger] spec_try_report_at(s, j) == Some(r) && (forall|
                    k: int,
                |
                    i <= k < j ==> spec_try_report_at(s, k) is None),
            None => forall|j: int| i <= j < s.len() ==> spec_try_report_at(s, j) is None,
        },
    decreases s.len() - i,
{
    if 0 <= i < s.len() {
        lemma_report_search_first(s, i + 1);
        match spec_try_report_at(s, i) {
            Some(r) => {
                assert(spec_try_report_at(s, i) == Some(r) && (forall|k: int|
                    i <= k < i ==> spec_try_report_at(s, k) is None));
            },
            None => {
                match spec_report_search(s, i + 1) {
                    Some(r) => {
                        let j = choose|j: int|
                            i + 1 <= j < s.len() && #[trigger] spec_try_report_at(s, j) == Some(r)
                                && (forall|k: int|
                                i + 1 <= k < j ==> spec_try_report_at(s, k) is None);
                        assert(spec_try_report_at(s, j) == Some(r) && (forall|k: int|
                            i <= k < j ==> spec_try_report_at(s, k) is None));
                    },
                    None => {},
                }
            },
        }
    }
}

/// A row-estimate notice: `db.table has ~N rows` attempted at one
/// position; the table name is what stands between the first dot and
/// the following space.
pub open spec fn spec_try_estimate_at(s: Seq<char>, i: int) -> Option<Seq<char>> {
    if !(0 <= i < s.len()) {
        None
    } else {
        let d1 = spec_nondot_run_end(s, i);
        if d1 == i || !(d1 < s.len() && s[d1] == '.') {
            None
        } else {
            let e = spec_nonspace_run_end(s, d1 + 1);
            if e == d1 + 1 || !spec_match_at(s, " has ~"@, e) {
                None
            } else {
                let f0 = e + " has ~"@.len();
                let f1 = spec_digit_run_end(s, f0);
                if f1 == f0 || !spec_match_at(s, " rows"@, f1) {
                    None
                } else {
                    Some(s.subrange(d1 + 1, e))
                }
            }
        }
    }
}

pub open spec fn spec_estimate_search(s: Seq<char>, i: int) -> Option<Seq<char>>
    decreases s.len() - i,
{
    if !(0 <= i < s.len()) {
        None
    } else {
        match spec_try_estimate_at(s, i) {
            Some(r) => Some(r),
            None => spec_estimate_search(s, i + 1),
        }
    }
}

/// What a row-estimate line says: the table whose dump began.
pub open spec fn spec_estimate_match(s: Seq<char>) -> Option<Seq<char>> {
    spec_estimate_search(s, 0)
}

pub proof fn lemma_estimate_search_first(s: Seq<char>, i: int)
    requires
        0 <= i,
    ensures
        match spec_estimate_search(s, i) {
            Some(r) => exists|j: int|
                i <= j < s.len() && #[trigger] spec_try_estimate_at(s, j) == Some(r) && (forall|
                    k: int,
                |
                    i <= k < j ==> spec_try_estimate_at(s, k) is None),
            None => forall|j: int| i <= j < s.len() ==> spec_try_estimate_at(s, j) is None,
        },
    decreases s.len() - i,
{
    if 0 <= i < s.len() {
        lemma_estimate_search_first(s, i + 1);
        match spec_try_estimate_at(s, i) {
            Some(r) => {
                assert(spec_try_estimate_at(s, i) == Some(r) && (forall|k: int|
                    i <= k < i ==> spec_try_estimate_at(s, k) is None));
            },
            None => {
                match spec_estimate_search(s, i + 1) {
                    Some(r) => {
                        let j = choose|j: int|
                            i + 1 <= j < s.len() && #[trigger] spec_try_estimate_at(s, j) == Some(
                                r,
                            ) && (forall|k: int|
                                i + 1 <= k < j ==> spec_try_estimate_at(s, k) is None);
                        assert(spec_try_estimate_at(s, j) == Some(r) && (forall|k: int|
                            i <= k < j ==> spec_try_estimate_at(s, k) is None));
                    },
                    None => {},
                }
            },
        }
    }
}

/// The last pair of backticks with something between them: what the
/// error marker's capture reaches after backtracking from the right.
pub open spec fn spec_last_tick_pair(t: Seq<char>) -> Option<Seq<char>>
    decreases t.len(),
    via spec_last_tick_pair_decreases
{
    match spec_rfind(t, '`') {
        None => None,
        Some(last) => {
            match spec_rfind(t.take(last), '`') {
                None => None,
                Some(prev) => {
                    if prev + 1 < last {
                        Some(t.subrange(prev + 1, last))
                    } else {
                        spec_last_tick_pair(t.take(last))
                    }
                },
            }
        },
    }
}

#[via_fn]
proof fn spec_last_tick_pair_decreases(t: Seq<char>) {
    crate::text::lemma_rfind_last(t, '`');
}

/// What an error line says: the table named in backticks after the
/// first `ERROR` marker, if any.
pub open spec fn spec_error_match(s: Seq<char>) -> Option<Seq<char>> {
    match spec_find(s, "ERROR"@) {
        Some(e) => spec_last_tick_pair(s.skip(e + "ERROR"@.len())),
        None => None,
    }
}

/// Whether the log carries the overall end-of-dump marker.
pub open spec fn spec_finished(log: Seq<char>) -> bool {
    spec_find(log, "Finished dump at:"@) is Some
}

/// Every character of a digit run is a digit.
pub proof fn lemma_digit_run_chars(s: Seq<char>, from: int)
    requires
        0 <= from <= s.len(),
    ensures
        forall|k: int| from <= k < spec_digit_run_end(s, from) ==> spec_is_digit(#[trigger] s[k]),
    decreases s.len() - from,
{
    if from < s.len() && spec_is_digit(s[from]) {
        lemma_digit_run_chars(s, from + 1);
    }
}

fn digit_run_end(s: &Vec<char>, from: usize) -> (r: usize)
    requires
        from <= s@.len(),
    ensures
        r as int == spec_digit_run_end(s@, from as int),
        from <= r <= s@.len(),
{
    let mut j = from;
    while j < s.len() && is_digit(s[j])
        invariant
            from <= j <= s@.len(),
            spec_digit_run_end(s@, from as int) == spec_digit_run_end(s@, j as int),
        decreases s@.len() - j,
    {
        j = j + 1;
    }
    proof {
        lemma_run_end_bounds(s@, j as int);
    }
    j
}

fn nontick_run_end(s: &Vec<char>, from: usize) -> (r: usize)
    requires
        from <= s@.len(),
    ensures
        r as int == spec_nontick_run_end(s@, from as int),
        from <= r <= s@.len(),
{
    let mut j = from;
    while j < s.len() && s[j] != '`'
        invariant
            from <= j <= s@.len(),
            spec_nontick_run_end(s@, from as int) == spec_nontick_run_end(s@, j as int),
        decreases s@.len() - j,
    {
        j = j + 1;
    }
    proof {
        lemma_run_end_bounds(s@, j as int);
    }
    j
}

fn nondot_run_end(s: &Vec<char>, from: usize) -> (r: usize)
    requires
        from <= s@.len(),
    ensures
        r as int == spec_nondot_run_end(s@, from as int),
        from <= r <= s@.len(),
{
    let mut j = from;
    while j < s.len() && s[j] != '.'
        invariant
            from <= j <= s@.len(),
            spec_nondot_run_end(s@, from as int) == spec_nondot_run_end(s@, j as int),
        decreases s@.len() - j,
    {
        j = j + 1;
    }
    proof {
        lemma_run_end_bounds(s@, j as int);
    }
    j
}

fn nonspace_run_end(s: &Vec<char>, from: usize) -> (r: usize)
    requires
        from <= s@.len(),
    ensures
        r as int == spec_nonspace_run_end(s@, from as int),
        from <= r <= s@.len(),
{
    let mut j = from;
    while j < s.len() && s[j] != ' '
        invariant
            from <= j <= s@.len(),
            spec_nonspace_run_end(s@, from as int) == spec_nonspace_run_end(s@, j as int),
        decreases s@.len() - j,
    {
        j = j + 1;
    }
    proof {
        lemma_run_end_bounds(s@, j as int);
    }
    j
}

/// Whether `pat` occurs in `s` at position `i`.
fn match_pat_at(s: &Vec<char>, pat: &Vec<char>, i: usize) -> (r: bool)
    ensures
        r == spec_match_at(s@, pat@, i as int),
{
    if i > s.len() || pat.len() > s.len() - i {
        proof {
            assert(!spec_match_at(s@, pat@, i as int));
        }
        return false;
    }
    let mut k: usize = 0;
    while k < pat.len() && s[i + k] == pat[k]
        invariant
            k <= pat@.len(),
            i + pat@.len() <= s@.len(),
            s@.len() <= usize::MAX,
            forall|j: int| 0 <= j < k ==> s@[i + j] == pat@[j],
        decreases pat@.len() - k,
    {
        k = k + 1;
    }
    if k == pat.len() {
        proof {
            assert(s@.subrange(i as int, i + pat@.len()) =~= pat@);
        }
        true
    } else {
        proof {
            assert(s@[i + k] != pat@[k as int]);
            if spec_match_at(s@, pat@, i as int) {
                assert(s@.subrange(i as int, i + pat@.len())[k as int] == s@[i + k]);
            }
        }
        false
    }
}

/// Reads the value of a digit run as the tool would: zero when it
/// overflows `u32`.
fn capped_value(digits: &Vec<char>) -> (r: u32)
    requires
        spec_all_digits(digits@),
    ensures
        r == spec_capped(spec_digits_val(digits@)),
{
    proof {
        crate::schedule::lemma_digits_val_nonneg(digits@);
    }
    match crate::schedule::parse_field_num(digits) {
        Some(v) => v,
        None => 0,
    }
}

/// Finds a thread-progress report in a line.
pub fn report_match(s: &Vec<char>) -> (r: Option<(u32, Vec<char>, u32)>)
    ensures
        match (r, spec_report_match(s@)) {
            (Some((t, name, p)), Some((st, sname, sp))) => t == st && name@ == sname && p == sp,
            (None, None) => true,
            _ => false,
        },
{
    let pat_thread = crate::text::str_to_chars("Thread ");
    let pat_colon = crate::text::str_to_chars(": `");
    let pat_dot = crate::text::str_to_chars("`.`");
    let pat_open = crate::text::str_to_chars("` [ ");
    let pat_close = crate::text::str_to_chars("% ]");
    let mut i: usize = 0;
    while i < s.len()
        invariant
            i <= s@.len(),
            pat_thread@ == "Thread "@,
            pat_colon@ == ": `"@,
            pat_dot@ == "`.`"@,
            pat_open@ == "` [ "@,
            pat_close@ == "% ]"@,
            forall|k: int| 0 <= k < i ==> spec_try_report_at(s@, k) is None,
        decreases s@.len() - i,
    {
        if match_pat_at(s, &pat_thread, i) {
            let t0 = i + pat_thread.len();
            let t1 = digit_run_end(s, t0);
            if t1 > t0 && match_pat_at(s, &pat_colon, t1) {
                let d0 = t1 + pat_colon.len();
                let d1 = nontick_run_end(s, d0);
                if d1 > d0 && match_pat_at(s, &pat_dot, d1) {
                    let b0 = d1 + pat_dot.len();
                    let b1 = nontick_run_end(s, b0);
                    if b1 > b0 && match_pat_at(s, &pat_open, b1) {
                        let p0 = b1 + pat_open.len();
                        let p1 = digit_run_end(s, p0);
                        if p1 > p0 && match_pat_at(s, &pat_close, p1) {
                            let tdigits = crate::text::sub_vec(s, t0, t1);
                            let name = crate::text::sub_vec(s, b0, b1);
                            let pdigits = crate::text::sub_vec(s, p0, p1);
                            proof {
                                lemma_digit_run_chars(s@, t0 as int);
                                lemma_digit_run_chars(s@, p0 as int);
                                assert(spec_all_digits(tdigits@));
                                assert(spec_all_digits(pdigits@));
                            }
                            let tv = capped_value(&tdigits);
                            let pv = capped_value(&pdigits);
                            proof {
                                assert(spec_try_report_at(s@, i as int) == Some(
                                    (tv, name@, pv),
                                ));
                                lemma_report_search_first(s@, 0);
                                match spec_report_match(s@) {
                                    Some(rr) => {
                                        let j = choose|j: int|
                                            0 <= j < s@.len() && #[trigger] spec_try_report_at(
                                                s@,
                                                j,
                                            ) == Some(rr) && (forall|k: int|
                                                0 <= k < j ==> spec_try_report_at(s@, k) is None);
                                        assert(j == i);
                                    },
                                    None => {
                                        assert(spec_try_report_at(s@, i as int) is None);
                                    },
                                }
                            }
                            return Some((tv, name, pv));
                        }
                    }
                }
            }
        }
        proof {
            assert(spec_try_report_at(s@, i as int) is None);
        }
        i = i + 1;
    }
    proof {
        lemma_report_search_first(s@, 0);
        match spec_report_match(s@) {
            Some(rr) => {
                let j = choose|j: int|
                    0 <= j < s@.len() && #[trigger] spec_try_report_at(s@, j) == Some(rr) && (
                    forall|k: int| 0 <= k < j ==> spec_try_report_at(s@, k) is None);
                assert(spec_try_report_at(s@, j) is None);
            },
            None => {},
        }
    }
    None
}

/// Finds a row-estimate notice in a line.
pub fn estimate_match(s: &Vec<char>) -> (r: Option<Vec<char>>)
    ensures
        match (r, spec_estimate_match(s@)) {
            (Some(name), Some(sname)) => name@ == sname,
            (None, None) => true,
            _ => false,
        },
{
    let pat_has = crate::text::str_to_chars(" has ~");
    let pat_rows = crate::text::str_to_chars(" rows");
    let mut i: usize = 0;
    while i < s.len()
        invariant
            i <= s@.len(),
            pat_has@ == " has ~"@,
            pat_rows@ == " rows"@,
            forall|k: int| 0 <= k < i ==> spec_try_estimate_at(s@, k) is None,
        decreases s@.len() - i,
    {
        let d1 = nondot_run_end(s, i);
        if d1 > i && d1 < s.len() && s[d1] == '.' {
            let e = nonspace_run_end(s, d1 + 1);
            if e > d1 + 1 && match_pat_at(s, &pat_has, e) {
                let f0 = e + pat_has.len();
                let f1 = digit_run_end(s, f0);
                if f1 > f0 && match_pat_at(s, &pat_rows, f1) {
                    let name = crate::text::sub_vec(s, d1 + 1, e);
                    proof {
                        assert(s@[d1 as int] == '.');
                        assert(spec_try_estimate_at(s@, i as int) == Some(name@));
                        lemma_estimate_search_first(s@, 0);
                        match spec_estimate_match(s@) {
                            Some(rr) => {
                                let j = choose|j: int|
                                    0 <= j < s@.len() && #[trigger] spec_try_estimate_at(s@, j)
                                        == Some(rr) && (forall|k: int|
                                        0 <= k < j ==> spec_try_estimate_at(s@, k) is None);
                                assert(j == i);
                            },
                            None => {
                                assert(spec_try_estimate_at(s@, i as int) is None);
                            },
                        }
                    }
                    return Some(name);
                }
            }
        }
        proof {
            assert(spec_try_estimate_at(s@, i as int) is None);
        }
        i = i + 1;
    }
    proof {
        lemma_estimate_search_first(s@, 0);
        match spec_estimate_match(s@) {
            Some(rr) => {
                let j = choose|j: int|
                    0 <= j < s@.len() && #[trigger] spec_try_estimate_at(s@, j) == Some(rr) && (
                    forall|k: int| 0 <= k < j ==> spec_try_estimate_at(s@, k) is None);
                assert(spec_try_estimate_at(s@, j) is None);
            },
            None => {},
        }
    }
    None
}

/// Finds the last non-empty backtick pair in a text.
fn last_tick_pair(t: &Vec<char>) -> (r: Option<Vec<char>>)
    ensures
        match (r, spec_last_tick_pair(t@)) {
            (Some(name), Some(sname)) => name@ == sname,
            (None, None) => true,
            _ => false,
        },
{
    let mut end = t.len();
    proof {
        assert(t@.take(end as int) =~= t@);
    }
    loop
        invariant_except_break
            end <= t@.len(),
            spec_last_tick_pair(t@) == spec_last_tick_pair(t@.take(end as int)),
        ensures
            match spec_last_tick_pair(t@) {
                Some(_) => false,
                None => true,
            },
        decreases end,
    {
        let ghost cur = t@.take(end as int);
        // The last backtick before `end`.
        let mut j = end;
        while j > 0 && t[j - 1] != '`'
            invariant
                j <= end <= t@.len(),
                spec_rfind(t@.take(end as int), '`') == spec_rfind(t@.take(j as int), '`'),
            decreases j,
        {
            proof {
                assert(t@.take(j as int).drop_last() =~= t@.take(j - 1));
                assert(t@.take(j as int)[j - 1] == t@[j - 1]);
            }
            j = j - 1;
        }
        if j == 0 {
            proof {
                assert(t@.take(0).len() == 0);
                assert(spec_last_tick_pair(cur) is None);
            }
            return None;
        }
        let last = j - 1;
        proof {
            assert(t@.take(j as int)[j - 1] == t@[j - 1]);
            assert(spec_rfind(cur, '`') == Some(last as int));
        }
        // The backtick before it.
        let mut k = last;
        while k > 0 && t[k - 1] != '`'
            invariant
                k <= last < t@.len(),
                spec_rfind(t@.take(last as int), '`') == spec_rfind(t@.take(k as int), '`'),
            decreases k,
        {
            proof {
                assert(t@.take(k as int).drop_last() =~= t@.take(k - 1));
                assert(t@.take(k as int)[k - 1] == t@[k - 1]);
            }
            k = k - 1;
        }
        proof {
            assert(cur.take(last as int) =~= t@.take(last as int));
        }
        if k == 0 {
            proof {
                assert(t@.take(0).len() == 0);
                assert(spec_last_tick_pair(cur) is None);
            }
            return None;
        }
        let prev = k - 1;
        proof {
            assert(t@.take(k as int)[k - 1] == t@[k - 1]);
            assert(spec_rfind(t@.take(last as int), '`') == Some(prev as int));
        }
        if prev + 1 < last {
            let name = crate::text::sub_vec(t, prev + 1, last);
            proof {
                assert(cur.subrange(prev + 1int, last as int) =~= t@.subrange(
                    prev + 1int,
                    last as int,
                ));
                assert(spec_last_tick_pair(cur) == Some(name@));
            }
            return Some(name);
        }
        proof {
            assert(spec_last_tick_pair(cur) == spec_last_tick_pair(t@.take(last as int)));
        }
        end = last;
    }
}

/// Finds the error marker's named table in a line.
pub fn error_match(s: &Vec<char>) -> (r: Option<Vec<char>>)
    ensures
        match (r, spec_error_match(s@)) {
            (Some(name), Some(sname)) => name@ == sname,
            (None, None) => true,
            _ => false,
        },
{
    let pat_error = crate::text::str_to_chars("ERROR");
    let n = s.len();
    match crate::text::find_sub(s, &pat_error) {
        Some(e) => {
            proof {
                assert(e + pat_error@.len() <= n);
            }
            let tail = crate::text::sub_vec(s, e + pat_error.len(), n);
            proof {
                assert(tail@ =~= s@.skip(e + "ERROR"@.len()));
            }
            last_tick_pair(&tail)
        },
        None => None,
    }
}

/// Whether the text carries the overall end-of-dump marker.
pub fn finished_match(s: &Vec<char>) -> (r: bool)
    ensures
        r == spec_finished(s@),
{
    let pat = crate::text::str_to_chars("Finished dump at:");
    match crate::text::find_sub(s, &pat) {
        Some(_) => true,
        None => false,
    }
}

/// A line with a trailing carriage return has it stripped.
pub open spec fn spec_strip_cr(l: Seq<char>) -> Seq<char> {
    if l.len() > 0 && l[l.len() - 1] == '\r' {
        l.drop_last()
    } else {
        l
    }
}

/// The lines of a log text: split at newlines, trailing carriage
/// returns stripped, no entry for a trailing newline.
pub open spec fn spec_log_lines(s: Seq<char>) -> Seq<Seq<char>>
    decreases s.len(),
    via spec_log_lines_decreases
{
    if s.len() == 0 {
        Seq::empty()
    } else {
        match crate::text::spec_find_char(s, '\n') {
            Some(i) => seq![spec_strip_cr(s.take(i))] + spec_log_lines(s.skip(i + 1)),
            None => seq![spec_strip_cr(s)],
        }
    }
}

#[via_fn]
proof fn spec_log_lines_decreases(s: Seq<char>) {
    crate::text::lemma_find_char_first(s, '\n');
}

/// Splits a log text into its lines.
pub fn split_log_lines(s: &Vec<char>) -> (r: Vec<Vec<char>>)
    ensures
        r.deep_view() == spec_log_lines(s@),
{
    let n = s.len();
    let mut r: Vec<Vec<char>> = Vec::new();
    let mut pos: usize = 0;
    proof {
        assert(s@.skip(0) =~= s@);
        assert(r.deep_view() =~~= Seq::<Seq<char>>::empty());
    }
    while pos < n
        invariant
            pos <= n,
            n == s@.len(),
            spec_log_lines(s@) =~~= r.deep_view() + spec_log_lines(s@.skip(pos as int)),
        decreases n - pos,
    {
        let ghost entry_deep = r.deep_view();
        let ghost rest = s@.skip(pos as int);
        let mut j = pos;
        while j < n && s[j] != '\n'
            invariant
                pos <= j <= n,
                n == s@.len(),
                forall|k: int| pos <= k < j ==> s@[k] != '\n',
            decreases n - j,
        {
            j = j + 1;
        }
        proof {
            crate::text::lemma_find_char_first(rest, '\n');
            assert forall|m: int| 0 <= m < rest.len() implies rest[m] == s@[pos + m] by {}
            if j < n {
                assert(rest[j - pos] == '\n');
                match crate::text::spec_find_char(rest, '\n') {
                    Some(b) => {
                        if b < j - pos {
                            assert(s@[pos + b] != '\n');
                        }
                        if b > j - pos {
                            assert(rest[j - pos] != '\n');
                        }
                        assert(b == j - pos);
                    },
                    None => {
                        assert(rest[j - pos] != '\n');
                    },
                }
            } else {
                match crate::text::spec_find_char(rest, '\n') {
                    Some(b) => {
                        assert(s@[pos + b] != '\n');
                    },
                    None => {},
                }
            }
        }
        let mut line_end = j;
        if line_end > pos && s[line_end - 1] == '\r' {
            line_end = line_end - 1;
        }
        let line = crate::text::sub_vec(s, pos, line_end);
        proof {
            let raw = s@.subrange(pos as int, j as int);
            assert(raw =~= rest.take(j - pos));
            if j > pos && s@[j - 1] == '\r' {
                assert(line@ =~= raw.drop_last());
            }
            assert(line@ == spec_strip_cr(raw));
        }
        let ghost lv = line@;
        r.push(line);
        proof {
            assert(r.deep_view() =~~= entry_deep + seq![lv]);
            if j < n {
                assert(rest.take(j - pos) =~= s@.subrange(pos as int, j as int));
                assert(rest.skip(j - pos + 1) =~= s@.skip(j + 1));
                assert(spec_log_lines(rest) == seq![spec_strip_cr(rest.take(j - pos))]
                    + spec_log_lines(rest.skip(j - pos + 1)));
                assert(spec_log_lines(s@) =~~= r.deep_view() + spec_log_lines(s@.skip(j + 1)));
            } else {
                assert(rest =~= s@.subrange(pos as int, j as int));
                assert(spec_log_lines(rest) == seq![spec_strip_cr(rest)]);
                assert(s@.skip(n as int).len() == 0);
                assert(spec_log_lines(s@) =~~= r.deep_view() + spec_log_lines(s@.skip(n as int)));
            }
        }
        if j < n {
            pos = j + 1;
        } else {
            pos = n;
        }
    }
    proof {
        assert(s@.skip(n as int).len() == 0);
        assert(spec_log_lines(s@) =~~= r.deep_view());
    }
    r
}

} // verus!
