//! The schedule evaluator: a five-field cron-style expression is parsed
//! into a closed set of supported patterns, and the next trigger instant
//! is computed from a Unix timestamp by plain calendar arithmetic on
//! whole UTC days, hours and minutes.

use vstd::prelude::*;
use crate::text::{spec_is_digit, spec_digit_val, is_digit, digit_val};

verus! {

/// Instants are Unix seconds strictly before year 10000, so every
/// computation below stays far from the integer limits.
pub open spec fn valid_instant(now: u64) -> bool {
    now < 253402300800
}

pub const SECS_PER_MINUTE: u64 = 60;

pub const SECS_PER_HOUR: u64 = 3600;

pub const SECS_PER_DAY: u64 = 86400;

pub const SECS_PER_WEEK: u64 = 604800;

/// The supported schedule patterns, one per accepted expression shape.
#[derive(Clone, Copy, Debug, PartialEq, Eq, Structural)]
pub enum CronPattern {
    /// `* * * * *`: one minute from now.
    EveryMinute,
    /// `0 * * * *`: the next whole hour.
    TopOfHour,
    /// `M H * * *` (covers `0 0 * * *`): the next occurrence of H:M UTC.
    DailyAt { minute: u8, hour: u8 },
    /// `0 0 * * D`: midnight of the next weekday D, 0 being Sunday.
    WeeklyAt { weekday: u8 },
    /// `*/N * * * *`: N minutes from now.
    EveryNMinutes { n: u32 },
    /// `0 */N * * *`: N hours from now.
    EveryNHours { n: u32 },
}

/// Why an expression was rejected at validation time.
#[derive(Clone, Copy, Debug, PartialEq, Eq, Structural)]
pub enum ScheduleError {
    /// The expression does not have exactly five whitespace-separated fields.
    WrongFieldCount { found: usize },
    /// The five fields do not form one of the supported patterns.
    Unsupported,
}

// ---------------------------------------------------------------------------
// Tokenizing: an expression splits into maximal runs of non-whitespace.
// ---------------------------------------------------------------------------
pub open spec fn spec_is_space(c: char) -> bool {
    c == ' ' || c == '\t' || c == '\n' || c == '\r'
}

/// Length of the leading run of non-whitespace characters.
pub open spec fn spec_word_len(s: Seq<char>) -> int
    decreases s.len(),
{
    if s.len() == 0 || spec_is_space(s[0]) {
        0
    } else {
        1 + spec_word_len(s.skip(1))
    }
}

pub proof fn lemma_word_len_bounds(s: Seq<char>)
    ensures
        0 <= spec_word_len(s) <= s.len(),
    decreases s.len(),
{
    if s.len() == 0 || spec_is_space(s[0]) {
    } else {
        lemma_word_len_bounds(s.skip(1));
    }
}

/// The whitespace-separated fields of an expression, in order.
pub open spec fn spec_fields(s: Seq<char>) -> Seq<Seq<char>>
    decreases s.len(),
    via spec_fields_decreases
{
    if s.len() == 0 {
        Seq::empty()
    } else if spec_is_space(s[0]) {
        spec_fields(s.skip(1))
    } else {
        let w = spec_word_len(s);
        seq![s.take(w)] + spec_fields(s.skip(w))
    }
}

#[via_fn]
proof fn spec_fields_decreases(s: Seq<char>) {
    if s.len() > 0 && !spec_is_space(s[0]) {
        lemma_word_len_bounds(s);
        lemma_word_len_bounds(s.skip(1));
    }
}

pub fn is_space(c: char) -> (r: bool)
    ensures
        r == spec_is_space(c),
{
    c == ' ' || c == '\t' || c == '\n' || c == '\r'
}

/// Splits the characters of an expression into its fields.
pub fn split_fields(chars: &Vec<char>) -> (r: Vec<Vec<char>>)
    ensures
        r.deep_view() == spec_fields(chars@),
{
    let n = chars.len();
    let mut r: Vec<Vec<char>> = Vec::new();
    let mut i: usize = 0;
    proof {
        assert(chars@.skip(0) =~= chars@);
        assert(r.deep_view() =~~= Seq::<Seq<char>>::empty());
    }
    while i < n
        invariant
            i <= n,
            n == chars@.len(),
            spec_fields(chars@) =~~= r.deep_view() + spec_fields(chars@.skip(i as int)),
        decreases n - i,
    {
        let ghost entry_deep = r.deep_view();
        if is_space(chars[i]) {
            proof {
                assert(chars@.skip(i as int)[0] == chars@[i as int]);
                assert(chars@.skip(i as int).skip(1) =~= chars@.skip(i + 1));
                assert(spec_fields(chars@.skip(i as int)) == spec_fields(chars@.skip(i + 1)));
            }
            i = i + 1;
        } else {
            let start = i;
            let mut j = i;
            while j < n
                invariant
                    start <= j <= n,
                    n == chars@.len(),
                    spec_word_len(chars@.skip(start as int)) == (j - start) + spec_word_len(
                        chars@.skip(j as int),
                    ),
                ensures
                    start <= j <= n,
                    spec_word_len(chars@.skip(start as int)) == j - start,
                decreases n - j,
            {
                if is_space(chars[j]) {
                    proof {
                        assert(chars@.skip(j as int)[0] == chars@[j as int]);
                    }
                    break;
                }
                proof {
                    assert(chars@.skip(j as int)[0] == chars@[j as int]);
                    assert(chars@.skip(j as int).skip(1) =~= chars@.skip(j + 1));
                }
                j = j + 1;
            }
            let mut word: Vec<char> = Vec::new();
            let mut k = start;
            while k < j
                invariant
                    start <= k <= j <= n,
                    n == chars@.len(),
                    word@ == chars@.subrange(start as int, k as int),
                decreases j - k,
            {
                word.push(chars[k]);
                k = k + 1;
                proof {
                    assert(word@ =~= chars@.subrange(start as int, k as int));
                }
            }
            proof {
                let tail = chars@.skip(start as int);
                assert(tail.len() > 0 && !spec_is_space(tail[0])) by {
                    assert(tail[0] == chars@[start as int]);
                }
                assert(tail.take(j - start) =~= chars@.subrange(start as int, j as int));
                assert(tail.skip(j - start) =~= chars@.skip(j as int));
                assert(spec_fields(tail) == seq![word@] + spec_fields(chars@.skip(j as int)));
            }
            let ghost wv = word@;
            r.push(word);
            proof {
                assert(r.deep_view() =~~= entry_deep + seq![wv]);
                assert(spec_fields(chars@) =~~= r.deep_view() + spec_fields(
                    chars@.skip(j as int),
                ));
            }
            i = j;
        }
    }
    proof {
        assert(chars@.skip(n as int).len() == 0);
        assert(spec_fields(chars@.skip(n as int)) =~~= Seq::<Seq<char>>::empty());
        assert(spec_fields(chars@) =~~= r.deep_view());
    }
    r
}

// ---------------------------------------------------------------------------
// Numeric fields.
// ---------------------------------------------------------------------------
pub open spec fn spec_all_digits(t: Seq<char>) -> bool {
    t.len() >= 1 && forall|i: int| 0 <= i < t.len() ==> spec_is_digit(#[trigger] t[i])
}

/// The value of a digit string, most significant digit first.
pub open spec fn spec_digits_val(t: Seq<char>) -> int
    decreases t.len(),
{
    if t.len() == 0 {
        0
    } else {
        spec_digits_val(t.take(t.len() - 1)) * 10 + spec_digit_val(t[t.len() - 1])
    }
}

/// A field read as a number, if it is all digits and fits in a `u32`.
pub open spec fn spec_field_num(t: Seq<char>) -> Option<u32> {
    if spec_all_digits(t) && spec_digits_val(t) <= u32::MAX {
        Some(spec_digits_val(t) as u32)
    } else {
        None
    }
}

pub proof fn lemma_digits_val_nonneg(t: Seq<char>)
    ensures
        spec_digits_val(t) >= 0,
    decreases t.len(),
{
    if t.len() > 0 {
        lemma_digits_val_nonneg(t.take(t.len() - 1));
        assert(spec_digits_val(t.take(t.len() - 1)) * 10 >= 0) by (nonlinear_arith)
            requires
                spec_digits_val(t.take(t.len() - 1)) >= 0,
        ;
    }
}

/// Reads a field as a number, rejecting non-digit text and values
/// over `u32::MAX`.
pub fn parse_field_num(t: &Vec<char>) -> (r: Option<u32>)
    ensures
        r == spec_field_num(t@),
{
    if t.len() == 0 {
        return None;
    }
    let mut acc: u64 = 0;
    let cap: u64 = u32::MAX as u64;
    let mut i: usize = 0;
    proof {
        assert(t@.take(0) =~= Seq::<char>::empty());
    }
    while i < t.len()
        invariant
            i <= t@.len(),
            cap == u32::MAX,
            forall|k: int| 0 <= k < i ==> spec_is_digit(#[trigger] t@[k]),
            acc <= cap + 1,
            spec_digits_val(t@.take(i as int)) <= cap ==> acc == spec_digits_val(
                t@.take(i as int),
            ),
            spec_digits_val(t@.take(i as int)) > cap ==> acc == cap + 1,
        decreases t@.len() - i,
    {
        let c = t[i];
        if !is_digit(c) {
            proof {
                assert(!spec_is_digit(t@[i as int]));
                assert(!spec_all_digits(t@));
            }
            return None;
        }
        let d = digit_val(c);
        let ghost pre = t@.take(i as int);
        let ghost cur = t@.take(i + 1);
        let ghost preval = spec_digits_val(pre);
        let ghost curval = spec_digits_val(cur);
        proof {
            assert(cur.take(cur.len() - 1) =~= pre);
            assert(cur[cur.len() - 1] == t@[i as int]);
            assert(curval == preval * 10 + spec_digit_val(t@[i as int]));
            lemma_digits_val_nonneg(pre);
            assert(preval * 10 >= preval) by (nonlinear_arith)
                requires
                    preval >= 0,
            ;
        }
        if acc > cap {
            proof {
                assert(curval >= preval);
            }
        } else {
            acc = acc * 10 + (d as u64);
            if acc > cap {
                acc = cap + 1;
            }
        }
        i = i + 1;
    }
    proof {
        assert(t@.take(t@.len() as int) =~= t@);
        lemma_digits_val_nonneg(t@);
        assert(spec_all_digits(t@));
    }
    if acc > cap {
        None
    } else {
        Some(acc as u32)
    }
}

// ---------------------------------------------------------------------------
// The expression grammar.
// ---------------------------------------------------------------------------
/// A literal `*` field.
pub open spec fn spec_star(t: Seq<char>) -> bool {
    t == seq!['*']
}

/// A literal `0` field.
pub open spec fn spec_zero(t: Seq<char>) -> bool {
    t == seq!['0']
}

/// An `*/N` field: its number, if it has that shape.
pub open spec fn spec_step_num(t: Seq<char>) -> Option<u32> {
    if t.len() >= 3 && t[0] == '*' && t[1] == '/' {
        spec_field_num(t.skip(2))
    } else {
        None
    }
}

/// What an expression means: the supported pattern it denotes, or the
/// error it is rejected with.  Interval steps of zero are rejected,
/// since a schedule must always advance.
pub open spec fn spec_parse_cron(s: Seq<char>) -> Result<CronPattern, ScheduleError> {
    let f = spec_fields(s);
    if f.len() != 5 {
        Err(ScheduleError::WrongFieldCount { found: f.len() as usize })
    } else if spec_star(f[0]) && spec_star(f[1]) && spec_star(f[2]) && spec_star(f[3]) && spec_star(
        f[4],
    ) {
        Ok(CronPattern::EveryMinute)
    } else if spec_zero(f[0]) && spec_star(f[1]) && spec_star(f[2]) && spec_star(f[3]) && spec_star(
        f[4],
    ) {
        Ok(CronPattern::TopOfHour)
    } else if spec_zero(f[0]) && spec_zero(f[1]) && spec_star(f[2]) && spec_star(f[3])
        && spec_field_num(f[4]) is Some && spec_field_num(f[4]).unwrap() <= 6 {
        Ok(CronPattern::WeeklyAt { weekday: spec_field_num(f[4]).unwrap() as u8 })
    } else if spec_star(f[2]) && spec_star(f[3]) && spec_star(f[4]) && spec_field_num(f[0]) is Some
        && spec_field_num(f[0]).unwrap() <= 59 && spec_field_num(f[1]) is Some && spec_field_num(
        f[1],
    ).unwrap() <= 23 {
        Ok(
            CronPattern::DailyAt {
                minute: spec_field_num(f[0]).unwrap() as u8,
                hour: spec_field_num(f[1]).unwrap() as u8,
            },
        )
    } else if spec_step_num(f[0]) is Some && spec_step_num(f[0]).unwrap() >= 1 && spec_star(f[1])
        && spec_star(f[2]) && spec_star(f[3]) && spec_star(f[4]) {
        Ok(CronPattern::EveryNMinutes { n: spec_step_num(f[0]).unwrap() })
    } else if spec_zero(f[0]) && spec_step_num(f[1]) is Some && spec_step_num(f[1]).unwrap() >= 1
        && spec_star(f[2]) && spec_star(f[3]) && spec_star(f[4]) {
        Ok(CronPattern::EveryNHours { n: spec_step_num(f[1]).unwrap() })
    } else {
        Err(ScheduleError::Unsupported)
    }
}

fn is_star(t: &Vec<char>) -> (r: bool)
    ensures
        r == spec_star(t@),
{
    let r = t.len() == 1 && t[0] == '*';
    proof {
        if r {
            assert(t@ =~= seq!['*']);
        } else if t@.len() == 1 {
            assert(t@[0] != '*' ==> t@ != seq!['*']);
        } else {
            assert(t@.len() != seq!['*'].len());
        }
    }
    r
}

fn is_zero(t: &Vec<char>) -> (r: bool)
    ensures
        r == spec_zero(t@),
{
    let r = t.len() == 1 && t[0] == '0';
    proof {
        if r {
            assert(t@ =~= seq!['0']);
        } else if t@.len() == 1 {
            assert(t@[0] != '0' ==> t@ != seq!['0']);
        } else {
            assert(t@.len() != seq!['0'].len());
        }
    }
    r
}

fn parse_step_num(t: &Vec<char>) -> (r: Option<u32>)
    ensures
        r == spec_step_num(t@),
{
    if t.len() >= 3 && t[0] == '*' && t[1] == '/' {
        let mut rest: Vec<char> = Vec::new();
        let mut i: usize = 2;
        while i < t.len()
            invariant
                2 <= i <= t@.len(),
                rest@ == t@.subrange(2, i as int),
            decreases t@.len() - i,
        {
            rest.push(t[i]);
            i = i + 1;
            proof {
                assert(rest@ =~= t@.subrange(2, i as int));
            }
        }
        proof {
            assert(rest@ =~= t@.skip(2));
        }
        parse_field_num(&rest)
    } else {
        None
    }
}

/// Parses a five-field expression into its pattern, or reports exactly
/// why it is rejected.
pub fn parse_cron(s: &str) -> (r: Result<CronPattern, ScheduleError>)
    ensures
        r == spec_parse_cron(s@),
{
    let chars = crate::text::str_to_chars(s);
    let fields = split_fields(&chars);
    proof {
        assert(fields.deep_view().len() == fields@.len());
    }
    if fields.len() != 5 {
        return Err(ScheduleError::WrongFieldCount { found: fields.len() });
    }
    proof {
        assert forall|i: int| 0 <= i < 5 implies fields@[i]@ == spec_fields(s@)[i] by {
            assert(fields.deep_view()[i] == fields@[i]@);
        }
    }
    let star0 = is_star(&fields[0]);
    let star1 = is_star(&fields[1]);
    let star2 = is_star(&fields[2]);
    let star3 = is_star(&fields[3]);
    let star4 = is_star(&fields[4]);
    let zero0 = is_zero(&fields[0]);
    let zero1 = is_zero(&fields[1]);
    if star0 && star1 && star2 && star3 && star4 {
        return Ok(CronPattern::EveryMinute);
    }
    if zero0 && star1 && star2 && star3 && star4 {
        return Ok(CronPattern::TopOfHour);
    }
    if zero0 && zero1 && star2 && star3 {
        if let Some(w) = parse_field_num(&fields[4]) {
            if w <= 6 {
                return Ok(CronPattern::WeeklyAt { weekday: w as u8 });
            }
        }
    }
    if star2 && star3 && star4 {
        if let Some(m) = parse_field_num(&fields[0]) {
            if m <= 59 {
                if let Some(h) = parse_field_num(&fields[1]) {
                    if h <= 23 {
                        return Ok(CronPattern::DailyAt { minute: m as u8, hour: h as u8 });
                    }
                }
            }
        }
    }
    if star1 && star2 && star3 && star4 {
        if let Some(n) = parse_step_num(&fields[0]) {
            if n >= 1 {
                return Ok(CronPattern::EveryNMinutes { n });
            }
        }
    }
    if zero0 && star2 && star3 && star4 {
        if let Some(n) = parse_step_num(&fields[1]) {
            if n >= 1 {
                return Ok(CronPattern::EveryNHours { n });
            }
        }
    }
    Err(ScheduleError::Unsupported)
}

// ---------------------------------------------------------------------------
// Evaluation: the next trigger instant strictly after `now`.
// ---------------------------------------------------------------------------
/// The first instant of the UTC day containing `t`.
pub open spec fn spec_day_start(t: int) -> int {
    (t / 86400) * 86400
}

/// The day of week of the UTC day containing `t`, 0 being Sunday.
/// The Unix epoch fell on a Thursday.
pub open spec fn spec_day_of_week(t: int) -> int {
    ((t / 86400) + 4) % 7
}

/// The next trigger instant of a pattern, strictly after `now`.
pub open spec fn spec_next(p: CronPattern, now: int) -> int {
    match p {
        CronPattern::EveryMinute => now + 60,
        CronPattern::TopOfHour => ((now + 3600) / 3600) * 3600,
        CronPattern::DailyAt { minute, hour } => {
            let cand = spec_day_start(now) + hour * 3600 + minute * 60;
            if cand > now {
                cand
            } else {
                cand + 86400
            }
        },
        CronPattern::WeeklyAt { weekday } => {
            let ahead = (weekday + 7 - spec_day_of_week(now)) % 7;
            let days = if ahead == 0 {
                7
            } else {
                ahead
            };
            spec_day_start(now) + days * 86400
        },
        CronPattern::EveryNMinutes { n } => now + n * 60,
        CronPattern::EveryNHours { n } => now + n * 3600,
    }
}

/// A parsed pattern never carries an out-of-range field or a zero step.
pub open spec fn pattern_wf(p: CronPattern) -> bool {
    match p {
        CronPattern::EveryMinute => true,
        CronPattern::TopOfHour => true,
        CronPattern::DailyAt { minute, hour } => minute <= 59 && hour <= 23,
        CronPattern::WeeklyAt { weekday } => weekday <= 6,
        CronPattern::EveryNMinutes { n } => n >= 1,
        CronPattern::EveryNHours { n } => n >= 1,
    }
}

pub proof fn lemma_parse_patterns_wf(s: Seq<char>)
    ensures
        spec_parse_cron(s) is Ok ==> pattern_wf(spec_parse_cron(s).unwrap()),
{
}

/// The scheduler never runs before the instant it computed, so every next
/// instant is strictly later than the instant it was computed from.
pub proof fn lemma_next_strictly_after(p: CronPattern, now: int)
    requires
        pattern_wf(p),
        0 <= now,
    ensures
        spec_next(p, now) > now,
{
    vstd::arithmetic::div_mod::lemma_fundamental_div_mod(now + 3600, 3600);
    vstd::arithmetic::div_mod::lemma_fundamental_div_mod(now, 86400);
    match p {
        CronPattern::WeeklyAt { weekday } => {
            let ahead = (weekday + 7 - spec_day_of_week(now)) % 7;
            vstd::arithmetic::div_mod::lemma_mod_bound(
                weekday + 7 - spec_day_of_week(now),
                7,
            );
            vstd::arithmetic::div_mod::lemma_mod_bound((now / 86400) + 4, 7);
        },
        CronPattern::EveryNMinutes { n } => {
            assert(n * 60 >= 60) by (nonlinear_arith)
                requires
                    n >= 1,
            ;
        },
        CronPattern::EveryNHours { n } => {
            assert(n * 3600 >= 3600) by (nonlinear_arith)
                requires
                    n >= 1,
            ;
        },
        _ => {},
    }
}

/// Evaluating again from a computed trigger instant advances by exactly
/// the pattern's period: a minute, an hour, a day, a week, or the
/// configured step.
pub open spec fn spec_period(p: CronPattern) -> int {
    match p {
        CronPattern::EveryMinute => 60,
        CronPattern::TopOfHour => 3600,
        CronPattern::DailyAt { minute, hour } => 86400,
        CronPattern::WeeklyAt { weekday } => 604800,
        CronPattern::EveryNMinutes { n } => n * 60,
        CronPattern::EveryNHours { n } => n * 3600,
    }
}

/// Re-evaluating from a computed trigger instant advances by exactly
/// one period.
pub proof fn lemma_next_periodic(p: CronPattern, now: int)
    requires
        pattern_wf(p),
        0 <= now,
    ensures
        spec_next(p, spec_next(p, now)) == spec_next(p, now) + spec_period(p),
{
    let next1 = spec_next(p, now);
    lemma_next_strictly_after(p, now);
    match p {
        CronPattern::EveryMinute => {},
        CronPattern::TopOfHour => {
            let q = (now + 3600) / 3600;
            vstd::arithmetic::div_mod::lemma_fundamental_div_mod(now + 3600, 3600);
            assert(next1 == 3600 * q) by (nonlinear_arith)
                requires
                    next1 == q * 3600,
            ;
            vstd::arithmetic::div_mod::lemma_fundamental_div_mod_converse(
                next1 + 3600,
                3600,
                q + 1,
                0,
            );
            assert(spec_next(p, next1) == (q + 1) * 3600) by (nonlinear_arith)
                requires
                    (next1 + 3600) / 3600 == q + 1,
                    spec_next(p, next1) == ((next1 + 3600) / 3600) * 3600,
            ;
            assert((q + 1) * 3600 == q * 3600 + 3600) by (nonlinear_arith);
        },
        CronPattern::DailyAt { minute, hour } => {
            let off = hour * 3600 + minute * 60;
            let k = now / 86400;
            vstd::arithmetic::div_mod::lemma_fundamental_div_mod(now, 86400);
            assert(0 <= off <= 23 * 3600 + 59 * 60) by (nonlinear_arith)
                requires
                    0 <= hour <= 23,
                    0 <= minute <= 59,
                    off == hour * 3600 + minute * 60,
            ;
            let kn = if spec_day_start(now) + off > now {
                k
            } else {
                k + 1
            };
            assert(spec_day_start(now) == 86400 * k) by (nonlinear_arith)
                requires
                    spec_day_start(now) == k * 86400,
            ;
            assert(next1 == 86400 * kn + off) by (nonlinear_arith)
                requires
                    kn == k || kn == k + 1,
                    next1 == 86400 * k + off + (if kn == k {
                        0int
                    } else {
                        86400int
                    }),
            ;
            vstd::arithmetic::div_mod::lemma_fundamental_div_mod_converse(
                next1,
                86400,
                kn,
                off,
            );
            assert(spec_day_start(next1) == 86400 * kn) by (nonlinear_arith)
                requires
                    next1 / 86400 == kn,
                    spec_day_start(next1) == (next1 / 86400) * 86400,
            ;
            assert(spec_day_start(next1) + off == next1);
            assert(spec_next(p, next1) == next1 + 86400);
        },
        CronPattern::WeeklyAt { weekday } => {
            let k = now / 86400;
            let dow = spec_day_of_week(now);
            let ahead = (weekday + 7 - dow) % 7;
            let days = if ahead == 0 {
                7int
            } else {
                ahead
            };
            vstd::arithmetic::div_mod::lemma_fundamental_div_mod(now, 86400);
            vstd::arithmetic::div_mod::lemma_mod_bound((k + 4), 7);
            vstd::arithmetic::div_mod::lemma_mod_bound(weekday + 7 - dow, 7);
            assert(spec_day_start(now) == 86400 * k) by (nonlinear_arith)
                requires
                    spec_day_start(now) == k * 86400,
            ;
            assert(next1 == 86400 * (k + days)) by (nonlinear_arith)
                requires
                    next1 == 86400 * k + days * 86400,
            ;
            vstd::arithmetic::div_mod::lemma_fundamental_div_mod_converse(
                next1,
                86400,
                k + days,
                0,
            );
            assert(spec_day_start(next1) == 86400 * (k + days)) by (nonlinear_arith)
                requires
                    next1 / 86400 == k + days,
                    spec_day_start(next1) == (next1 / 86400) * 86400,
            ;
            // The next instant falls exactly on weekday `weekday`.
            let dow1 = spec_day_of_week(next1);
            assert(dow1 == ((k + 4) + days) % 7) by {
                assert(next1 / 86400 == k + days);
            }
            vstd::arithmetic::div_mod::lemma_add_mod_noop(k + 4, days, 7);
            assert(days % 7 == ahead) by {
                if ahead == 0 {
                    vstd::arithmetic::div_mod::lemma_mod_self_0(7);
                } else {
                    vstd::arithmetic::div_mod::lemma_small_mod(ahead as nat, 7);
                }
            }
            vstd::arithmetic::div_mod::lemma_add_mod_noop(dow, ahead, 7);
            assert((dow + ahead) % 7 == (dow + (weekday + 7 - dow) % 7) % 7);
            vstd::arithmetic::div_mod::lemma_add_mod_noop_right(dow, weekday + 7 - dow, 7);
            assert((dow + (weekday + 7 - dow)) % 7 == (weekday + 7) % 7);
            vstd::arithmetic::div_mod::lemma_mod_add_multiples_vanish(weekday as int, 7);
            vstd::arithmetic::div_mod::lemma_small_mod(weekday as nat, 7);
            assert(dow1 == weekday);
            // So the ahead-count from it is zero, and a full week is added.
            assert((weekday + 7 - dow1) % 7 == 0) by {
                vstd::arithmetic::div_mod::lemma_mod_self_0(7);
            }
            assert(spec_next(p, next1) == spec_day_start(next1) + 7 * 86400);
        },
        CronPattern::EveryNMinutes { n } => {},
        CronPattern::EveryNHours { n } => {},
    }
}

/// Computes the next trigger instant of a pattern, strictly after `now`.
pub fn next_after(p: &CronPattern, now: u64) -> (r: u64)
    requires
        valid_instant(now),
        pattern_wf(*p),
    ensures
        r == spec_next(*p, now as int),
        r > now,
{
    proof {
        lemma_next_strictly_after(*p, now as int);
        vstd::arithmetic::div_mod::lemma_fundamental_div_mod(now + 3600, 3600);
        vstd::arithmetic::div_mod::lemma_fundamental_div_mod(now as int, 86400);
        vstd::arithmetic::div_mod::lemma_mod_bound((now as int / 86400) + 4, 7);
    }
    match p {
        CronPattern::EveryMinute => now + 60,
        CronPattern::TopOfHour => ((now + 3600) / 3600) * 3600,
        CronPattern::DailyAt { minute, hour } => {
            let day = (now / 86400) * 86400;
            let cand = day + (*hour as u64) * 3600 + (*minute as u64) * 60;
            if cand > now {
                cand
            } else {
                cand + 86400
            }
        },
        CronPattern::WeeklyAt { weekday } => {
            let day = (now / 86400) * 86400;
            let dow = ((now / 86400) + 4) % 7;
            let ahead = ((*weekday as u64) + 7 - dow) % 7;
            proof {
                vstd::arithmetic::div_mod::lemma_mod_bound(
                    (*weekday as int) + 7 - ((now as int / 86400) + 4) % 7,
                    7,
                );
            }
            let days: u64 = if ahead == 0 {
                7
            } else {
                ahead
            };
            day + days * 86400
        },
        CronPattern::EveryNMinutes { n } => now + (*n as u64) * 60,
        CronPattern::EveryNHours { n } => now + (*n as u64) * 3600,
    }
}

} // verus!
