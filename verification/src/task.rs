//! Recurring backup definitions.  A task owns a schedule expression, a
//! compression choice and a retention window; the scheduler keeps its
//! `last_run` / `next_run` bookkeeping in step with the schedule evaluator.

use vstd::prelude::*;
use crate::schedule::{
    spec_parse_cron, spec_next, parse_cron, next_after, valid_instant, pattern_wf,
    lemma_parse_patterns_wf, ScheduleError,
};

verus! {

/// How a finished backup archive is compressed.
#[derive(Clone, Copy, Debug, PartialEq, Eq, Structural)]
pub enum CompressionType {
    NoCompression,
    Gzip,
    Zstd,
}

impl Default for CompressionType {
    /// Archives are gzip-compressed unless a task chooses otherwise.
    fn default() -> (r: Self)
        ensures
            r == CompressionType::Gzip,
    {
        CompressionType::Gzip
    }
}

/// The persisted label of a compression choice.
pub open spec fn spec_compression_label(c: CompressionType) -> Seq<char> {
    match c {
        CompressionType::NoCompression => "none"@,
        CompressionType::Gzip => "gzip"@,
        CompressionType::Zstd => "zstd"@,
    }
}

impl CompressionType {
    /// The label written at the persistence edge: `none`, `gzip` or `zstd`.
    pub fn label(&self) -> (s: String)
        ensures
            s@ == spec_compression_label(*self),
    {
        match self {
            CompressionType::NoCompression => "none".to_owned(),
            CompressionType::Gzip => "gzip".to_owned(),
            CompressionType::Zstd => "zstd".to_owned(),
        }
    }
}

/// An ASCII letter folded to lower case; other characters unchanged.
pub open spec fn spec_ascii_lower(c: char) -> char {
    if 'A' <= c && c <= 'Z' {
        ((c as u32) + 32) as char
    } else {
        c
    }
}

pub open spec fn spec_lower(s: Seq<char>) -> Seq<char> {
    s.map(|i: int, c: char| spec_ascii_lower(c))
}

fn ascii_lower(c: char) -> (r: char)
    ensures
        r == spec_ascii_lower(c),
{
    if 'A' <= c && c <= 'Z' {
        (((c as u32) + 32) as u8) as char
    } else {
        c
    }
}

/// The compression choice a label denotes, folding ASCII case, or
/// nothing for an unknown label.
pub open spec fn spec_parse_compression(s: Seq<char>) -> Option<CompressionType> {
    let l = spec_lower(s);
    if l == "none"@ {
        Some(CompressionType::NoCompression)
    } else if l == "gzip"@ {
        Some(CompressionType::Gzip)
    } else if l == "zstd"@ {
        Some(CompressionType::Zstd)
    } else {
        None
    }
}

/// A string with its ASCII letters folded to lower case.
pub fn lower_string(s: &str) -> (r: String)
    ensures
        r@ == spec_lower(s@),
{
    let chars = crate::text::str_to_chars(s);
    let mut lowered: Vec<char> = Vec::new();
    let mut i: usize = 0;
    while i < chars.len()
        invariant
            i <= chars@.len(),
            chars@ == s@,
            lowered@ == spec_lower(s@.subrange(0, i as int)),
        decreases chars@.len() - i,
    {
        lowered.push(ascii_lower(chars[i]));
        i = i + 1;
        proof {
            assert(lowered@ =~= spec_lower(s@.subrange(0, i as int)));
        }
    }
    proof {
        assert(s@.subrange(0, s@.len() as int) =~= s@);
    }
    crate::foreign::chars_to_string(&lowered)
}

/// Reads a persisted compression label back into its choice.
pub fn parse_compression(s: &str) -> (r: Option<CompressionType>)
    ensures
        r == spec_parse_compression(s@),
{
    let l = lower_string(s);
    let none_l: String = "none".to_owned();
    let gzip_l: String = "gzip".to_owned();
    let zstd_l: String = "zstd".to_owned();
    if l == none_l {
        Some(CompressionType::NoCompression)
    } else if l == gzip_l {
        Some(CompressionType::Gzip)
    } else if l == zstd_l {
        Some(CompressionType::Zstd)
    } else {
        None
    }
}

/// A recurring backup definition.
#[derive(Debug, Clone)]
pub struct Task {
    pub id: String,
    pub name: String,
    pub database_config_id: String,
    /// Overrides the configuration's default database when present.
    pub database_name: Option<String>,
    pub cron_schedule: String,
    pub compression_type: CompressionType,
    /// Backups older than this many days are removed; zero disables cleanup.
    pub cleanup_days: i32,
    pub use_non_transactional: bool,
    pub is_active: bool,
    pub last_run: Option<u64>,
    pub next_run: Option<u64>,
    pub created_at: u64,
    pub updated_at: u64,
}

pub struct CreateTaskRequest {
    pub name: String,
    pub database_config_id: String,
    pub cron_schedule: String,
    pub compression_type: Option<CompressionType>,
    pub cleanup_days: Option<i32>,
    pub use_non_transactional: Option<bool>,
}

pub struct UpdateTaskRequest {
    pub name: Option<String>,
    pub cron_schedule: Option<String>,
    pub compression_type: Option<CompressionType>,
    pub cleanup_days: Option<i32>,
    pub use_non_transactional: Option<bool>,
    pub is_active: Option<bool>,
}

/// What the schedule evaluator answers for a task at an instant: nothing
/// for an inactive task, the next trigger instant for an active one, or
/// the validation error of its expression.
pub open spec fn spec_task_next_run(
    is_active: bool,
    schedule: Seq<char>,
    now: int,
) -> Result<Option<int>, ScheduleError> {
    if !is_active {
        Ok(None)
    } else {
        match spec_parse_cron(schedule) {
            Ok(p) => Ok(Some(spec_next(p, now))),
            Err(e) => Err(e),
        }
    }
}

impl Task {
    /// A fresh task: active, never run, with the request's choices and
    /// documented defaults, under a newly drawn identifier.
    pub fn new(req: CreateTaskRequest, now: u64) -> (t: Task)
        ensures
            t.id@.len() == 36,
            t.name == req.name,
            t.database_config_id == req.database_config_id,
            t.database_name is None,
            t.cron_schedule == req.cron_schedule,
            t.compression_type == (match req.compression_type {
                Some(c) => c,
                None => CompressionType::Gzip,
            }),
            t.cleanup_days == (match req.cleanup_days {
                Some(d) => d,
                None => 30i32,
            }),
            t.use_non_transactional == (match req.use_non_transactional {
                Some(b) => b,
                None => false,
            }),
            t.is_active,
            t.last_run is None,
            t.next_run is None,
            t.created_at == now,
            t.updated_at == now,
    {
        let compression = match req.compression_type {
            Some(c) => c,
            None => CompressionType::Gzip,
        };
        let cleanup_days = match req.cleanup_days {
            Some(d) => d,
            None => 30,
        };
        let use_non_transactional = match req.use_non_transactional {
            Some(b) => b,
            None => false,
        };
        Task {
            id: crate::foreign::new_uuid_string(),
            name: req.name,
            database_config_id: req.database_config_id,
            database_name: None,
            cron_schedule: req.cron_schedule,
            compression_type: compression,
            cleanup_days,
            use_non_transactional,
            is_active: true,
            last_run: None,
            next_run: None,
            created_at: now,
            updated_at: now,
        }
    }

    /// Applies the present fields of an update request and stamps the
    /// modification time.
    pub fn update(&mut self, req: UpdateTaskRequest, now: u64)
        ensures
            final (self).name == (match req.name {
                Some(n) => n,
                None => old(self).name,
            }),
            final (self).cron_schedule == (match req.cron_schedule {
                Some(s) => s,
                None => old(self).cron_schedule,
            }),
            final (self).compression_type == (match req.compression_type {
                Some(c) => c,
                None => old(self).compression_type,
            }),
            final (self).cleanup_days == (match req.cleanup_days {
                Some(d) => d,
                None => old(self).cleanup_days,
            }),
            final (self).use_non_transactional == (match req.use_non_transactional {
                Some(b) => b,
                None => old(self).use_non_transactional,
            }),
            final (self).is_active == (match req.is_active {
                Some(b) => b,
                None => old(self).is_active,
            }),
            final (self).updated_at == now,
            final (self).id == old(self).id,
            final (self).database_config_id == old(self).database_config_id,
            final (self).database_name == old(self).database_name,
            final (self).last_run == old(self).last_run,
            final (self).next_run == old(self).next_run,
            final (self).created_at == old(self).created_at,
    {
        if let Some(name) = req.name {
            self.name = name;
        }
        if let Some(cron_schedule) = req.cron_schedule {
            self.cron_schedule = cron_schedule;
        }
        if let Some(compression_type) = req.compression_type {
            self.compression_type = compression_type;
        }
        if let Some(cleanup_days) = req.cleanup_days {
            self.cleanup_days = cleanup_days;
        }
        if let Some(use_non_transactional) = req.use_non_transactional {
            self.use_non_transactional = use_non_transactional;
        }
        if let Some(is_active) = req.is_active {
            self.is_active = is_active;
        }
        self.updated_at = now;
    }

    /// The task's compression choice.
    pub fn compression_type(&self) -> (r: CompressionType)
        ensures
            r == self.compression_type,
    {
        self.compression_type
    }

    /// Asks the schedule evaluator for the next trigger instant: nothing
    /// if the task is inactive, otherwise the instant strictly after `now`
    /// matching the schedule, or the expression's validation error.
    pub fn calculate_next_run(&self, now: u64) -> (r: Result<Option<u64>, ScheduleError>)
        requires
            valid_instant(now),
        ensures
            match r {
                Ok(opt) => {
                    match opt {
                        Some(t) => Ok::<Option<int>, ScheduleError>(Some(t as int)) == spec_task_next_run(
                            self.is_active,
                            self.cron_schedule@,
                            now as int,
                        ) && t > now,
                        None => spec_task_next_run(self.is_active, self.cron_schedule@, now as int)
                            == Ok::<Option<int>, ScheduleError>(None),
                    }
                },
                Err(e) => spec_task_next_run(self.is_active, self.cron_schedule@, now as int)
                    == Err::<Option<int>, ScheduleError>(e),
            },
    {
        if !self.is_active {
            return Ok(None);
        }
        proof {
            lemma_parse_patterns_wf(self.cron_schedule@);
        }
        match parse_cron(self.cron_schedule.as_str()) {
            Ok(p) => Ok(Some(next_after(&p, now))),
            Err(e) => Err(e),
        }
    }

    /// Recomputes `next_run` from the current schedule and stamps the
    /// modification time; reports the expression's error unchanged.
    pub fn update_next_run(&mut self, now: u64) -> (r: Result<(), ScheduleError>)
        requires
            valid_instant(now),
        ensures
            final (self).id == old(self).id,
            final (self).name == old(self).name,
            final (self).database_config_id == old(self).database_config_id,
            final (self).database_name == old(self).database_name,
            final (self).cron_schedule == old(self).cron_schedule,
            final (self).compression_type == old(self).compression_type,
            final (self).cleanup_days == old(self).cleanup_days,
            final (self).use_non_transactional == old(self).use_non_transactional,
            final (self).is_active == old(self).is_active,
            final (self).last_run == old(self).last_run,
            final (self).created_at == old(self).created_at,
            match r {
                Ok(()) => {
                    &&& final (self).updated_at == now
                    &&& match spec_task_next_run(
                        old(self).is_active,
                        old(self).cron_schedule@,
                        now as int,
                    ) {
                        Ok(opt) => {
                            match (final (self).next_run, opt) {
                                (Some(a), Some(b)) => a == b && a > now,
                                (None, None) => true,
                                _ => false,
                            }
                        },
                        Err(_) => false,
                    }
                },
                Err(e) => {
                    &&& spec_task_next_run(old(self).is_active, old(self).cron_schedule@, now as int)
                        == Err::<Option<int>, ScheduleError>(e)
                    &&& final (self).next_run == old(self).next_run
                    &&& final (self).updated_at == old(self).updated_at
                },
            },
    {
        match self.calculate_next_run(now) {
            Ok(next) => {
                self.next_run = next;
                self.updated_at = now;
                Ok(())
            },
            Err(e) => Err(e),
        }
    }

    /// Records an execution attempt: `last_run` becomes `now` and
    /// `next_run` is recomputed.
    pub fn mark_executed(&mut self, now: u64) -> (r: Result<(), ScheduleError>)
        requires
            valid_instant(now),
        ensures
            final (self).id == old(self).id,
            final (self).cron_schedule == old(self).cron_schedule,
            final (self).is_active == old(self).is_active,
            match r {
                Ok(()) => {
                    &&& final (self).last_run == Some(now)
                    &&& final (self).updated_at == now
                    &&& match spec_task_next_run(
                        old(self).is_active,
                        old(self).cron_schedule@,
                        now as int,
                    ) {
                        Ok(opt) => {
                            match (final (self).next_run, opt) {
                                (Some(a), Some(b)) => a == b && a > now,
                                (None, None) => true,
                                _ => false,
                            }
                        },
                        Err(_) => false,
                    }
                },
                Err(e) => spec_task_next_run(old(self).is_active, old(self).cron_schedule@, now as int)
                    == Err::<Option<int>, ScheduleError>(e),
            },
    {
        self.last_run = Some(now);
        self.update_next_run(now)
    }

    /// Whether the task is due: active, with a computed `next_run` at or
    /// before `now`.
    pub fn should_run_now(&self, now: u64) -> (r: bool)
        ensures
            r == (self.is_active && match self.next_run {
                Some(t) => now >= t,
                None => false,
            }),
    {
        if !self.is_active {
            return false;
        }
        match self.next_run {
            Some(next_run) => now >= next_run,
            None => false,
        }
    }
}

} // verus!
