//! The periodic scheduler's decision logic.  Each tick selects the due
//! tasks, and for each one either rejects the attempt (single-flight),
//! refuses it for a missing database name, or launches a fresh pending
//! job; the surrounding loop performs the I/O these decisions call for.

use vstd::prelude::*;
use vstd::string::StringExecFns;
use crate::task::Task;
use crate::config::DatabaseConfig;
use crate::job::{Job, JobStatus, JobType, CreateJobRequest, spec_is_terminal};

verus! {

/// Whether a task is due at an instant: active, with a computed
/// `next_run` at or before now.
pub open spec fn spec_due(t: Task, now: u64) -> bool {
    t.is_active && match t.next_run {
        Some(r) => now >= r,
        None => false,
    }
}

/// The database name an attempt resolves to: the task's override if
/// present, else the configuration's default, else nothing.
pub open spec fn spec_resolved_database(t: Task, c: DatabaseConfig) -> Option<Seq<char>> {
    match t.database_name {
        Some(d) => Some(d@),
        None => if c.database_name@.len() == 0 {
            None
        } else {
            Some(c.database_name@)
        },
    }
}

/// The `config-name/database-name` pair recorded on a job.
pub open spec fn spec_used_database(c: DatabaseConfig, db: Seq<char>) -> Seq<char> {
    c.name@ + "/"@ + db
}

/// Resolves the database name for an attempt against a task and its
/// configuration.
pub fn resolve_database_name(t: &Task, c: &DatabaseConfig) -> (r: Option<String>)
    ensures
        match (r, spec_resolved_database(*t, *c)) {
            (Some(a), Some(b)) => a@ == b,
            (None, None) => true,
            _ => false,
        },
{
    match &t.database_name {
        Some(d) => Some(d.clone()),
        None => {
            match c.get_database_name() {
                Some(d) => Some(d.clone()),
                None => None,
            }
        },
    }
}

/// What the scheduler decides for one task on one tick.
pub enum TickDecision {
    /// The task is not due; nothing happens.
    NotDue,
    /// Neither the task nor its configuration names a database: the tick
    /// fails with a logged error and no job is created.
    MissingDatabaseName,
    /// The task already has a non-terminal job: the scheduler makes
    /// exactly one new job, born cancelled and terminal, leaves the
    /// running one alone, and drops the overdue tick rather than
    /// queueing it.
    RejectedSingleFlight { cancelled_job: Job },
    /// The attempt goes ahead with a fresh pending job.
    Launch { job: Job, database_name: String },
}

/// The fields every job the scheduler creates for a task shares.
pub open spec fn spec_scheduled_job_common(j: Job, t: Task, c: DatabaseConfig, now: u64) -> bool {
    &&& j.id@.len() == 36
    &&& j.task_id == Some(t.id)
    &&& match (j.used_database, spec_resolved_database(t, c)) {
        (Some(u), Some(db)) => u@ == spec_used_database(c, db),
        _ => false,
    }
    &&& j.job_type == JobType::Backup
    &&& j.created_at == now
    &&& j.backup_path is None
    &&& j.log_output is None
    &&& j.started_at is None
}

/// Decides one task's fate on a scheduled tick.  This settles the
/// single-flight guarantee: when a non-terminal job exists, the one new
/// job is born cancelled and terminal, and nothing else is created or
/// modified.
pub fn plan_task_tick(t: &Task, c: &DatabaseConfig, has_nonterminal_job: bool, now: u64) -> (r:
    TickDecision)
    ensures
        !spec_due(*t, now) <==> r is NotDue,
        r is MissingDatabaseName <==> (spec_due(*t, now) && spec_resolved_database(*t, *c)
            is None),
        r is RejectedSingleFlight <==> (spec_due(*t, now) && spec_resolved_database(*t, *c)
            is Some && has_nonterminal_job),
        r is Launch <==> (spec_due(*t, now) && spec_resolved_database(*t, *c) is Some
            && !has_nonterminal_job),
        match r {
            TickDecision::RejectedSingleFlight { cancelled_job } => {
                &&& spec_scheduled_job_common(cancelled_job, *t, *c, now)
                &&& cancelled_job.status == JobStatus::Cancelled
                &&& spec_is_terminal(cancelled_job.status)
                &&& cancelled_job.error_message matches Some(m) && m@ == "Previous task is still running"@
                &&& cancelled_job.completed_at == Some(now)
                &&& cancelled_job.progress == 0
            },
            TickDecision::Launch { job, database_name } => {
                &&& spec_scheduled_job_common(job, *t, *c, now)
                &&& job.status == JobStatus::Pending
                &&& !spec_is_terminal(job.status)
                &&& job.progress == 0
                &&& job.error_message is None
                &&& job.completed_at is None
                &&& Some(database_name@) == spec_resolved_database(*t, *c)
            },
            _ => true,
        },
{
    if !t.should_run_now(now) {
        return TickDecision::NotDue;
    }
    let database_name = match resolve_database_name(t, c) {
        Some(d) => d,
        None => {
            return TickDecision::MissingDatabaseName;
        },
    };
    let used_database = c.name.clone().concat("/").concat(database_name.as_str());
    let req = CreateJobRequest {
        task_id: Some(t.id.clone()),
        used_database: Some(used_database),
        job_type: JobType::Backup,
        backup_path: None,
    };
    let mut job = Job::new(req, now);
    if has_nonterminal_job {
        job.cancel(now, "Previous task is still running".to_owned());
        proof {
            assert(job.error_message.unwrap()@ == "Previous task is still running"@);
        }
        TickDecision::RejectedSingleFlight { cancelled_job: job }
    } else {
        TickDecision::Launch { job, database_name }
    }
}

/// Decides an on-demand attempt: the schedule check is bypassed, but the
/// single-flight guarantee still holds.
pub fn plan_manual_run(t: &Task, c: &DatabaseConfig, has_nonterminal_job: bool, now: u64) -> (r:
    TickDecision)
    ensures
        !(r is NotDue),
        r is MissingDatabaseName <==> spec_resolved_database(*t, *c) is None,
        r is RejectedSingleFlight <==> (spec_resolved_database(*t, *c) is Some
            && has_nonterminal_job),
        r is Launch <==> (spec_resolved_database(*t, *c) is Some && !has_nonterminal_job),
        match r {
            TickDecision::RejectedSingleFlight { cancelled_job } => {
                &&& spec_scheduled_job_common(cancelled_job, *t, *c, now)
                &&& cancelled_job.status == JobStatus::Cancelled
                &&& spec_is_terminal(cancelled_job.status)
                &&& cancelled_job.error_message matches Some(m) && m@ == "Previous task is still running"@
                &&& cancelled_job.completed_at == Some(now)
            },
            TickDecision::Launch { job, database_name } => {
                &&& spec_scheduled_job_common(job, *t, *c, now)
                &&& job.status == JobStatus::Pending
                &&& !spec_is_terminal(job.status)
                &&& Some(database_name@) == spec_resolved_database(*t, *c)
            },
            _ => true,
        },
{
    let database_name = match resolve_database_name(t, c) {
        Some(d) => d,
        None => {
            return TickDecision::MissingDatabaseName;
        },
    };
    let used_database = c.name.clone().concat("/").concat(database_name.as_str());
    let req = CreateJobRequest {
        task_id: Some(t.id.clone()),
        used_database: Some(used_database),
        job_type: JobType::Backup,
        backup_path: None,
    };
    let mut job = Job::new(req, now);
    if has_nonterminal_job {
        job.cancel(now, "Previous task is still running".to_owned());
        proof {
            assert(job.error_message.unwrap()@ == "Previous task is still running"@);
        }
        TickDecision::RejectedSingleFlight { cancelled_job: job }
    } else {
        TickDecision::Launch { job, database_name }
    }
}

/// Settles a finished dump subprocess on its job: exit status zero moves
/// the job to compressing; anything else fails it with the captured
/// detail and leaves the scratch directory for diagnosis.
pub fn settle_dump_exit(job: &mut Job, exit_code_zero: bool, now: u64, error_detail: String)
    requires
        old(job).status == JobStatus::Running,
    ensures
        exit_code_zero ==> final (job).status == JobStatus::Compressing,
        !exit_code_zero ==> final (job).status == JobStatus::Failed && final (job).error_message
            == Some(error_detail) && final (job).completed_at == Some(now),
        final (job).id == old(job).id,
        final (job).task_id == old(job).task_id,
        final (job).log_output == old(job).log_output,
        final (job).backup_path == old(job).backup_path,
{
    if exit_code_zero {
        job.begin_compressing();
    } else {
        job.fail(now, error_detail);
    }
}

/// The indices of the tasks that are due at `now`, in their given order.
pub fn due_task_indices(tasks: &Vec<Task>, now: u64) -> (r: Vec<usize>)
    ensures
        forall|k: int|
            0 <= k < r@.len() ==> #[trigger] r@[k] < tasks@.len() && spec_due(
                tasks@[r@[k] as int],
                now,
            ),
        forall|i: int|
            0 <= i < tasks@.len() && spec_due(#[trigger] tasks@[i], now) ==> r@.contains(i as usize),
        forall|k1: int, k2: int| 0 <= k1 < k2 < r@.len() ==> r@[k1] < r@[k2],
{
    let mut r: Vec<usize> = Vec::new();
    let mut i: usize = 0;
    while i < tasks.len()
        invariant
            i <= tasks@.len(),
            forall|k: int|
                0 <= k < r@.len() ==> #[trigger] r@[k] < i && spec_due(tasks@[r@[k] as int], now),
            forall|j: int|
                0 <= j < i && spec_due(#[trigger] tasks@[j], now) ==> r@.contains(j as usize),
            forall|k1: int, k2: int| 0 <= k1 < k2 < r@.len() ==> r@[k1] < r@[k2],
        decreases tasks@.len() - i,
    {
        if tasks[i].should_run_now(now) {
            let ghost prev = r@;
            r.push(i);
            proof {
                assert(r@ == prev.push(i));
                assert(r@[r@.len() - 1] == i);
                assert forall|j: int|
                    0 <= j < i + 1 && spec_due(#[trigger] tasks@[j], now) implies r@.contains(
                    j as usize,
                ) by {
                    if j < i {
                        assert(prev.contains(j as usize));
                        let w = choose|w: int| 0 <= w < prev.len() && prev[w] == j as usize;
                        assert(r@[w] == j as usize);
                    } else {
                        assert(r@[r@.len() - 1] == j as usize);
                    }
                }
            }
        }
        i = i + 1;
    }
    r
}

/// Whether a discovered backup belongs to a task and has outlived the
/// task's retention window.
pub fn should_delete_backup(
    t: &Task,
    meta_task_id: Option<&String>,
    created_at: u64,
    now: u64,
) -> (r: bool)
    ensures
        r <==> {
            &&& t.cleanup_days > 0
            &&& match meta_task_id {
                Some(id) => id@ == t.id@,
                None => false,
            }
            &&& created_at + t.cleanup_days * 86400 < now
        },
{
    if t.cleanup_days <= 0 {
        return false;
    }
    let matches_task = match meta_task_id {
        Some(id) => *id == t.id,
        None => false,
    };
    if !matches_task {
        return false;
    }
    let window: u64 = (t.cleanup_days as u64) * 86400;
    created_at < u64::MAX - window && created_at + window < now
}

/// The worker's liveness record: tick and execution counters plus the
/// last tick instant.
#[derive(Clone, Copy, Debug, PartialEq, Eq, Structural)]
pub struct WorkerStatus {
    pub is_running: bool,
    pub last_tick: Option<u64>,
    pub total_ticks: u64,
    pub tasks_executed: u64,
}

/// The scheduler loop's owned state; the loop itself lives outside and
/// only records what happened through these methods.
pub struct TaskWorker {
    pub status: WorkerStatus,
}

impl TaskWorker {
    /// A worker that has not started: no ticks, nothing executed.
    pub fn new() -> (w: TaskWorker)
        ensures
            !w.status.is_running,
            w.status.last_tick is None,
            w.status.total_ticks == 0,
            w.status.tasks_executed == 0,
    {
        TaskWorker {
            status: WorkerStatus {
                is_running: false,
                last_tick: None,
                total_ticks: 0,
                tasks_executed: 0,
            },
        }
    }

    /// A snapshot of the liveness record.
    pub fn get_status(&self) -> (s: WorkerStatus)
        ensures
            s == self.status,
    {
        self.status
    }

    /// Marks the loop as running.
    pub fn mark_running(&mut self)
        ensures
            final (self).status == (WorkerStatus { is_running: true, ..old(self).status }),
    {
        self.status.is_running = true;
    }

    /// Counts one tick at the given instant.
    pub fn record_tick(&mut self, now: u64)
        requires
            old(self).status.total_ticks < u64::MAX,
        ensures
            final (self).status.total_ticks == old(self).status.total_ticks + 1,
            final (self).status.last_tick == Some(now),
            final (self).status.is_running == old(self).status.is_running,
            final (self).status.tasks_executed == old(self).status.tasks_executed,
    {
        self.status.last_tick = Some(now);
        self.status.total_ticks = self.status.total_ticks + 1;
    }

    /// Counts the executions one tick launched.
    pub fn record_executions(&mut self, count: u64)
        requires
            old(self).status.tasks_executed + count <= u64::MAX,
        ensures
            final (self).status.tasks_executed == old(self).status.tasks_executed + count,
            final (self).status.is_running == old(self).status.is_running,
            final (self).status.total_ticks == old(self).status.total_ticks,
            final (self).status.last_tick == old(self).status.last_tick,
    {
        self.status.tasks_executed = self.status.tasks_executed + count;
    }

    /// Whether periodic cleanup is owed on this tick: once every sixty
    /// ticks.
    pub fn cleanup_due(&self) -> (r: bool)
        ensures
            r == (self.status.total_ticks % 60 == 0),
    {
        self.status.total_ticks % 60 == 0
    }
}

/// What health reporting shows for a worker: stale when the last tick is
/// over a minute old.
pub struct WorkerStatusResponse {
    pub is_running: bool,
    pub last_tick: Option<String>,
    pub total_ticks: u64,
    pub tasks_executed: u64,
    pub status_color: String,
    pub status_text: String,
}

impl WorkerStatusResponse {
    /// Classifies a liveness record at an instant: green and running
    /// within a minute of the last tick, red and stale after, gray
    /// before the first tick.
    pub fn from_status(status: &WorkerStatus, now: u64) -> (r: WorkerStatusResponse)
        requires
            match status.last_tick {
                Some(t) => crate::schedule::valid_instant(t),
                None => true,
            },
        ensures
            r.is_running == status.is_running,
            r.total_ticks == status.total_ticks,
            r.tasks_executed == status.tasks_executed,
            match status.last_tick {
                Some(t) => {
                    &&& r.last_tick is Some
                    &&& r.last_tick.unwrap()@ == crate::foreign::rfc3339_label(t)
                    &&& (now <= t + 60 ==> r.status_color@ == "green"@ && r.status_text@
                        == "Running"@)
                    &&& (now > t + 60 ==> r.status_color@ == "red"@ && r.status_text@ == "Stale"@)
                },
                None => {
                    &&& r.last_tick is None
                    &&& r.status_color@ == "gray"@
                    &&& r.status_text@ == "Not started"@
                },
            },
    {
        match status.last_tick {
            Some(t) => {
                let fresh = now <= t || now - t <= 60;
                WorkerStatusResponse {
                    is_running: status.is_running,
                    last_tick: Some(crate::foreign::format_rfc3339(t)),
                    total_ticks: status.total_ticks,
                    tasks_executed: status.tasks_executed,
                    status_color: if fresh {
                        "green".to_owned()
                    } else {
                        "red".to_owned()
                    },
                    status_text: if fresh {
                        "Running".to_owned()
                    } else {
                        "Stale".to_owned()
                    },
                }
            },
            None => WorkerStatusResponse {
                is_running: status.is_running,
                last_tick: None,
                total_ticks: status.total_ticks,
                tasks_executed: status.tasks_executed,
                status_color: "gray".to_owned(),
                status_text: "Not started".to_owned(),
            },
        }
    }
}

} // verus!
