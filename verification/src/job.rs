//! Execution attempts and their status machine.  A job is born pending
//! (or directly cancelled, for single-flight rejections), walks one way
//! through running and compressing, and ends completed, failed or
//! cancelled; no transition ever leaves a terminal status.

use vstd::prelude::*;

verus! {

#[derive(Clone, Copy, Debug, PartialEq, Eq, Structural)]
pub enum JobType {
    Backup,
    Restore,
    Cleanup,
}

/// The persisted label of a job kind.
pub open spec fn spec_job_type_label(t: JobType) -> Seq<char> {
    match t {
        JobType::Backup => "backup"@,
        JobType::Restore => "restore"@,
        JobType::Cleanup => "cleanup"@,
    }
}

impl JobType {
    pub fn label(&self) -> (s: String)
        ensures
            s@ == spec_job_type_label(*self),
    {
        match self {
            JobType::Backup => "backup".to_owned(),
            JobType::Restore => "restore".to_owned(),
            JobType::Cleanup => "cleanup".to_owned(),
        }
    }
}

#[derive(Clone, Copy, Debug, PartialEq, Eq, Structural)]
pub enum JobStatus {
    Pending,
    Running,
    Compressing,
    Completed,
    Failed,
    Cancelled,
}

impl Default for JobStatus {
    /// A job starts out pending.
    fn default() -> (r: Self)
        ensures
            r == JobStatus::Pending,
    {
        JobStatus::Pending
    }
}

/// The persisted label of a job status.
pub open spec fn spec_job_status_label(s: JobStatus) -> Seq<char> {
    match s {
        JobStatus::Pending => "pending"@,
        JobStatus::Running => "running"@,
        JobStatus::Compressing => "compressing"@,
        JobStatus::Completed => "completed"@,
        JobStatus::Failed => "failed"@,
        JobStatus::Cancelled => "cancelled"@,
    }
}

impl JobStatus {
    pub fn label(&self) -> (s: String)
        ensures
            s@ == spec_job_status_label(*self),
    {
        match self {
            JobStatus::Pending => "pending".to_owned(),
            JobStatus::Running => "running".to_owned(),
            JobStatus::Compressing => "compressing".to_owned(),
            JobStatus::Completed => "completed".to_owned(),
            JobStatus::Failed => "failed".to_owned(),
            JobStatus::Cancelled => "cancelled".to_owned(),
        }
    }
}

/// The job kind a label denotes, folding ASCII case.
pub open spec fn spec_parse_job_type(s: Seq<char>) -> Option<JobType> {
    let l = crate::task::spec_lower(s);
    if l == "backup"@ {
        Some(JobType::Backup)
    } else if l == "restore"@ {
        Some(JobType::Restore)
    } else if l == "cleanup"@ {
        Some(JobType::Cleanup)
    } else {
        None
    }
}

/// Reads a persisted job kind label back into its kind.
pub fn parse_job_type(s: &str) -> (r: Option<JobType>)
    ensures
        r == spec_parse_job_type(s@),
{
    let l = crate::task::lower_string(s);
    if l == "backup".to_owned() {
        Some(JobType::Backup)
    } else if l == "restore".to_owned() {
        Some(JobType::Restore)
    } else if l == "cleanup".to_owned() {
        Some(JobType::Cleanup)
    } else {
        None
    }
}

/// The job status a label denotes, folding ASCII case.
pub open spec fn spec_parse_job_status(s: Seq<char>) -> Option<JobStatus> {
    let l = crate::task::spec_lower(s);
    if l == "pending"@ {
        Some(JobStatus::Pending)
    } else if l == "running"@ {
        Some(JobStatus::Running)
    } else if l == "compressing"@ {
        Some(JobStatus::Compressing)
    } else if l == "completed"@ {
        Some(JobStatus::Completed)
    } else if l == "failed"@ {
        Some(JobStatus::Failed)
    } else if l == "cancelled"@ {
        Some(JobStatus::Cancelled)
    } else {
        None
    }
}

/// Reads a persisted job status label back into its status.
pub fn parse_job_status(s: &str) -> (r: Option<JobStatus>)
    ensures
        r == spec_parse_job_status(s@),
{
    let l = crate::task::lower_string(s);
    if l == "pending".to_owned() {
        Some(JobStatus::Pending)
    } else if l == "running".to_owned() {
        Some(JobStatus::Running)
    } else if l == "compressing".to_owned() {
        Some(JobStatus::Compressing)
    } else if l == "completed".to_owned() {
        Some(JobStatus::Completed)
    } else if l == "failed".to_owned() {
        Some(JobStatus::Failed)
    } else if l == "cancelled".to_owned() {
        Some(JobStatus::Cancelled)
    } else {
        None
    }
}

/// A job in one of these statuses is finished for good.
pub open spec fn spec_is_terminal(s: JobStatus) -> bool {
    s == JobStatus::Completed || s == JobStatus::Failed || s == JobStatus::Cancelled
}

pub fn is_terminal(s: &JobStatus) -> (r: bool)
    ensures
        r == spec_is_terminal(*s),
{
    match s {
        JobStatus::Completed => true,
        JobStatus::Failed => true,
        JobStatus::Cancelled => true,
        _ => false,
    }
}

/// The one-way status machine: the happy path walks pending, running,
/// compressing, completed; failure and cancellation are reachable from
/// every non-terminal status; nothing leaves a terminal status.
pub open spec fn spec_can_transition(from: JobStatus, to: JobStatus) -> bool {
    ||| (from == JobStatus::Pending && to == JobStatus::Running)
    ||| (from == JobStatus::Running && to == JobStatus::Compressing)
    ||| (from == JobStatus::Compressing && to == JobStatus::Completed)
    ||| (!spec_is_terminal(from) && (to == JobStatus::Failed || to == JobStatus::Cancelled))
}

/// No transition leaves a terminal status: jobs are never resurrected.
pub proof fn lemma_terminal_is_final(from: JobStatus, to: JobStatus)
    ensures
        spec_is_terminal(from) ==> !spec_can_transition(from, to),
{
}

/// One execution attempt of a backup, restore or cleanup.
#[derive(Debug, Clone)]
pub struct Job {
    pub id: String,
    pub task_id: Option<String>,
    /// The `config-name/database-name` pair this attempt resolved to.
    pub used_database: Option<String>,
    pub job_type: JobType,
    pub status: JobStatus,
    /// Percent complete, 0 to 100.
    pub progress: i32,
    pub started_at: Option<u64>,
    pub completed_at: Option<u64>,
    pub error_message: Option<String>,
    /// Where the attempt's log lives.
    pub log_output: Option<String>,
    pub backup_path: Option<String>,
    pub created_at: u64,
}

pub struct CreateJobRequest {
    pub task_id: Option<String>,
    pub used_database: Option<String>,
    pub job_type: JobType,
    pub backup_path: Option<String>,
}

impl Job {
    /// A fresh pending job at zero progress under a newly drawn
    /// identifier.
    pub fn new(req: CreateJobRequest, now: u64) -> (j: Job)
        ensures
            j.id@.len() == 36,
            j.task_id == req.task_id,
            j.used_database == req.used_database,
            j.job_type == req.job_type,
            j.status == JobStatus::Pending,
            j.progress == 0,
            j.started_at is None,
            j.completed_at is None,
            j.error_message is None,
            j.log_output is None,
            j.backup_path == req.backup_path,
            j.created_at == now,
    {
        Job {
            id: crate::foreign::new_uuid_string(),
            task_id: req.task_id,
            used_database: req.used_database,
            job_type: req.job_type,
            status: JobStatus::Pending,
            progress: 0,
            started_at: None,
            completed_at: None,
            error_message: None,
            log_output: None,
            backup_path: req.backup_path,
            created_at: now,
        }
    }

    /// The job's current status.
    pub fn status(&self) -> (r: JobStatus)
        ensures
            r == self.status,
    {
        self.status
    }

    /// The dump subprocess was launched: pending becomes running.
    pub fn start(&mut self, now: u64, log_path: String)
        requires
            old(self).status == JobStatus::Pending,
        ensures
            spec_can_transition(old(self).status, final (self).status),
            final (self).status == JobStatus::Running,
            final (self).started_at == Some(now),
            final (self).log_output == Some(log_path),
            final (self).id == old(self).id,
            final (self).task_id == old(self).task_id,
            final (self).used_database == old(self).used_database,
            final (self).job_type == old(self).job_type,
            final (self).progress == old(self).progress,
            final (self).completed_at == old(self).completed_at,
            final (self).error_message == old(self).error_message,
            final (self).backup_path == old(self).backup_path,
            final (self).created_at == old(self).created_at,
    {
        self.status = JobStatus::Running;
        self.started_at = Some(now);
        self.log_output = Some(log_path);
    }

    /// The dump exited with status zero and archiving begins: running
    /// becomes compressing.
    pub fn begin_compressing(&mut self)
        requires
            old(self).status == JobStatus::Running,
        ensures
            spec_can_transition(old(self).status, final (self).status),
            final (self).status == JobStatus::Compressing,
            final (self).id == old(self).id,
            final (self).task_id == old(self).task_id,
            final (self).used_database == old(self).used_database,
            final (self).job_type == old(self).job_type,
            final (self).progress == old(self).progress,
            final (self).started_at == old(self).started_at,
            final (self).completed_at == old(self).completed_at,
            final (self).error_message == old(self).error_message,
            final (self).log_output == old(self).log_output,
            final (self).backup_path == old(self).backup_path,
            final (self).created_at == old(self).created_at,
    {
        self.status = JobStatus::Compressing;
    }

    /// The archive was finalized: compressing becomes completed at
    /// progress 100, with the artifact recorded.
    pub fn complete(&mut self, now: u64, backup_path: String)
        requires
            old(self).status == JobStatus::Compressing,
        ensures
            spec_can_transition(old(self).status, final (self).status),
            final (self).status == JobStatus::Completed,
            final (self).progress == 100,
            final (self).completed_at == Some(now),
            final (self).backup_path == Some(backup_path),
            final (self).id == old(self).id,
            final (self).task_id == old(self).task_id,
            final (self).used_database == old(self).used_database,
            final (self).job_type == old(self).job_type,
            final (self).started_at == old(self).started_at,
            final (self).error_message == old(self).error_message,
            final (self).log_output == old(self).log_output,
            final (self).created_at == old(self).created_at,
    {
        self.status = JobStatus::Completed;
        self.progress = 100;
        self.completed_at = Some(now);
        self.backup_path = Some(backup_path);
    }

    /// A step errored: any non-terminal status becomes failed, with the
    /// captured detail.
    pub fn fail(&mut self, now: u64, error: String)
        requires
            !spec_is_terminal(old(self).status),
        ensures
            spec_can_transition(old(self).status, final (self).status),
            final (self).status == JobStatus::Failed,
            final (self).completed_at == Some(now),
            final (self).error_message == Some(error),
            final (self).id == old(self).id,
            final (self).task_id == old(self).task_id,
            final (self).used_database == old(self).used_database,
            final (self).job_type == old(self).job_type,
            final (self).progress == old(self).progress,
            final (self).started_at == old(self).started_at,
            final (self).log_output == old(self).log_output,
            final (self).backup_path == old(self).backup_path,
            final (self).created_at == old(self).created_at,
    {
        self.status = JobStatus::Failed;
        self.completed_at = Some(now);
        self.error_message = Some(error);
    }

    /// The attempt was called off: any non-terminal status becomes
    /// cancelled, with the stated reason.
    pub fn cancel(&mut self, now: u64, message: String)
        requires
            !spec_is_terminal(old(self).status),
        ensures
            spec_can_transition(old(self).status, final (self).status),
            final (self).status == JobStatus::Cancelled,
            final (self).completed_at == Some(now),
            final (self).error_message == Some(message),
            final (self).id == old(self).id,
            final (self).task_id == old(self).task_id,
            final (self).used_database == old(self).used_database,
            final (self).job_type == old(self).job_type,
            final (self).progress == old(self).progress,
            final (self).started_at == old(self).started_at,
            final (self).log_output == old(self).log_output,
            final (self).backup_path == old(self).backup_path,
            final (self).created_at == old(self).created_at,
    {
        self.status = JobStatus::Cancelled;
        self.completed_at = Some(now);
        self.error_message = Some(message);
    }
}

} // verus!
