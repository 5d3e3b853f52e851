//! Audit log entries and their closed type and level vocabularies.

use vstd::prelude::*;

verus! {

#[derive(Clone, Copy, Debug, PartialEq, Eq, Structural)]
pub enum LogType {
    Connection,
    Task,
    Worker,
    Job,
    System,
}

/// The persisted label of a log type.
pub open spec fn spec_log_type_label(t: LogType) -> Seq<char> {
    match t {
        LogType::Connection => "connection"@,
        LogType::Task => "task"@,
        LogType::Worker => "worker"@,
        LogType::Job => "job"@,
        LogType::System => "system"@,
    }
}

impl LogType {
    pub fn label(&self) -> (s: String)
        ensures
            s@ == spec_log_type_label(*self),
    {
        match self {
            LogType::Connection => "connection".to_owned(),
            LogType::Task => "task".to_owned(),
            LogType::Worker => "worker".to_owned(),
            LogType::Job => "job".to_owned(),
            LogType::System => "system".to_owned(),
        }
    }
}

#[derive(Clone, Copy, Debug, PartialEq, Eq, Structural)]
pub enum LogLevel {
    Debug,
    Info,
    Warn,
    Error,
}

/// The persisted label of a log level.
pub open spec fn spec_log_level_label(l: LogLevel) -> Seq<char> {
    match l {
        LogLevel::Debug => "debug"@,
        LogLevel::Info => "info"@,
        LogLevel::Warn => "warn"@,
        LogLevel::Error => "error"@,
    }
}

impl LogLevel {
    pub fn label(&self) -> (s: String)
        ensures
            s@ == spec_log_level_label(*self),
    {
        match self {
            LogLevel::Debug => "debug".to_owned(),
            LogLevel::Info => "info".to_owned(),
            LogLevel::Warn => "warn".to_owned(),
            LogLevel::Error => "error".to_owned(),
        }
    }
}

/// One audit entry.
#[derive(Debug, Clone)]
pub struct Log {
    pub id: String,
    pub log_type: LogType,
    pub entity_type: String,
    pub entity_id: Option<String>,
    pub message: String,
    pub level: LogLevel,
    /// Free-form structured detail, already rendered to text.
    pub metadata: Option<String>,
    pub created_at: u64,
}

pub struct CreateLogRequest {
    pub log_type: LogType,
    pub entity_type: String,
    pub entity_id: Option<String>,
    pub message: String,
    pub level: LogLevel,
    pub metadata: Option<String>,
}

impl Log {
    /// A fresh entry under a newly drawn identifier.
    pub fn new(req: CreateLogRequest, now: u64) -> (l: Log)
        ensures
            l.id@.len() == 36,
            l.log_type == req.log_type,
            l.entity_type == req.entity_type,
            l.entity_id == req.entity_id,
            l.message == req.message,
            l.level == req.level,
            l.metadata == req.metadata,
            l.created_at == now,
    {
        Log {
            id: crate::foreign::new_uuid_string(),
            log_type: req.log_type,
            entity_type: req.entity_type,
            entity_id: req.entity_id,
            message: req.message,
            level: req.level,
            metadata: req.metadata,
            created_at: now,
        }
    }
}

} // verus!
