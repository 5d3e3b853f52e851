//! Core logic of a database-backup orchestrator: a cron-style schedule
//! evaluator, a single-flight task scheduler, a backup-artifact lifecycle
//! with its sidecar metadata, and a progress reconstructor that infers
//! per-table completion from the dump tool's log stream.

pub mod backup;
pub mod backup_process;
pub mod config;
pub mod filesystem_backup;
pub mod foreign;
pub mod job;
pub mod listing;
pub mod logs;
pub mod mydumper;
pub mod progress;
pub mod progress_tracker;
pub mod schedule;
pub mod task;
pub mod text;
pub mod worker;
