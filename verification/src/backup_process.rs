//! One backup attempt's lifecycle over its working directory: begun when
//! the directory structure and provisional sidecar are planned, finalized
//! when the archive has been made and measured, abandoned when the caller
//! gives up and leaves the directory for reconciliation.  The file system
//! work itself happens outside; this state machine decides names,
//! contents and order.

use vstd::prelude::*;
use vstd::string::StringExecFns;
use crate::backup::{
    BackupKind, BackupMetadata, DatabaseConfigInfo, TaskInfo, spec_fingerprint, fingerprint,
    spec_archive_name, archive_file_name,
};
use crate::config::DatabaseConfig;
use crate::task::{Task, CompressionType};
use crate::text::{spec_join, join_path};

verus! {

/// Where an attempt stands.
#[derive(Clone, Copy, Debug, PartialEq, Eq, Structural)]
pub enum LifecyclePhase {
    /// Nothing on disk yet.
    Uninitialized,
    /// Directories and provisional sidecar planned; the dump tool may
    /// write into the scratch directory.
    Begun,
    /// Archive made and measured, sidecar final, scratch deleted.
    Finalized,
    /// Given up after beginning; the directory is left as it stands.
    Abandoned,
}

/// The lifecycle's one-way moves: begun from uninitialized, then either
/// finalized or abandoned; the two ends are terminal.
pub open spec fn spec_phase_step(from: LifecyclePhase, to: LifecyclePhase) -> bool {
    ||| (from == LifecyclePhase::Uninitialized && to == LifecyclePhase::Begun)
    ||| (from == LifecyclePhase::Begun && to == LifecyclePhase::Finalized)
    ||| (from == LifecyclePhase::Begun && to == LifecyclePhase::Abandoned)
}

/// One backup attempt over one working directory.
#[derive(Debug)]
pub struct BackupProcess {
    pub id: String,
    pub root_dir: String,
    pub tmp_dir: String,
    pub meta_file: String,
    pub database_config: DatabaseConfig,
    pub task: Option<Task>,
    pub backup_type: BackupKind,
    pub compression_type: CompressionType,
    pub phase: LifecyclePhase,
}

/// The database name an attempt's sidecar records: the task's override
/// when one is set, else the configuration's default.
pub open spec fn spec_attempt_database(config: DatabaseConfig, task: Option<Task>) -> Seq<char> {
    match task {
        Some(t) => match t.database_name {
            Some(d) => d@,
            None => config.database_name@,
        },
        None => config.database_name@,
    }
}

impl BackupProcess {
    /// A fresh attempt rooted at `root_dir`, with scratch directory
    /// `tmp` and sidecar `rdumper.backup.json` under it.
    pub fn new(
        id: String,
        root_dir: String,
        database_config: DatabaseConfig,
        task: Option<Task>,
        backup_type: BackupKind,
        compression_type: CompressionType,
    ) -> (p: BackupProcess)
        ensures
            p.id == id,
            p.root_dir == root_dir,
            p.tmp_dir@ == spec_join(root_dir@, "tmp"@),
            p.meta_file@ == spec_join(root_dir@, "rdumper.backup.json"@),
            p.database_config == database_config,
            p.task == task,
            p.backup_type == backup_type,
            p.compression_type == compression_type,
            p.phase == LifecyclePhase::Uninitialized,
    {
        let tmp_dir = join_path(root_dir.as_str(), "tmp");
        let meta_file = join_path(root_dir.as_str(), "rdumper.backup.json");
        BackupProcess {
            id,
            root_dir,
            tmp_dir,
            meta_file,
            database_config,
            task,
            backup_type,
            compression_type,
            phase: LifecyclePhase::Uninitialized,
        }
    }

    /// The scratch directory the dump tool writes into.
    pub fn tmp_dir(&self) -> (r: &String)
        ensures
            r == &self.tmp_dir,
    {
        &self.tmp_dir
    }

    /// Begins the attempt: moves it to begun and produces the
    /// provisional sidecar, with empty file facts, for the caller to
    /// write after creating the root and scratch directories.
    pub fn initialize(&mut self, now: u64) -> (m: BackupMetadata)
        requires
            old(self).phase == LifecyclePhase::Uninitialized,
        ensures
            spec_phase_step(old(self).phase, final (self).phase),
            final (self).phase == LifecyclePhase::Begun,
            *final (self) == (BackupProcess { phase: LifecyclePhase::Begun, ..*old(self) }),
            m.id == old(self).id,
            m.database_name == old(self).database_config.database_name,
            m.database_config_id == old(self).database_config.id,
            (match (m.task_id, old(self).task) {
                (Some(tid), Some(t)) => tid == t.id,
                (None, None) => true,
                _ => false,
            }),
            (match m.used_database {
                Some(u) => u@ == old(self).database_config.name@ + "/"@ + spec_attempt_database(
                    old(self).database_config,
                    old(self).task,
                ),
                None => false,
            }),
            m.file_path@ == Seq::<char>::empty(),
            m.meta_path == old(self).meta_file,
            m.file_size == 0,
            m.compression_type == old(self).compression_type,
            m.created_at == now,
            m.backup_type == old(self).backup_type,
            m.ident is None,
            m.database_config.id == old(self).database_config.id,
            m.database_config.name == old(self).database_config.name,
            m.database_config.host == old(self).database_config.host,
            m.database_config.port == old(self).database_config.port,
            m.database_config.username == old(self).database_config.username,
            m.database_config.database_name == old(self).database_config.database_name,
            (match (m.task_info, old(self).task) {
                (Some(info), Some(t)) => info.id == t.id && info.name == t.name
                    && (match info.schedule {
                    Some(s) => s == t.cron_schedule,
                    None => false,
                }) && info.use_non_transactional == t.use_non_transactional,
                (None, None) => true,
                _ => false,
            }),
    {
        let database_config_info = DatabaseConfigInfo {
            id: self.database_config.id.clone(),
            name: self.database_config.name.clone(),
            host: self.database_config.host.clone(),
            port: self.database_config.port,
            username: self.database_config.username.clone(),
            database_name: self.database_config.database_name.clone(),
        };
        let task_info = match &self.task {
            Some(t) => Some(
                TaskInfo {
                    id: t.id.clone(),
                    name: t.name.clone(),
                    schedule: Some(t.cron_schedule.clone()),
                    use_non_transactional: t.use_non_transactional,
                },
            ),
            None => None,
        };
        let database_name = match &self.task {
            Some(t) => match &t.database_name {
                Some(d) => d.clone(),
                None => self.database_config.database_name.clone(),
            },
            None => self.database_config.database_name.clone(),
        };
        let used_database = self.database_config.name.clone().concat("/").concat(
            database_name.as_str(),
        );
        let task_id = match &self.task {
            Some(t) => Some(t.id.clone()),
            None => None,
        };
        self.phase = LifecyclePhase::Begun;
        BackupMetadata {
            id: self.id.clone(),
            database_name: self.database_config.database_name.clone(),
            database_config_id: self.database_config.id.clone(),
            task_id,
            used_database: Some(used_database),
            file_path: String::new(),
            meta_path: self.meta_file.clone(),
            file_size: 0,
            compression_type: self.compression_type,
            created_at: now,
            backup_type: self.backup_type,
            ident: None,
            database_config: database_config_info,
            task_info,
        }
    }

    /// The archive file name this attempt produces at an instant:
    /// `<database>-<timestamp>.<extension>` under the root directory.
    pub fn archive_name(&self, at: u64) -> (r: String)
        requires
            crate::schedule::valid_instant(at),
        ensures
            r@ == spec_archive_name(
                self.database_config.database_name@,
                crate::foreign::timestamp_label(at),
                self.compression_type,
            ),
    {
        archive_file_name(self.database_config.database_name.as_str(), at, &self.compression_type)
    }

    /// The archive's full path under the attempt's root directory.
    pub fn archive_path(&self, at: u64) -> (r: String)
        requires
            crate::schedule::valid_instant(at),
        ensures
            r@ == spec_join(
                self.root_dir@,
                spec_archive_name(
                    self.database_config.database_name@,
                    crate::foreign::timestamp_label(at),
                    self.compression_type,
                ),
            ),
    {
        let name = self.archive_name(at);
        join_path(self.root_dir.as_str(), name.as_str())
    }

    /// Finalizes the attempt after the archive tool succeeded: the
    /// sidecar now names the archive, records its measured byte size,
    /// and carries the size-and-modification fingerprint; the caller
    /// then rewrites the sidecar and deletes the scratch directory.
    pub fn finalize(
        &mut self,
        provisional: BackupMetadata,
        archive_path: String,
        file_size: u64,
        modified_secs: u64,
    ) -> (m: BackupMetadata)
        requires
            old(self).phase == LifecyclePhase::Begun,
        ensures
            spec_phase_step(old(self).phase, final (self).phase),
            final (self).phase == LifecyclePhase::Finalized,
            *final (self) == (BackupProcess { phase: LifecyclePhase::Finalized, ..*old(self) }),
            m.file_path == archive_path,
            m.file_size == file_size,
            (match m.ident {
                Some(i) => i@ == spec_fingerprint(file_size, modified_secs),
                None => false,
            }),
            m.id == provisional.id,
            m.database_name == provisional.database_name,
            m.database_config_id == provisional.database_config_id,
            m.task_id == provisional.task_id,
            m.used_database == provisional.used_database,
            m.meta_path == provisional.meta_path,
            m.compression_type == provisional.compression_type,
            m.created_at == provisional.created_at,
            m.backup_type == provisional.backup_type,
            m.database_config == provisional.database_config,
            m.task_info == provisional.task_info,
    {
        self.phase = LifecyclePhase::Finalized;
        BackupMetadata {
            file_path: archive_path,
            file_size,
            ident: Some(fingerprint(file_size, modified_secs)),
            ..provisional
        }
    }

    /// Gives the attempt up after it began, for instance when the
    /// archive tool exited non-zero: the scratch directory is left
    /// intact for diagnosis, and the caller marks its job failed.
    pub fn abandon(&mut self)
        requires
            old(self).phase == LifecyclePhase::Begun,
        ensures
            spec_phase_step(old(self).phase, final (self).phase),
            final (self).phase == LifecyclePhase::Abandoned,
            *final (self) == (BackupProcess { phase: LifecyclePhase::Abandoned, ..*old(self) }),
    {
        self.phase = LifecyclePhase::Abandoned;
    }
}

} // verus!
