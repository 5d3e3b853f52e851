//! Backup artifacts and their sidecar metadata.  The sidecar is the sole
//! source of truth when an archive is later found on disk without a live
//! record, so it carries denormalized snapshots of the configuration and
//! task it was made from.

use vstd::prelude::*;
use vstd::string::StringExecFns;
use crate::task::CompressionType;
use crate::text::{spec_decimal, u64_to_string};

verus! {

/// How an artifact came to exist.
#[derive(Clone, Copy, Debug, PartialEq, Eq, Structural)]
pub enum BackupKind {
    Manual,
    Scheduled,
    Uploaded,
    /// Discovered on disk without a sidecar and synthesized retroactively.
    External,
}

/// The persisted label of a backup kind.
pub open spec fn spec_backup_kind_label(k: BackupKind) -> Seq<char> {
    match k {
        BackupKind::Manual => "manual"@,
        BackupKind::Scheduled => "scheduled"@,
        BackupKind::Uploaded => "uploaded"@,
        BackupKind::External => "external"@,
    }
}

impl BackupKind {
    pub fn label(&self) -> (s: String)
        ensures
            s@ == spec_backup_kind_label(*self),
    {
        match self {
            BackupKind::Manual => "manual".to_owned(),
            BackupKind::Scheduled => "scheduled".to_owned(),
            BackupKind::Uploaded => "uploaded".to_owned(),
            BackupKind::External => "external".to_owned(),
        }
    }
}

/// The backup kind a label denotes, folding ASCII case.
pub open spec fn spec_parse_backup_kind(s: Seq<char>) -> Option<BackupKind> {
    let l = crate::task::spec_lower(s);
    if l == "manual"@ {
        Some(BackupKind::Manual)
    } else if l == "scheduled"@ {
        Some(BackupKind::Scheduled)
    } else if l == "uploaded"@ {
        Some(BackupKind::Uploaded)
    } else if l == "external"@ {
        Some(BackupKind::External)
    } else {
        None
    }
}

/// Reads a persisted backup kind label back into its kind.
pub fn parse_backup_kind(s: &str) -> (r: Option<BackupKind>)
    ensures
        r == spec_parse_backup_kind(s@),
{
    let l = crate::task::lower_string(s);
    if l == "manual".to_owned() {
        Some(BackupKind::Manual)
    } else if l == "scheduled".to_owned() {
        Some(BackupKind::Scheduled)
    } else if l == "uploaded".to_owned() {
        Some(BackupKind::Uploaded)
    } else if l == "external".to_owned() {
        Some(BackupKind::External)
    } else {
        None
    }
}

/// The denormalized configuration snapshot a sidecar carries.
#[derive(Debug, Clone)]
pub struct DatabaseConfigInfo {
    pub id: String,
    pub name: String,
    pub host: String,
    pub port: u16,
    pub username: String,
    pub database_name: String,
}

/// The denormalized task snapshot a sidecar carries.
#[derive(Debug, Clone)]
pub struct TaskInfo {
    pub id: String,
    pub name: String,
    pub schedule: Option<String>,
    pub use_non_transactional: bool,
}

/// A durable backup artifact: one archive file plus one sidecar.
#[derive(Debug, Clone)]
pub struct Backup {
    pub id: String,
    pub database_name: String,
    pub database_config_id: String,
    pub task_id: Option<String>,
    /// The `config-name/database-name` pair the backup was taken of.
    pub used_database: Option<String>,
    pub file_path: String,
    pub meta_path: String,
    pub file_size: u64,
    pub compression_type: CompressionType,
    pub created_at: u64,
    pub backup_type: BackupKind,
}

/// The sidecar's content.
#[derive(Debug, Clone)]
pub struct BackupMetadata {
    pub id: String,
    pub database_name: String,
    pub database_config_id: String,
    pub task_id: Option<String>,
    pub used_database: Option<String>,
    pub file_path: String,
    pub meta_path: String,
    pub file_size: u64,
    pub compression_type: CompressionType,
    pub created_at: u64,
    pub backup_type: BackupKind,
    /// The integrity fingerprint of the finished archive.
    pub ident: Option<String>,
    pub database_config: DatabaseConfigInfo,
    pub task_info: Option<TaskInfo>,
}

pub struct CreateBackupRequest {
    pub database_config_id: String,
    pub task_id: Option<String>,
    pub file_path: String,
    pub file_size: u64,
    pub compression_type: CompressionType,
}

pub struct RestoreRequest {
    pub backup_id: String,
    pub target_database_config_id: Option<String>,
    pub new_database_name: Option<String>,
    pub overwrite_existing: bool,
}

/// The cheap integrity fingerprint of an archive: its byte size and
/// modification instant, not a cryptographic digest.
pub open spec fn spec_fingerprint(size: u64, modified_secs: u64) -> Seq<char> {
    "size_"@ + spec_decimal(size as nat) + "_modified_"@ + spec_decimal(modified_secs as nat)
}

pub fn fingerprint(size: u64, modified_secs: u64) -> (r: String)
    ensures
        r@ == spec_fingerprint(size, modified_secs),
{
    "size_"
        .to_owned()
        .concat(u64_to_string(size).as_str())
        .concat("_modified_")
        .concat(u64_to_string(modified_secs).as_str())
}

/// The archive file extension for a compression choice.
pub open spec fn spec_archive_extension(c: CompressionType) -> Seq<char> {
    match c {
        CompressionType::Gzip => "tar.gz"@,
        CompressionType::Zstd => "tar.zst"@,
        CompressionType::NoCompression => "tar"@,
    }
}

pub fn archive_extension(c: &CompressionType) -> (r: String)
    ensures
        r@ == spec_archive_extension(*c),
{
    match c {
        CompressionType::Gzip => "tar.gz".to_owned(),
        CompressionType::Zstd => "tar.zst".to_owned(),
        CompressionType::NoCompression => "tar".to_owned(),
    }
}

/// The archive file name of a finished backup:
/// `<database>-<YYYYMMDD_HHMMSS>.<extension>`.
pub open spec fn spec_archive_name(db: Seq<char>, label: Seq<char>, c: CompressionType) -> Seq<
    char,
> {
    db + "-"@ + label + "."@ + spec_archive_extension(c)
}

/// Builds the archive file name for a database at an instant.
pub fn archive_file_name(db: &str, at: u64, c: &CompressionType) -> (r: String)
    requires
        crate::schedule::valid_instant(at),
    ensures
        r@ == spec_archive_name(db@, crate::foreign::timestamp_label(at), *c),
{
    let label = crate::foreign::format_timestamp(at);
    db.to_owned().concat("-").concat(label.as_str()).concat(".").concat(
        archive_extension(c).as_str(),
    )
}

/// The archive name starts with the database name followed by a dash and
/// ends with a dot and the extension of its compression choice.
pub proof fn lemma_archive_name_shape(db: Seq<char>, label: Seq<char>, c: CompressionType)
    ensures
        spec_archive_name(db, label, c).subrange(0, db.len() as int) == db,
        spec_archive_name(db, label, c).subrange(0, db.len() + 1int) == db + "-"@,
        crate::text::spec_ends_with(
            spec_archive_name(db, label, c),
            "."@ + spec_archive_extension(c),
        ),
{
    let name = spec_archive_name(db, label, c);
    let ext = spec_archive_extension(c);
    assert("-"@.len() == 1) by {
        reveal_strlit("-");
    }
    assert(name.subrange(0, db.len() as int) =~= db);
    assert(name.subrange(0, db.len() + 1int) =~= db + "-"@);
    assert(name.subrange(name.len() - ("."@ + ext).len(), name.len() as int) =~= "."@ + ext);
}

impl BackupMetadata {
    /// The sidecar for a named artifact.
    pub fn new(
        backup: &Backup,
        database_config: DatabaseConfigInfo,
        task_info: Option<TaskInfo>,
    ) -> (m: BackupMetadata)
        ensures
            m.id == backup.id,
            m.database_name == backup.database_name,
            m.database_config_id == backup.database_config_id,
            m.task_id == backup.task_id,
            m.used_database == backup.used_database,
            m.file_path == backup.file_path,
            m.meta_path == backup.meta_path,
            m.file_size == backup.file_size,
            m.compression_type == backup.compression_type,
            m.created_at == backup.created_at,
            m.backup_type == backup.backup_type,
            m.ident is None,
            m.database_config == database_config,
            m.task_info == task_info,
    {
        BackupMetadata {
            id: backup.id.clone(),
            database_name: backup.database_name.clone(),
            database_config_id: backup.database_config_id.clone(),
            task_id: clone_opt_string(&backup.task_id),
            used_database: clone_opt_string(&backup.used_database),
            file_path: backup.file_path.clone(),
            meta_path: backup.meta_path.clone(),
            file_size: backup.file_size,
            compression_type: backup.compression_type,
            created_at: backup.created_at,
            backup_type: backup.backup_type,
            ident: None,
            database_config,
            task_info,
        }
    }
}

/// A copy of an optional string.
pub fn clone_opt_string(s: &Option<String>) -> (r: Option<String>)
    ensures
        r == s,
{
    match s {
        Some(v) => Some(v.clone()),
        None => None,
    }
}

impl Backup {
    /// A fresh artifact record under a newly drawn identifier.
    pub fn new(
        database_name: String,
        database_config_id: String,
        task_id: Option<String>,
        file_path: String,
        meta_path: String,
        file_size: u64,
        compression_type: CompressionType,
        backup_type: BackupKind,
        now: u64,
    ) -> (b: Backup)
        ensures
            b.id@.len() == 36,
            b.database_name == database_name,
            b.database_config_id == database_config_id,
            b.task_id == task_id,
            b.used_database is None,
            b.file_path == file_path,
            b.meta_path == meta_path,
            b.file_size == file_size,
            b.compression_type == compression_type,
            b.created_at == now,
            b.backup_type == backup_type,
    {
        Backup {
            id: crate::foreign::new_uuid_string(),
            database_name,
            database_config_id,
            task_id,
            used_database: None,
            file_path,
            meta_path,
            file_size,
            compression_type,
            created_at: now,
            backup_type,
        }
    }

    /// The artifact listed from its sidecar, pointing at the named
    /// archive and sidecar files.
    pub fn from_metadata(metadata: BackupMetadata, file_path: String, meta_path: String) -> (b:
        Backup)
        ensures
            b.id == metadata.id,
            b.database_name == metadata.database_name,
            b.database_config_id == metadata.database_config_id,
            b.task_id == metadata.task_id,
            b.used_database == metadata.used_database,
            b.file_path == file_path,
            b.meta_path == meta_path,
            b.file_size == metadata.file_size,
            b.compression_type == metadata.compression_type,
            b.created_at == metadata.created_at,
            b.backup_type == metadata.backup_type,
    {
        Backup {
            id: metadata.id,
            database_name: metadata.database_name,
            database_config_id: metadata.database_config_id,
            task_id: metadata.task_id,
            used_database: metadata.used_database,
            file_path,
            meta_path,
            file_size: metadata.file_size,
            compression_type: metadata.compression_type,
            created_at: metadata.created_at,
            backup_type: metadata.backup_type,
        }
    }

    /// How many whole days old the artifact is at `now`; zero when the
    /// record claims a future creation instant.
    pub fn age_days(&self, now: u64) -> (r: u64)
        ensures
            now >= self.created_at ==> r == (now - self.created_at) / 86400,
            now < self.created_at ==> r == 0,
    {
        if now >= self.created_at {
            (now - self.created_at) / 86400
        } else {
            0
        }
    }
}

} // verus!
