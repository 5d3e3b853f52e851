use rdumper::backup::{
    archive_extension, archive_file_name, fingerprint, parse_backup_kind, Backup, BackupKind,
};
use rdumper::backup_process::LifecyclePhase;
use rdumper::config::{ConnectionStatus, DatabaseConfig};
use rdumper::filesystem_backup::FilesystemBackupService;
use rdumper::task::{parse_compression, CompressionType};

fn sample_config(name: &str, database_name: &str) -> DatabaseConfig {
    DatabaseConfig {
        id: "cfg-1".to_string(),
        name: name.to_string(),
        host: "localhost".to_string(),
        port: 3306,
        username: "testuser".to_string(),
        password: "SECRET-REDACTED".to_string(),
        database_name: database_name.to_string(),
        connection_status: ConnectionStatus::Untested,
        last_tested: None,
        created_at: 0,
        updated_at: 0,
    }
}

fn sample_backup(database: &str, kind: BackupKind, size: u64, created_at: u64) -> Backup {
    Backup {
        id: "b".to_string(),
        database_name: database.to_string(),
        database_config_id: "cfg-1".to_string(),
        task_id: None,
        used_database: None,
        file_path: "/backups/x/archive.tar.gz".to_string(),
        meta_path: "/backups/x/rdumper.backup.json".to_string(),
        file_size: size,
        compression_type: CompressionType::Gzip,
        created_at,
        backup_type: kind,
    }
}

#[test]
fn fingerprint_is_size_and_modification_instant() {
    assert_eq!(fingerprint(4096, 1700000000), "size_4096_modified_1700000000");
    assert_eq!(fingerprint(0, 0), "size_0_modified_0");
}

#[test]
fn every_compression_kind_has_its_extension() {
    assert_eq!(archive_extension(&CompressionType::Gzip), "tar.gz");
    assert_eq!(archive_extension(&CompressionType::Zstd), "tar.zst");
    assert_eq!(archive_extension(&CompressionType::NoCompression), "tar");
}

#[test]
fn archive_names_carry_database_timestamp_and_extension() {
    let at = 1_759_152_000; // within 2025
    for (kind, ext) in [
        (CompressionType::Gzip, ".tar.gz"),
        (CompressionType::Zstd, ".tar.zst"),
        (CompressionType::NoCompression, ".tar"),
    ] {
        let name = archive_file_name("testdb", at, &kind);
        assert!(name.starts_with("testdb-"), "{}", name);
        assert!(name.ends_with(ext), "{}", name);
        // database, dash, fifteen timestamp characters, dot, extension
        assert_eq!(name.len(), "testdb-".len() + 15 + ext.len());
    }
}

#[test]
fn compression_labels_round_trip() {
    for kind in [
        CompressionType::Gzip,
        CompressionType::Zstd,
        CompressionType::NoCompression,
    ] {
        assert_eq!(parse_compression(&kind.label()), Some(kind));
    }
    assert_eq!(parse_compression("GZIP"), Some(CompressionType::Gzip));
    assert_eq!(parse_compression("sideways"), None);
}

#[test]
fn backup_kind_labels_round_trip() {
    for kind in [
        BackupKind::Manual,
        BackupKind::Scheduled,
        BackupKind::Uploaded,
        BackupKind::External,
    ] {
        assert_eq!(parse_backup_kind(&kind.label()), Some(kind));
    }
    assert_eq!(parse_backup_kind("weird"), None);
}

#[test]
fn lifecycle_walks_begin_then_finalize() {
    let service = FilesystemBackupService::new("/backups".to_string());
    let config = sample_config("Test Database", "testdb");
    let mut process = service.create_backup_process("backup-1", config, None);
    assert_eq!(process.phase, LifecyclePhase::Uninitialized);
    assert!(process.root_dir.starts_with("/backups/"));
    assert!(process.tmp_dir.ends_with("/tmp"));
    assert!(process.meta_file.ends_with("/rdumper.backup.json"));

    let provisional = process.initialize(1000);
    assert_eq!(process.phase, LifecyclePhase::Begun);
    assert_eq!(provisional.file_path, "");
    assert_eq!(provisional.file_size, 0);
    assert_eq!(provisional.ident, None);
    assert_eq!(provisional.database_name, "testdb");
    assert_eq!(provisional.used_database, Some("Test Database/testdb".to_string()));
    assert_eq!(provisional.created_at, 1000);

    let archive = process.archive_path(1_759_152_000);
    let done = process.finalize(provisional, archive.clone(), 2048, 1_759_152_100);
    assert_eq!(process.phase, LifecyclePhase::Finalized);
    assert_eq!(done.file_path, archive);
    assert_eq!(done.file_size, 2048);
    assert_eq!(done.ident, Some("size_2048_modified_1759152100".to_string()));
}

#[test]
fn abandoning_leaves_the_attempt_terminal() {
    let service = FilesystemBackupService::new("/backups".to_string());
    let config = sample_config("Test Database", "testdb");
    let mut process = service.create_backup_process("backup-2", config, None);
    process.initialize(1000);
    process.abandon();
    assert_eq!(process.phase, LifecyclePhase::Abandoned);
}

#[test]
fn directory_names_are_filesystem_safe() {
    let service = FilesystemBackupService::new("/backups".to_string());
    let config = sample_config("My DB: prod/main", "testdb");
    let name = service.generate_backup_directory_name(&config, None);
    assert!(name.starts_with("My_DB__prod_main-"));
    for c in name.chars() {
        assert!(!r#" /\:*?"<>|"#.contains(c), "unsafe character in {}", name);
    }
}

#[test]
fn archive_files_are_recognized_by_extension() {
    let service = FilesystemBackupService::new("/backups".to_string());
    assert_eq!(
        service.is_backup_file("x.tar.gz"),
        Some("x.tar.gz".to_string())
    );
    assert!(service.is_backup_file("x.tar.zst").is_some());
    assert!(service.is_backup_file("x.tar").is_some());
    assert!(service.is_backup_file("x.zip").is_none());
    assert!(service.is_backup_file("tar.gz.txt").is_none());
}

#[test]
fn job_folders_have_the_hyphenated_hex_shape() {
    let service = FilesystemBackupService::new("/backups".to_string());
    assert!(service.is_job_folder("0f8fad5b-d9cb-469f-a165-70867728950e"));
    assert!(!service.is_job_folder("0f8fad5bd9cb469fa16570867728950e"));
    assert!(!service.is_job_folder("0f8fad5b-d9cb-469f-a165-70867728950"));
    assert!(!service.is_job_folder("zf8fad5b-d9cb-469f-a165-70867728950e"));
}

#[test]
fn orphan_filenames_parse_database_and_timestamp() {
    let service = FilesystemBackupService::new("/backups".to_string());
    let (db, created, ident) =
        service.parse_backup_filename("sbtest-20250929_131944.tar.gz", 4096, 500, 999);
    assert_eq!(db, "sbtest");
    let expected = chrono::NaiveDateTime::parse_from_str("20250929_131944", "%Y%m%d_%H%M%S")
        .unwrap()
        .and_utc()
        .timestamp() as u64;
    assert_eq!(created, expected);
    assert_eq!(ident, "size_4096_modified_500");

    // No recognizable timestamp: the whole stem and the scan instant.
    let (db2, created2, _) = service.parse_backup_filename("plain-archive.tar", 1, 2, 999);
    assert_eq!(db2, "plain-archive");
    assert_eq!(created2, 999);
}

#[test]
fn synthesized_sidecars_mark_external_backups()
{
    let service = FilesystemBackupService::new("/backups".to_string());
    let m = service.create_metadata_for_backup(
        "sbtest-20250929_131944.tar.gz",
        "/backups/found/sbtest-20250929_131944.tar.gz",
        "/backups/found/rdumper.backup.json",
        4096,
        500,
        999,
    );
    assert_eq!(m.database_name, "sbtest");
    assert_eq!(m.backup_type, BackupKind::External);
    assert_eq!(m.compression_type, CompressionType::Gzip);
    assert_eq!(m.database_config_id, "unknown");
    assert_eq!(m.ident, Some("size_4096_modified_500".to_string()));
    assert_eq!(m.task_id, None);
}

#[test]
fn stats_tally_sizes_kinds_and_databases() {
    let service = FilesystemBackupService::new("/backups".to_string());
    let backups = vec![
        sample_backup("alpha", BackupKind::Scheduled, 100, 10),
        sample_backup("alpha", BackupKind::Manual, 200, 20),
        sample_backup("beta", BackupKind::Scheduled, 300, 30),
    ];
    let stats = service.get_backup_stats(&backups);
    assert_eq!(stats.total_count, 3);
    assert_eq!(stats.total_size, 600);
    let kind_of = |k: &str| {
        stats
            .by_type
            .iter()
            .find(|(name, _)| name == k)
            .map(|(_, n)| *n)
    };
    assert_eq!(kind_of("scheduled"), Some(2));
    assert_eq!(kind_of("manual"), Some(1));
    let db_of = |k: &str| {
        stats
            .by_database
            .iter()
            .find(|(name, _)| name == k)
            .map(|(_, n)| *n)
    };
    assert_eq!(db_of("alpha"), Some(2));
    assert_eq!(db_of("beta"), Some(1));
}

#[test]
fn listings_sort_newest_first() {
    let service = FilesystemBackupService::new("/backups".to_string());
    let mut backups = vec![
        sample_backup("a", BackupKind::Scheduled, 1, 10),
        sample_backup("b", BackupKind::Scheduled, 2, 30),
        sample_backup("c", BackupKind::Scheduled, 3, 20),
    ];
    service.sort_backups_newest_first(&mut backups);
    let stamps: Vec<u64> = backups.iter().map(|b| b.created_at).collect();
    assert_eq!(stamps, vec![30, 20, 10]);
    assert_eq!(backups.len(), 3);
}

#[test]
fn backup_age_counts_whole_days() {
    let b = sample_backup("a", BackupKind::Scheduled, 1, 100 * 86400);
    assert_eq!(b.age_days(103 * 86400 + 5), 3);
    assert_eq!(b.age_days(100 * 86400), 0);
    // A record claiming the future ages zero days.
    assert_eq!(b.age_days(0), 0);
}
