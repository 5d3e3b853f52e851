use rdumper::progress_tracker::{ProgressTracker, RdumperMeta, TableStatus};

fn tracker() -> ProgressTracker {
    ProgressTracker::new("/logs/job-1".to_string())
}

fn names(list: &[&str]) -> Vec<String> {
    list.iter().map(|s| s.to_string()).collect()
}

fn meta(tables: &[&str], excluded: &[&str]) -> RdumperMeta {
    RdumperMeta {
        count: (tables.len() + excluded.len()) as u32,
        tables: names(tables),
        excluded_tables: names(excluded),
        database_name: "sbtest".to_string(),
        started_at: "2025-09-29T14:53:00+00:00".to_string(),
    }
}

#[test]
fn tables_start_pending() {
    let t = tracker();
    let rows = t.parse_table_progress("", &names(&["a", "b"]), 100);
    assert_eq!(rows.len(), 2);
    assert_eq!(rows[0].status, TableStatus::Pending);
    assert_eq!(rows[1].status, TableStatus::Pending);
}

#[test]
fn row_estimate_marks_in_progress() {
    let t = tracker();
    let log = "2025-09-29 14:53:20 [INFO] - sbtest.a has ~1000 rows\n";
    let rows = t.parse_table_progress(log, &names(&["a", "b"]), 100);
    assert_eq!(rows[0].status, TableStatus::InProgress);
    assert_eq!(rows[0].started_at, Some(100));
    assert_eq!(rows[1].status, TableStatus::Pending);
}

#[test]
fn thread_report_records_percent() {
    let t = tracker();
    let log = "2025-09-29 14:53:21 [INFO] - Thread 3: `sbtest`.`a` [ 50% ] | Tables: 10/16\n";
    let rows = t.parse_table_progress(log, &names(&["a", "b"]), 100);
    assert_eq!(rows[0].status, TableStatus::InProgress);
    assert_eq!(rows[0].progress_percent, Some(50));
    assert_eq!(rows[1].status, TableStatus::Pending);
}

#[test]
fn thread_reassignment_infers_completion() {
    // Thread 3 reports table a at 50%, then turns up on b: with no other
    // thread ever on a, a is taken as finished even without a done line.
    let t = tracker();
    let log = "Thread 3: `sbtest`.`a` [ 50% ]\nThread 3: `sbtest`.`b` [ 10% ]\n";
    let rows = t.parse_table_progress(log, &names(&["a", "b"]), 100);
    assert_eq!(rows[0].status, TableStatus::Completed);
    assert_eq!(rows[0].progress_percent, Some(100));
    assert_eq!(rows[1].status, TableStatus::InProgress);
    assert_eq!(rows[1].progress_percent, Some(10));
}

#[test]
fn no_inference_while_another_thread_works_the_table() {
    let t = tracker();
    let log = "Thread 3: `sbtest`.`a` [ 50% ]\nThread 4: `sbtest`.`a` [ 60% ]\nThread 3: `sbtest`.`b` [ 10% ]\n";
    let rows = t.parse_table_progress(log, &names(&["a", "b"]), 100);
    // Thread 4 is still on a, so a stays in progress.
    assert_eq!(rows[0].status, TableStatus::InProgress);
    assert_eq!(rows[1].status, TableStatus::InProgress);
}

#[test]
fn error_marker_flags_the_table() {
    let t = tracker();
    let log = "2025-09-29 14:53:30 [ERROR] - failed while dumping `b` rows\n";
    let rows = t.parse_table_progress(log, &names(&["a", "b"]), 100);
    assert_eq!(rows[0].status, TableStatus::Pending);
    assert_eq!(rows[1].status, TableStatus::Error);
    assert_eq!(rows[1].error_message, Some("Error during backup".to_string()));
}

#[test]
fn finished_marker_sweeps_everything_not_errored() {
    let t = tracker();
    let log = "Thread 1: `sbtest`.`a` [ 40% ]\nERROR on `b`\nFinished dump at: 2025-09-29 14:59:00\n";
    let rows = t.parse_table_progress(log, &names(&["a", "b", "c"]), 100);
    assert_eq!(rows[0].status, TableStatus::Completed);
    assert_eq!(rows[0].progress_percent, Some(100));
    assert_eq!(rows[1].status, TableStatus::Error);
    assert_eq!(rows[2].status, TableStatus::Completed);
}

#[test]
fn unparseable_lines_are_ignored() {
    let t = tracker();
    let log = "garbage line\nThread x: nonsense\n\n%% [ ] ``\n";
    let rows = t.parse_table_progress(log, &names(&["a"]), 100);
    assert_eq!(rows[0].status, TableStatus::Pending);
}

#[test]
fn excluded_tables_are_always_skipped() {
    let t = tracker();
    // The log even mentions the excluded table: it stays skipped.
    let log = "Thread 1: `sbtest`.`x` [ 50% ]\nFinished dump at: now\n";
    let snap = t.load_detailed_progress("job-1", &meta(&["a"], &["x"]), log, 100);
    assert_eq!(snap.total_tables, 2);
    assert_eq!(snap.tables.len(), 2);
    assert_eq!(snap.tables[1].name, "x");
    assert_eq!(snap.tables[1].status, TableStatus::Skipped);
    assert_eq!(
        snap.tables[1].error_message,
        Some("Non-InnoDB table, excluded from backup".to_string())
    );
    assert_eq!(snap.skipped_tables, 1);
    assert_eq!(snap.pending_tables, 0);
    assert_eq!(snap.in_progress_tables, 0);
}

#[test]
fn overall_percentage_counts_completed_and_skipped() {
    let t = tracker();
    // Three tables total: one completed by reassignment, one excluded.
    let log = "Thread 3: `sbtest`.`a` [ 50% ]\nThread 3: `sbtest`.`b` [ 10% ]\n";
    let snap = t.load_detailed_progress("job-1", &meta(&["a", "b"], &["x"]), log, 100);
    assert_eq!(snap.completed_tables, 1);
    assert_eq!(snap.skipped_tables, 1);
    assert_eq!(snap.total_tables, 3);
    // (1 completed + 1 skipped) / 3, floored.
    assert_eq!(snap.overall_progress, 66);
}

#[test]
fn empty_manifest_yields_zero_percent() {
    let t = tracker();
    let snap = t.load_detailed_progress("job-1", &meta(&[], &[]), "", 100);
    assert_eq!(snap.total_tables, 0);
    assert_eq!(snap.overall_progress, 0);
}

#[test]
fn reprocessing_the_same_log_is_idempotent() {
    let t = tracker();
    let log = "sbtest.a has ~10 rows\nThread 1: `sbtest`.`a` [ 70% ]\nERROR `b`\n";
    let m = meta(&["a", "b"], &["x"]);
    let first = t.load_detailed_progress("job-1", &m, log, 100);
    let second = t.load_detailed_progress("job-1", &m, log, 100);
    assert_eq!(first.overall_progress, second.overall_progress);
    assert_eq!(first.completed_tables, second.completed_tables);
    assert_eq!(first.error_tables, second.error_tables);
    for (x, y) in first.tables.iter().zip(second.tables.iter()) {
        assert_eq!(x.name, y.name);
        assert_eq!(x.status, y.status);
        assert_eq!(x.progress_percent, y.progress_percent);
    }
}

#[test]
fn a_growing_log_never_loses_completed_tables() {
    let t = tracker();
    let log1 = "Thread 3: `sbtest`.`a` [ 50% ]\nThread 3: `sbtest`.`b` [ 10% ]\n";
    let log2 = format!("{}Thread 3: `sbtest`.`c` [ 5% ]\n", log1);
    let log3 = format!("{}Finished dump at: 2025-09-29\n", log2);
    let names3 = names(&["a", "b", "c"]);
    let c1 = t
        .parse_table_progress(log1, &names3, 100)
        .iter()
        .filter(|r| r.status == TableStatus::Completed)
        .count();
    let c2 = t
        .parse_table_progress(&log2, &names3, 200)
        .iter()
        .filter(|r| r.status == TableStatus::Completed)
        .count();
    let c3 = t
        .parse_table_progress(&log3, &names3, 300)
        .iter()
        .filter(|r| r.status == TableStatus::Completed)
        .count();
    assert!(c1 <= c2);
    assert!(c2 <= c3);
    assert_eq!(c1, 1);
    assert_eq!(c2, 2);
    assert_eq!(c3, 3);
}

#[test]
fn snapshot_reads_the_manifest_start_time() {
    let t = tracker();
    let snap = t.load_detailed_progress("job-1", &meta(&["a"], &[]), "", 100);
    let expected = chrono::DateTime::parse_from_rfc3339("2025-09-29T14:53:00+00:00")
        .unwrap()
        .timestamp() as u64;
    assert_eq!(snap.started_at, expected);
    assert_eq!(snap.last_updated, 100);
    // An unreadable start time falls back to the call instant.
    let mut bad = meta(&["a"], &[]);
    bad.started_at = "not a time".to_string();
    let snap2 = t.load_detailed_progress("job-1", &bad, "", 100);
    assert_eq!(snap2.started_at, 100);
}

#[test]
fn tracker_paths_join_the_log_directory() {
    let t = tracker();
    assert_eq!(t.meta_file_path(), "/logs/job-1/rdumper.meta.json");
    assert_eq!(t.log_file_path(), "/logs/job-1/mydumper.log");
}
