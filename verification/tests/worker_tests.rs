use rdumper::config::{ConnectionStatus, DatabaseConfig};
use rdumper::job::JobStatus;
use rdumper::task::{CompressionType, CreateTaskRequest, Task};
use rdumper::worker::{
    due_task_indices, plan_manual_run, plan_task_tick, resolve_database_name, should_delete_backup,
    TaskWorker, TickDecision, WorkerStatusResponse,
};

const DAY: u64 = 86400;

fn sample_config(database_name: &str) -> DatabaseConfig {
    DatabaseConfig {
        id: "cfg-1".to_string(),
        name: "Test Database".to_string(),
        host: "localhost".to_string(),
        port: 3306,
        username: "testuser".to_string(),
        password: "SECRET-REDACTED".to_string(),
        database_name: database_name.to_string(),
        connection_status: ConnectionStatus::Untested,
        last_tested: None,
        created_at: 0,
        updated_at: 0,
    }
}

fn sample_task(next_run: Option<u64>) -> Task {
    Task {
        id: "task-1".to_string(),
        name: "Nightly".to_string(),
        database_config_id: "cfg-1".to_string(),
        database_name: None,
        cron_schedule: "0 2 * * *".to_string(),
        compression_type: CompressionType::Gzip,
        cleanup_days: 30,
        use_non_transactional: false,
        is_active: true,
        last_run: None,
        next_run,
        created_at: 0,
        updated_at: 0,
    }
}

#[test]
fn resolves_task_override_before_config_default() {
    let config = sample_config("default_db");
    let mut task = sample_task(None);
    assert_eq!(resolve_database_name(&task, &config), Some("default_db".to_string()));
    task.database_name = Some("override_db".to_string());
    assert_eq!(resolve_database_name(&task, &config), Some("override_db".to_string()));
    let empty = sample_config("");
    task.database_name = None;
    assert_eq!(resolve_database_name(&task, &empty), None);
}

#[test]
fn tick_skips_a_task_that_is_not_due() {
    let config = sample_config("testdb");
    let task = sample_task(Some(1000));
    let decision = plan_task_tick(&task, &config, false, 999);
    assert!(matches!(decision, TickDecision::NotDue));
}

#[test]
fn tick_refuses_without_a_database_name() {
    let config = sample_config("");
    let task = sample_task(Some(1000));
    let decision = plan_task_tick(&task, &config, false, 1000);
    assert!(matches!(decision, TickDecision::MissingDatabaseName));
}

#[test]
fn single_flight_rejection_creates_one_cancelled_job() {
    let config = sample_config("testdb");
    let task = sample_task(Some(1000));
    let decision = plan_task_tick(&task, &config, true, 1000);
    match decision {
        TickDecision::RejectedSingleFlight { cancelled_job } => {
            assert_eq!(cancelled_job.status, JobStatus::Cancelled);
            assert_eq!(cancelled_job.task_id, Some("task-1".to_string()));
            assert_eq!(
                cancelled_job.error_message,
                Some("Previous task is still running".to_string())
            );
            assert_eq!(cancelled_job.completed_at, Some(1000));
            assert_eq!(
                cancelled_job.used_database,
                Some("Test Database/testdb".to_string())
            );
        }
        _ => panic!("expected a single-flight rejection"),
    }
}

#[test]
fn manual_run_bypasses_the_schedule_but_not_single_flight() {
    let config = sample_config("testdb");
    // next_run far in the future: a scheduled tick would skip it.
    let task = sample_task(Some(u64::MAX));
    let scheduled = plan_task_tick(&task, &config, false, 1000);
    assert!(matches!(scheduled, TickDecision::NotDue));
    let manual = plan_manual_run(&task, &config, false, 1000);
    assert!(matches!(manual, TickDecision::Launch { .. }));
    let rejected = plan_manual_run(&task, &config, true, 1000);
    assert!(matches!(rejected, TickDecision::RejectedSingleFlight { .. }));
}

#[test]
fn end_to_end_scheduled_backup() {
    // A task on "0 2 * * *", due exactly at 02:00 on day 100.
    let due = 100 * DAY + 2 * 3600;
    let config = sample_config("testdb");
    let mut task = sample_task(Some(due));
    let decision = plan_task_tick(&task, &config, false, due);
    let (mut job, database_name) = match decision {
        TickDecision::Launch { job, database_name } => (job, database_name),
        _ => panic!("expected a launch"),
    };
    assert_eq!(database_name, "testdb");
    assert_eq!(job.status, JobStatus::Pending);
    assert_eq!(job.progress, 0);

    // The dump is launched and exits with status zero.
    job.start(due + 1, "/logs/job/mydumper.log".to_string());
    assert_eq!(job.status, JobStatus::Running);
    rdumper::worker::settle_dump_exit(&mut job, true, due + 60, String::new());
    assert_eq!(job.status, JobStatus::Compressing);

    // The archive is finalized and recorded.
    let service = rdumper::filesystem_backup::FilesystemBackupService::new("/backups".to_string());
    let mut process = service.create_backup_process(&job.id, config.clone(), Some(task.clone()));
    let meta = process.initialize(due + 1);
    let archive = process.archive_path(due + 90);
    let done = process.finalize(meta, archive.clone(), 4096, due + 90);
    assert!(archive.ends_with(".tar.gz"));
    assert_eq!(done.file_size, 4096);
    job.complete(due + 100, archive.clone());
    assert_eq!(job.status, JobStatus::Completed);
    assert_eq!(job.progress, 100);
    assert_eq!(job.backup_path, Some(archive));

    // The task's bookkeeping moves to the following day at 02:00.
    task.mark_executed(due).unwrap();
    assert_eq!(task.last_run, Some(due));
    assert_eq!(task.next_run, Some(101 * DAY + 2 * 3600));
}

#[test]
fn failed_dump_marks_the_job_failed() {
    let config = sample_config("testdb");
    let task = sample_task(Some(1000));
    let decision = plan_task_tick(&task, &config, false, 1000);
    let mut job = match decision {
        TickDecision::Launch { job, .. } => job,
        _ => panic!("expected a launch"),
    };
    job.start(1001, "/logs/x/mydumper.log".to_string());
    rdumper::worker::settle_dump_exit(&mut job, false, 1060, "exit code 2".to_string());
    assert_eq!(job.status, JobStatus::Failed);
    assert_eq!(job.error_message, Some("exit code 2".to_string()));
}

#[test]
fn due_tasks_are_selected_in_order() {
    let tasks = vec![
        sample_task(Some(100)),
        sample_task(None),
        sample_task(Some(50)),
        sample_task(Some(1_000_000)),
    ];
    let due = due_task_indices(&tasks, 200);
    assert_eq!(due, vec![0, 2]);
}

#[test]
fn retention_decides_by_task_and_age() {
    let task = sample_task(None);
    let id = "task-1".to_string();
    let other = "task-2".to_string();
    let now = 100 * DAY;
    // Over the 30-day window and owned by the task: removed.
    assert!(should_delete_backup(&task, Some(&id), 50 * DAY, now));
    // Inside the window: kept.
    assert!(!should_delete_backup(&task, Some(&id), 80 * DAY, now));
    // Another task's backup: kept.
    assert!(!should_delete_backup(&task, Some(&other), 50 * DAY, now));
    // No task reference: kept.
    assert!(!should_delete_backup(&task, None, 50 * DAY, now));
    // Cleanup disabled: kept.
    let mut off = sample_task(None);
    off.cleanup_days = 0;
    assert!(!should_delete_backup(&off, Some(&id), 50 * DAY, now));
}

#[test]
fn worker_status_tracks_ticks_and_executions() {
    let mut worker = TaskWorker::new();
    assert!(!worker.get_status().is_running);
    worker.mark_running();
    worker.record_tick(1000);
    worker.record_tick(1060);
    worker.record_executions(3);
    let status = worker.get_status();
    assert!(status.is_running);
    assert_eq!(status.total_ticks, 2);
    assert_eq!(status.tasks_executed, 3);
    assert_eq!(status.last_tick, Some(1060));
}

#[test]
fn worker_response_classifies_freshness() {
    let mut worker = TaskWorker::new();
    let fresh = WorkerStatusResponse::from_status(&worker.get_status(), 1000);
    assert_eq!(fresh.status_color, "gray");
    assert_eq!(fresh.status_text, "Not started");
    worker.record_tick(1000);
    let green = WorkerStatusResponse::from_status(&worker.get_status(), 1030);
    assert_eq!(green.status_color, "green");
    assert_eq!(green.status_text, "Running");
    let shown = green.last_tick.expect("a tick was recorded");
    let parsed = chrono::DateTime::parse_from_rfc3339(&shown).expect("a well-formed instant");
    assert_eq!(parsed.timestamp(), 1000);
    let red = WorkerStatusResponse::from_status(&worker.get_status(), 1100);
    assert_eq!(red.status_color, "red");
    assert_eq!(red.status_text, "Stale");
}

#[test]
fn cleanup_runs_every_sixty_ticks() {
    let mut worker = TaskWorker::new();
    assert!(worker.cleanup_due());
    worker.record_tick(1);
    assert!(!worker.cleanup_due());
    for t in 2..=60 {
        worker.record_tick(t);
    }
    assert!(worker.cleanup_due());
}
