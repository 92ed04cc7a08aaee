use nauto::audit::{build_audit_record, build_device_records, device_log_path};
use nauto::model::{Job, JobKind, JobResult, ParamMap, TargetSelector, TaskStatus, TaskSummary};
use nauto::queue::{processed_path_name, queue_body, result_file_name, split_queue_lines,
    FileJobQueue};

#[test]
fn split_queue_lines_skips_blanks_and_keeps_order() {
    let body = "first\n\n   \n second \nthird";
    let lines = split_queue_lines(body);
    assert_eq!(
        lines,
        vec!["first".to_string(), " second ".to_string(), "third".to_string()],
    );
    assert!(split_queue_lines("").is_empty());
    assert!(split_queue_lines("\n\n").is_empty());
}

#[test]
fn split_queue_lines_strips_carriage_returns() {
    let lines = split_queue_lines("a\r\nb\r\n");
    assert_eq!(lines, vec!["a".to_string(), "b".to_string()]);
}

#[test]
fn queue_body_round_trips_lines() {
    let lines = vec!["one".to_string(), "two".to_string()];
    let body = queue_body(&lines);
    assert_eq!(body, "one\ntwo\n");
    assert_eq!(split_queue_lines(&body), lines);
    assert_eq!(queue_body(&Vec::new()), "");
}

#[test]
fn processed_path_sits_beside_the_queue() {
    assert_eq!(processed_path_name("queue/jobs.jsonl"), "queue/jobs.jsonl.processed");
    assert_eq!(processed_path_name("jobs.jsonl"), "jobs.jsonl.processed");
    assert_eq!(processed_path_name("queue/"), "queue/jobs.jsonl.processed");
}

#[test]
fn result_files_are_named_by_job_id() {
    assert_eq!(
        result_file_name("queue/results", "8c5b6f1e"),
        "queue/results/job-8c5b6f1e.json",
    );
}

#[test]
fn device_log_sits_beside_the_summary_log() {
    assert_eq!(device_log_path("logs/audit.log"), "logs/audit.log.devices.jsonl");
    assert_eq!(device_log_path("audit.log"), "audit.log.devices.jsonl");
    assert_eq!(device_log_path("logs/audit"), "logs/audit.devices.jsonl");
}

fn summary(id: &str, status: TaskStatus, logs: Vec<&str>, diff: Option<&str>) -> TaskSummary {
    TaskSummary {
        device_id: id.to_string(),
        status,
        started_at: Some(10),
        finished_at: Some(20),
        logs: logs.into_iter().map(|l| l.to_string()).collect(),
        diff: diff.map(|d| d.to_string()),
    }
}

#[test]
fn audit_records_count_and_name_failures() {
    let job = Job {
        id: "8c5b6f1e-0000-4000-8000-00000000000a".to_string(),
        name: "Bulk show version".to_string(),
        kind: JobKind::CommandBatch { commands: vec!["show version".to_string()] },
        targets: TargetSelector::All,
        parameters: ParamMap::new(),
        max_parallel: None,
        dry_run: false,
        approval_id: None,
    };
    let result = JobResult {
        job_id: job.id.clone(),
        started_at: 5,
        finished_at: 50,
        device_results: vec![
            summary("r1", TaskStatus::Success, vec!["ok"], Some("diff")),
            summary("r2", TaskStatus::Failed, vec!["error: boom"], None),
            summary("r3", TaskStatus::Skipped, vec!["No driver available"], None),
        ],
    };

    let record = build_audit_record(&job, &result);
    assert_eq!(record.job_id, job.id);
    assert_eq!(record.job_name, "Bulk show version");
    assert_eq!(record.success, 1);
    assert_eq!(record.failure, 2);
    assert_eq!(record.started_at, 5);
    assert_eq!(record.finished_at, 50);
    assert_eq!(record.failed_devices, vec!["r2".to_string()]);

    let device_records = build_device_records(&job, &result);
    assert_eq!(device_records.len(), 3);
    assert_eq!(device_records[0].device_id, "r1");
    assert!(device_records[0].diff_present);
    assert_eq!(device_records[1].status, TaskStatus::Failed);
    assert!(!device_records[1].diff_present);
    assert_eq!(device_records[2].logs, vec!["No driver available".to_string()]);
}

#[test]
fn file_queue_handle_is_inert() {
    let queue = FileJobQueue::new("queue/jobs.jsonl");
    assert_eq!(queue.path, "queue/jobs.jsonl");
    let job = Job {
        id: "x".to_string(),
        name: "x".to_string(),
        kind: JobKind::CommandBatch { commands: Vec::new() },
        targets: TargetSelector::All,
        parameters: ParamMap::new(),
        max_parallel: None,
        dry_run: false,
        approval_id: None,
    };
    assert!(queue.enqueue(&job, "inventory.yaml").is_ok());
    assert!(queue.dequeue().unwrap().is_none());
}
