use nauto::approvals::{ApprovalRecord, ApprovalStatus, ApprovalStore};
use nauto::compliance::DeviceConfigs;
use nauto::drivers::mock_driver_registry;
use nauto::engine::{Clock, JobEngine, MockPort, NoOpJobStore};
use nauto::inventory::InMemoryInventory;
use nauto::model::{CapabilitySet, CredentialRef, Device, DeviceType, Job, JobKind, ParamMap,
    TargetSelector};
use nauto::queue::QueueEntry;
use nauto::worker::{ParsedLine, WorkerDirective, WorkerOptions, WorkerPass, WorkerStats,
    WorkerCmd};

fn entry_line(raw: &str) -> ParsedLine {
    ParsedLine {
        raw: raw.to_string(),
        entry: Some(QueueEntry {
            job: "jobs/show_version.yaml".to_string(),
            inventory: "inventory.yaml".to_string(),
            audit_log: None,
            dry_run: false,
            scheduled_for: None,
        }),
    }
}

fn job_with_approval(approval_id: Option<&str>) -> Job {
    Job {
        id: "8c5b6f1e-0000-4000-8000-000000000009".to_string(),
        name: "queued job".to_string(),
        kind: JobKind::CommandBatch { commands: vec!["show version".to_string()] },
        targets: TargetSelector::All,
        parameters: ParamMap::new(),
        max_parallel: None,
        dry_run: false,
        approval_id: approval_id.map(|s| s.to_string()),
    }
}

fn pending_ledger(id: &str) -> ApprovalStore {
    ApprovalStore::new(vec![ApprovalRecord {
        id: id.to_string(),
        job_path: "jobs/show_version.yaml".to_string(),
        requested_by: "oncall".to_string(),
        note: None,
        status: ApprovalStatus::Pending,
    }])
}

#[test]
fn pending_approval_keeps_the_entry_queued() {
    let line = "{\"job\":\"jobs/show_version.yaml\",\"inventory\":\"inventory.yaml\"}";
    let mut pass = WorkerPass::new(vec![entry_line(line)], 1);
    let ledger = pending_ledger("U1");

    let entry = pass.next_entry();
    assert!(entry.is_some());
    let directive = pass.report_job(&job_with_approval(Some("U1")), &ledger);
    assert_eq!(directive, WorkerDirective::Held);
    assert!(pass.next_entry().is_none());

    let outcome = pass.finish();
    assert_eq!(outcome.remaining, vec![line.to_string()]);
    assert!(outcome.processed.is_empty());
    assert_eq!(outcome.stats.pending_approvals, 1);
    assert_eq!(outcome.stats.processed, 0);
    assert_eq!(outcome.stats.remaining, 1);
}

#[test]
fn approved_job_is_executed() {
    let line = "{\"job\":\"jobs/show_version.yaml\",\"inventory\":\"inventory.yaml\"}";
    let mut pass = WorkerPass::new(vec![entry_line(line)], 1);
    let mut ledger = pending_ledger("U1");
    ledger.approve("U1", "boss").unwrap();

    assert!(pass.next_entry().is_some());
    let directive = pass.report_job(&job_with_approval(Some("U1")), &ledger);
    assert_eq!(directive, WorkerDirective::Execute);
    pass.report_result(true);
    assert!(pass.next_entry().is_none());

    let outcome = pass.finish();
    assert!(outcome.remaining.is_empty());
    assert_eq!(outcome.processed, vec![line.to_string()]);
    assert_eq!(outcome.stats.processed, 1);
    assert_eq!(outcome.stats.pending_approvals, 0);
}

#[test]
fn worker_advances_the_queue() {
    let line = "{\"job\":\"jobs/show_version.yaml\",\"inventory\":\"inventory.yaml\"}";
    let entries = vec![entry_line(line), entry_line(line)];
    let mut pass = WorkerPass::new(entries, 2);
    let ledger = ApprovalStore::new(Vec::new());

    let mut executed = 0;
    while let Some(_entry) = pass.next_entry() {
        let directive = pass.report_job(&job_with_approval(None), &ledger);
        assert_eq!(directive, WorkerDirective::Execute);
        pass.report_result(true);
        executed += 1;
    }
    assert_eq!(executed, 2);

    let outcome = pass.finish();
    assert!(outcome.remaining.is_empty());
    assert_eq!(outcome.processed, vec![line.to_string(), line.to_string()]);
    assert_eq!(outcome.stats.processed, 2);
    assert_eq!(outcome.stats.remaining, 0);
    assert_eq!(outcome.stats.pending_approvals, 0);
}

#[test]
fn worker_runs_jobs_through_the_engine() {
    let line = "{\"job\":\"jobs/show_version.yaml\",\"inventory\":\"inventory.yaml\"}";
    let entries = vec![entry_line(line), entry_line(line)];
    let mut pass = WorkerPass::new(entries, 2);
    let ledger = ApprovalStore::new(Vec::new());
    let devices = vec![Device {
        id: "r1".to_string(),
        name: "core-r1".to_string(),
        device_type: DeviceType::CiscoIos,
        mgmt_address: "10.0.0.1".to_string(),
        credential: CredentialRef { name: "default".to_string() },
        tags: Vec::new(),
        capabilities: CapabilitySet::default(),
    }];

    while let Some(_entry) = pass.next_entry() {
        let job = job_with_approval(None);
        assert_eq!(pass.report_job(&job, &ledger), WorkerDirective::Execute);
        let engine = JobEngine::new(
            InMemoryInventory::new(devices.clone()),
            mock_driver_registry(),
        );
        let mut clock = Clock::new(1_700_000_000_000);
        let mut port = MockPort::new();
        let mut store = NoOpJobStore;
        let corpus = DeviceConfigs::new();
        let result = engine.execute(&job, &corpus, &mut clock, &mut port, &mut store);
        pass.report_result(result.success_count() == result.device_results.len());
    }

    let outcome = pass.finish();
    assert_eq!(outcome.stats.processed, 2);
    assert!(outcome.remaining.is_empty());
    assert_eq!(outcome.processed.len(), 2);
}

#[test]
fn malformed_lines_are_dropped_not_requeued() {
    let good = "{\"job\":\"jobs/a.yaml\",\"inventory\":\"inv.yaml\"}";
    let entries = vec![
        ParsedLine { raw: "{not json".to_string(), entry: None },
        entry_line(good),
    ];
    let mut pass = WorkerPass::new(entries, 5);
    let ledger = ApprovalStore::new(Vec::new());

    assert!(pass.next_entry().is_some());
    pass.report_job(&job_with_approval(None), &ledger);
    pass.report_result(true);
    assert!(pass.next_entry().is_none());

    let outcome = pass.finish();
    assert!(outcome.remaining.is_empty());
    assert_eq!(outcome.processed, vec![good.to_string()]);
    assert_eq!(outcome.stats.processed, 1);
}

#[test]
fn entries_beyond_the_limit_stay_in_order() {
    let lines = ["first", "second", "third"];
    let entries: Vec<ParsedLine> = lines.iter().map(|l| entry_line(l)).collect();
    let mut pass = WorkerPass::new(entries, 1);
    let ledger = ApprovalStore::new(Vec::new());

    assert!(pass.next_entry().is_some());
    pass.report_job(&job_with_approval(None), &ledger);
    pass.report_result(true);
    assert!(pass.next_entry().is_none());

    let outcome = pass.finish();
    assert_eq!(outcome.processed, vec!["first".to_string()]);
    assert_eq!(outcome.remaining, vec!["second".to_string(), "third".to_string()]);
    assert_eq!(outcome.stats.remaining, 2);
}

#[test]
fn failed_execution_keeps_the_entry() {
    let line = "{\"job\":\"jobs/a.yaml\",\"inventory\":\"inv.yaml\"}";
    let mut pass = WorkerPass::new(vec![entry_line(line)], 3);
    let ledger = ApprovalStore::new(Vec::new());

    assert!(pass.next_entry().is_some());
    pass.report_job(&job_with_approval(None), &ledger);
    pass.report_result(false);
    assert!(pass.next_entry().is_none());

    let outcome = pass.finish();
    assert_eq!(outcome.remaining, vec![line.to_string()]);
    assert!(outcome.processed.is_empty());
    assert_eq!(outcome.stats.processed, 0);
}

#[test]
fn worker_options_copy_the_command_arguments() {
    let cmd = WorkerCmd {
        queue: "queue/jobs.jsonl".to_string(),
        limit: 5,
        dry_run: false,
        approvals: "approvals/approvals.json".to_string(),
        results_dir: "queue/results".to_string(),
        audit_log: "logs/worker_audit.log".to_string(),
    };
    let options = WorkerOptions::from_cmd(&cmd);
    assert_eq!(options.queue, "queue/jobs.jsonl");
    assert_eq!(options.limit, 5);
    assert_eq!(options.approvals, "approvals/approvals.json");
    assert_eq!(options.results_dir, "queue/results");
    assert_eq!(options.audit_log, "logs/worker_audit.log");

    let stats = WorkerStats::default();
    assert_eq!(stats.processed, 0);
    assert_eq!(stats.remaining, 0);
    assert_eq!(stats.pending_approvals, 0);
}

#[test]
fn approval_ledger_round_trip() {
    let mut store = ApprovalStore::new(Vec::new());
    store.add_request(
        "U7".to_string(),
        "jobs/change.yaml".to_string(),
        "oncall".to_string(),
        None,
    );
    assert!(!store.is_approved("U7"));

    let err = store.approve("U8", "boss").unwrap_err();
    assert_eq!(err, "approval ID U8 not found");

    store.approve("U7", "boss").unwrap();
    assert!(store.is_approved("U7"));
    assert_eq!(store.records[0].note.as_deref(), Some("Approved by boss"));
    assert_eq!(store.records[0].status, ApprovalStatus::Approved);
}
