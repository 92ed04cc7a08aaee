use nauto::bench::build_devices;
use nauto::integrations::detect_device_type;
use nauto::model::DeviceType;
use nauto::observability::ObservabilitySnapshot;
use nauto::telemetry::{default_timeout_secs, parse_header};
use nauto::transactions::{build_transaction_plan, staged_rollout, TransactionsCmd};

fn sample_cmd() -> TransactionsCmd {
    TransactionsCmd {
        job: "job.yaml".to_string(),
        inventory: "inventory.yaml".to_string(),
        output: "output.yaml".to_string(),
        canary_size: 5,
        batch_size: 10,
    }
}

#[test]
fn rejects_zero_canary_size() {
    let mut cmd = sample_cmd();
    cmd.canary_size = 0;
    assert!(cmd.ensure_valid().is_err());
}

#[test]
fn rejects_zero_batch_size() {
    let mut cmd = sample_cmd();
    cmd.batch_size = 0;
    assert!(cmd.ensure_valid().is_err());
}

#[test]
fn accepts_positive_values() {
    let cmd = sample_cmd();
    assert!(cmd.ensure_valid().is_ok());
}

#[test]
fn snapshot_records_metric_values() {
    let snapshot = ObservabilitySnapshot::new(123, 10, 2, 7);
    assert_eq!(snapshot.scraped_at, 123);
    assert_eq!(snapshot.metrics.jobs_total, 10);
    assert_eq!(snapshot.metrics.jobs_failed_total, 2);
    assert_eq!(snapshot.metrics.queue_depth, 7);
}

#[test]
fn transaction_plan_splits_canary_and_batches() {
    let ids: Vec<String> = ["a", "b", "c", "d", "e"].iter().map(|s| s.to_string()).collect();
    let plan = build_transaction_plan("rollout".to_string(), &ids, 2, 2);
    assert_eq!(plan.job_name, "rollout");
    assert_eq!(plan.canary, vec!["a".to_string(), "b".to_string()]);
    assert_eq!(
        plan.batches,
        vec![vec!["c".to_string(), "d".to_string()], vec!["e".to_string()]],
    );

    let stages = staged_rollout(&plan);
    assert_eq!(stages.len(), 3);
    assert_eq!(stages[0], plan.canary);

    let small: Vec<String> = vec!["only".to_string()];
    let plan = build_transaction_plan("tiny".to_string(), &small, 5, 50);
    assert_eq!(plan.canary, vec!["only".to_string()]);
    assert!(plan.batches.is_empty());
}

#[test]
fn parse_header_splits_on_the_first_equals() {
    let h = parse_header("X-Token=abc=def").unwrap();
    assert_eq!(h.key, "X-Token");
    assert_eq!(h.value, "abc=def");

    let err = parse_header("no-separator").unwrap_err();
    assert_eq!(err, "headers must be formatted as key=value");

    let err = parse_header("=value").unwrap_err();
    assert_eq!(err, "header key cannot be empty");

    assert_eq!(default_timeout_secs(), 2);
}

#[test]
fn detects_device_families_from_model_names() {
    assert_eq!(detect_device_type("JunOS MX204"), DeviceType::JuniperJunos);
    assert_eq!(detect_device_type("Nexus NX-9000"), DeviceType::CiscoNxosApi);
    assert_eq!(detect_device_type("whitebox"), DeviceType::GenericSsh);
}

#[test]
fn bench_devices_are_numbered() {
    let devices = build_devices(3);
    assert_eq!(devices.len(), 3);
    assert_eq!(devices[0].id, "bench-0");
    assert_eq!(devices[2].id, "bench-2");
    assert_eq!(devices[1].mgmt_address, "10.0.0.1");
    assert_eq!(devices[1].device_type, DeviceType::GenericSsh);
    assert_eq!(devices[1].tags, vec!["bench".to_string()]);
}
