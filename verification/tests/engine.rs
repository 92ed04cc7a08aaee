use nauto::compliance::DeviceConfigs;
use nauto::drivers::{driver_registry, mock_driver_registry, DriverHandle, DriverRegistry};
use nauto::engine::{Clock, JobEngine, MockPort, NoOpJobStore, TASK_TIMEOUT_MS};
use nauto::inventory::{DeviceInventory, InMemoryInventory};
use nauto::model::{
    CapabilitySet, ComplianceRule, CredentialRef, Device, DeviceType, Job, JobKind, ParamMap,
    TargetSelector, TaskStatus,
};

fn device(id: &str, name: &str, device_type: DeviceType, tags: Vec<&str>) -> Device {
    Device {
        id: id.to_string(),
        name: name.to_string(),
        device_type,
        mgmt_address: "10.0.0.1".to_string(),
        credential: CredentialRef { name: "default".to_string() },
        tags: tags.into_iter().map(|t| t.to_string()).collect(),
        capabilities: CapabilitySet::default(),
    }
}

fn command_job(commands: Vec<&str>, max_parallel: Option<usize>, dry_run: bool) -> Job {
    Job {
        id: "8c5b6f1e-0000-4000-8000-000000000001".to_string(),
        name: "Bulk show version".to_string(),
        kind: JobKind::CommandBatch {
            commands: commands.into_iter().map(|c| c.to_string()).collect(),
        },
        targets: TargetSelector::All,
        parameters: ParamMap::new(),
        max_parallel,
        dry_run,
        approval_id: None,
    }
}

#[test]
fn runs_job_across_devices() {
    let inventory = InMemoryInventory::new(vec![
        device("r1", "core-r1", DeviceType::CiscoIos, vec!["site:oslo", "role:core"]),
        device("j1", "edge-j1", DeviceType::JuniperJunos, vec!["site:oslo", "role:edge"]),
    ]);
    let engine = JobEngine::new(inventory, mock_driver_registry()).with_parallel(4);
    let job = command_job(vec!["show version"], Some(4), false);
    let mut clock = Clock::new(1_700_000_000_000);
    let mut port = MockPort::new();
    let mut store = NoOpJobStore;
    let corpus = DeviceConfigs::new();

    let result = engine.execute(&job, &corpus, &mut clock, &mut port, &mut store);
    assert_eq!(result.device_results.len(), 2);
    assert_eq!(result.success_count(), 2);
    assert!(result.device_results.iter().all(|t| t.status == TaskStatus::Success));
    assert_eq!(port.calls, 2);
}

#[test]
fn mock_success_logs_the_redacted_action() {
    let inventory = InMemoryInventory::new(vec![
        device("r1", "core-r1", DeviceType::CiscoIos, vec![]),
    ]);
    let engine = JobEngine::new(inventory, mock_driver_registry());
    let job = command_job(vec!["show version"], None, false);
    let mut clock = Clock::new(0);
    let mut port = MockPort::new();
    let mut store = NoOpJobStore;
    let corpus = DeviceConfigs::new();

    let result = engine.execute(&job, &corpus, &mut clock, &mut port, &mut store);
    assert_eq!(
        result.device_results[0].logs,
        vec!["[mock] device=core-r1 action=Job(CommandBatch { commands: 1 })".to_string()],
    );
    assert_eq!(result.device_results[0].diff.as_deref(), Some("mock diff"));
}

#[test]
fn mock_failure_tag_fails_the_task() {
    let inventory = InMemoryInventory::new(vec![
        device("r1", "core-r1", DeviceType::CiscoIos, vec!["mock:fail"]),
    ]);
    let engine = JobEngine::new(inventory, mock_driver_registry());
    let job = command_job(vec!["show version"], None, false);
    let mut clock = Clock::new(0);
    let mut port = MockPort::new();
    let mut store = NoOpJobStore;
    let corpus = DeviceConfigs::new();

    let result = engine.execute(&job, &corpus, &mut clock, &mut port, &mut store);
    assert_eq!(result.device_results.len(), 1);
    assert_eq!(result.device_results[0].status, TaskStatus::Failed);
    assert!(result.device_results[0].logs.iter().any(|l| l.contains("simulated failure")));
    assert_eq!(result.success_count(), 0);
}

#[test]
fn mock_timeout_command_times_the_task_out() {
    let inventory = InMemoryInventory::new(vec![
        device("r1", "core-r1", DeviceType::CiscoIos, vec![]),
    ]);
    let engine = JobEngine::new(inventory, mock_driver_registry());
    let job = command_job(vec!["timeout"], None, false);
    let started = 1_000_000;
    let mut clock = Clock::new(started);
    let mut port = MockPort::new();
    let mut store = NoOpJobStore;
    let corpus = DeviceConfigs::new();

    let result = engine.execute(&job, &corpus, &mut clock, &mut port, &mut store);
    assert_eq!(result.device_results.len(), 1);
    let task = &result.device_results[0];
    assert_eq!(task.status, TaskStatus::Failed);
    assert_eq!(task.logs, vec!["Job execution timed out".to_string()]);
    let elapsed = task.finished_at.unwrap() - task.started_at.unwrap();
    assert_eq!(elapsed, TASK_TIMEOUT_MS);
}

#[test]
fn compliance_job_never_reaches_the_driver_port() {
    let inventory = InMemoryInventory::new(vec![
        device("r1", "core-r1", DeviceType::CiscoIos, vec![]),
        device("r2", "core-r2", DeviceType::CiscoIos, vec![]),
    ]);
    let engine = JobEngine::new(inventory, mock_driver_registry());
    let job = Job {
        id: "8c5b6f1e-0000-4000-8000-000000000002".to_string(),
        name: "Baseline".to_string(),
        kind: JobKind::ComplianceCheck {
            rules: vec![
                ComplianceRule {
                    name: "Require NTP".to_string(),
                    description: String::new(),
                    expression: "contains:ntp server".to_string(),
                },
                ComplianceRule {
                    name: "No Telnet".to_string(),
                    description: String::new(),
                    expression: "not:transport input telnet".to_string(),
                },
            ],
        },
        targets: TargetSelector::All,
        parameters: ParamMap::new(),
        max_parallel: None,
        dry_run: false,
        approval_id: None,
    };
    let mut corpus = DeviceConfigs::new();
    corpus.push("r1".to_string(), "ntp server 1.1.1.1\ntransport input ssh".to_string());
    corpus.push("r2".to_string(), "interface Gi1/0\n description test".to_string());
    let mut clock = Clock::new(5);
    let mut port = MockPort::new();
    let mut store = NoOpJobStore;

    let result = engine.execute(&job, &corpus, &mut clock, &mut port, &mut store);
    assert_eq!(result.device_results.len(), 2);
    assert_eq!(result.device_results[0].status, TaskStatus::Success);
    assert_eq!(
        result.device_results[0].logs,
        vec!["Require NTP: pass".to_string(), "No Telnet: pass".to_string()],
    );
    assert_eq!(result.device_results[1].status, TaskStatus::Failed);
    assert!(result.device_results[1].logs.contains(
        &"Require NTP: fail (missing required pattern ntp server)".to_string(),
    ));
    assert_eq!(port.calls, 0);
}

#[test]
fn compliance_device_missing_from_corpus_fails() {
    let inventory = InMemoryInventory::new(vec![
        device("r1", "core-r1", DeviceType::CiscoIos, vec![]),
    ]);
    let engine = JobEngine::new(inventory, mock_driver_registry());
    let job = Job {
        id: "8c5b6f1e-0000-4000-8000-000000000003".to_string(),
        name: "Baseline".to_string(),
        kind: JobKind::ComplianceCheck {
            rules: vec![ComplianceRule {
                name: "Require NTP".to_string(),
                description: String::new(),
                expression: "ntp server".to_string(),
            }],
        },
        targets: TargetSelector::All,
        parameters: ParamMap::new(),
        max_parallel: None,
        dry_run: false,
        approval_id: None,
    };
    let corpus = DeviceConfigs::new();
    let mut clock = Clock::new(5);
    let mut port = MockPort::new();
    let mut store = NoOpJobStore;

    let result = engine.execute(&job, &corpus, &mut clock, &mut port, &mut store);
    assert_eq!(result.device_results.len(), 1);
    assert_eq!(result.device_results[0].status, TaskStatus::Failed);
    assert_eq!(
        result.device_results[0].logs,
        vec!["no config provided for compliance evaluation".to_string()],
    );
}

#[test]
fn dry_run_short_circuits_drivers_without_the_capability() {
    // The live Cisco IOS driver does not support dry runs.
    let inventory = InMemoryInventory::new(vec![
        device("r1", "core-r1", DeviceType::CiscoIos, vec![]),
    ]);
    let engine = JobEngine::new(inventory, driver_registry(false));
    let job = command_job(vec!["show version"], None, true);
    let mut clock = Clock::new(9);
    let mut port = MockPort::new();
    let mut store = NoOpJobStore;
    let corpus = DeviceConfigs::new();

    let result = engine.execute(&job, &corpus, &mut clock, &mut port, &mut store);
    assert_eq!(result.device_results.len(), 1);
    assert_eq!(result.device_results[0].status, TaskStatus::Success);
    assert_eq!(
        result.device_results[0].logs,
        vec!["Dry run skipped (not supported)".to_string()],
    );
    assert_eq!(port.calls, 0);
}

#[test]
fn missing_driver_skips_the_task() {
    let only_ios = DriverRegistry::new(vec![DriverHandle::Mock(
        nauto::drivers::MockDriver::new(DeviceType::CiscoIos),
    )]);
    let inventory = InMemoryInventory::new(vec![
        device("j1", "edge-j1", DeviceType::JuniperJunos, vec![]),
    ]);
    let engine = JobEngine::new(inventory, only_ios);
    let job = command_job(vec!["show version"], None, false);
    let mut clock = Clock::new(9);
    let mut port = MockPort::new();
    let mut store = NoOpJobStore;
    let corpus = DeviceConfigs::new();

    let result = engine.execute(&job, &corpus, &mut clock, &mut port, &mut store);
    assert_eq!(result.device_results.len(), 1);
    assert_eq!(result.device_results[0].status, TaskStatus::Skipped);
    assert_eq!(result.device_results[0].logs, vec!["No driver available".to_string()]);
    assert_eq!(port.calls, 0);
}

#[test]
fn timestamps_bracket_every_task() {
    let inventory = InMemoryInventory::new(vec![
        device("r1", "core-r1", DeviceType::CiscoIos, vec![]),
        device("j1", "edge-j1", DeviceType::JuniperJunos, vec![]),
    ]);
    let engine = JobEngine::new(inventory, mock_driver_registry());
    let job = command_job(vec!["timeout"], None, false);
    let mut clock = Clock::new(500);
    let mut port = MockPort::new();
    let mut store = NoOpJobStore;
    let corpus = DeviceConfigs::new();

    let result = engine.execute(&job, &corpus, &mut clock, &mut port, &mut store);
    assert_eq!(result.device_results.len(), 2);
    for task in &result.device_results {
        let s = task.started_at.unwrap();
        let f = task.finished_at.unwrap();
        assert!(result.started_at <= s);
        assert!(s <= f);
        assert!(f <= result.finished_at);
    }
}

#[test]
fn driver_capabilities_reported() {
    let registry = driver_registry(false);

    let ios = registry.find(&DeviceType::CiscoIos).unwrap();
    assert_eq!(ios.name(), "Cisco IOS CLI");

    let junos = registry.find(&DeviceType::JuniperJunos).unwrap();
    assert!(junos.capabilities().supports_commit);

    let generic = registry.find(&DeviceType::GenericSsh).unwrap();
    assert_eq!(generic.capabilities().supports_commit, false);

    let arista = registry.find(&DeviceType::AristaEos).unwrap();
    assert_eq!(arista.name(), "Arista EOS CLI");

    let nxos = registry.find(&DeviceType::CiscoNxosApi).unwrap();
    assert!(nxos.capabilities().supports_diff);

    let meraki = registry.find(&DeviceType::MerakiCloud).unwrap();
    assert!(meraki.capabilities().supports_rollback);
}

#[test]
fn registry_find_takes_the_first_match() {
    let registry = DriverRegistry::new(vec![
        DriverHandle::Mock(nauto::drivers::MockDriver::new(DeviceType::CiscoIos)),
        DriverHandle::CiscoIos(nauto::drivers::CiscoIosDriver::default()),
    ]);
    let found = registry.find(&DeviceType::CiscoIos).unwrap();
    assert_eq!(found.name(), "Mock Driver");
    assert!(registry.find(&DeviceType::MerakiCloud).is_none());
}

#[test]
fn resolving_twice_returns_identical_lists() {
    let inventory = InMemoryInventory::new(vec![
        device("r1", "core-r1", DeviceType::CiscoIos, vec!["site:oslo"]),
        device("j1", "edge-j1", DeviceType::JuniperJunos, vec!["site:oslo"]),
    ]);
    let selector = TargetSelector::ByTags { all_of: vec!["site:oslo".to_string()] };
    let first = inventory.resolve_targets(&selector);
    let second = inventory.resolve_targets(&selector);
    let first_ids: Vec<&str> = first.iter().map(|d| d.id.as_str()).collect();
    let second_ids: Vec<&str> = second.iter().map(|d| d.id.as_str()).collect();
    assert_eq!(first_ids, second_ids);
    assert_eq!(first.len(), second.len());
}

#[test]
fn resolve_targets_by_ids_and_tags() {
    let devices = vec![
        device("r1", "core-r1", DeviceType::CiscoIos, vec!["site:oslo", "role:core"]),
        device("r2", "core-r2", DeviceType::CiscoIos, vec!["site:bergen", "role:core"]),
        device("j1", "edge-j1", DeviceType::JuniperJunos, vec!["site:oslo", "role:edge"]),
    ];
    let inventory = InMemoryInventory::new(devices);

    let all = inventory.resolve_targets(&TargetSelector::All);
    assert_eq!(all.len(), 3);

    let by_ids = inventory.resolve_targets(&TargetSelector::ByIds {
        ids: vec!["j1".to_string(), "r1".to_string()],
    });
    let ids: Vec<&str> = by_ids.iter().map(|d| d.id.as_str()).collect();
    assert_eq!(ids, vec!["r1", "j1"]);

    let by_tags = inventory.resolve_targets(&TargetSelector::ByTags {
        all_of: vec!["site:oslo".to_string(), "role:core".to_string()],
    });
    let ids: Vec<&str> = by_tags.iter().map(|d| d.id.as_str()).collect();
    assert_eq!(ids, vec!["r1"]);

    let none = inventory.resolve_targets(&TargetSelector::ByIds { ids: vec!["zz".to_string()] });
    assert!(none.is_empty());
}
