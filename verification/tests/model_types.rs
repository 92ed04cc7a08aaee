use nauto::drivers::{capability_mask_to_set, extend_with_plugin_drivers, mock_driver_registry,
    DriverHandle};
use nauto::model::{
    job_kind_label, Credential, DeviceType, Job, JobFile, JobKind, ParamMap, ParamValue,
    TargetSelector,
};
use nauto::plugin::{CapabilityMask, PluginDriverDescriptor, PluginHost, CAP_COMMIT, CAP_DIFF};
use nauto::security::KeyringStore;

#[test]
fn device_type_parse_accepts_both_spellings() {
    assert_eq!(DeviceType::parse("cisco_ios"), Some(DeviceType::CiscoIos));
    assert_eq!(DeviceType::parse(" CiscoIos "), Some(DeviceType::CiscoIos));
    assert_eq!(DeviceType::parse("juniper_junos"), Some(DeviceType::JuniperJunos));
    assert_eq!(DeviceType::parse("nxos"), Some(DeviceType::CiscoNxosApi));
    assert_eq!(DeviceType::parse("MERAKI_CLOUD"), Some(DeviceType::MerakiCloud));
    assert_eq!(DeviceType::parse("ios-xe"), None);
}

#[test]
fn job_kind_labels_are_canonical() {
    assert_eq!(job_kind_label(&JobKind::CommandBatch { commands: Vec::new() }), "command_batch");
    assert_eq!(
        job_kind_label(&JobKind::ConfigPush { snippet: "x".to_string() }),
        "config_push",
    );
    assert_eq!(
        job_kind_label(&JobKind::ComplianceCheck { rules: Vec::new() }),
        "compliance_check",
    );
}

#[test]
fn credential_rendering_redacts_every_secret() {
    let c = Credential::UserPassword {
        username: "admin".to_string(),
        password: "SECRET-REDACTED".to_string(),
    };
    let shown = c.redacted();
    assert_eq!(shown, "UserPassword { username: admin, password: ****** }");
    assert!(!shown.contains("SECRET-REDACTED"));

    let k = Credential::SshKey {
        username: "admin".to_string(),
        key_path: "/keys/id".to_string(),
        passphrase: Some("SECRET-REDACTED".to_string()),
    };
    let shown = k.redacted();
    assert_eq!(shown, "SshKey { username: admin, key_path: /keys/id, passphrase: ****** }");
    assert!(!shown.contains("SECRET-REDACTED"));

    let t = Credential::Token { token: "SECRET-REDACTED".to_string() };
    assert_eq!(t.redacted(), "Token { token: ****** }");
}

#[test]
fn config_push_rendering_redacts_the_snippet() {
    let kind = JobKind::ConfigPush { snippet: "enable secret 5 $1$abc".to_string() };
    let shown = kind.redacted();
    assert_eq!(shown, "ConfigPush { snippet: ***redacted*** }");
    assert!(!shown.contains("enable secret"));

    let batch = JobKind::CommandBatch {
        commands: vec!["show version".to_string(), "show clock".to_string()],
    };
    assert_eq!(batch.redacted(), "CommandBatch { commands: 2 }");
}

#[test]
fn job_files_apply_defaults() {
    let file = JobFile {
        name: "push".to_string(),
        id: None,
        kind: JobKind::ConfigPush { snippet: "set system ntp server 1.2.3.4".to_string() },
        targets: None,
        dry_run: true,
        parameters: ParamMap::new(),
        max_parallel: Some(25),
        approval_id: None,
    };
    let job: Job = file.into_job("generated-id".to_string());
    assert_eq!(job.id, "generated-id");
    assert!(matches!(job.targets, TargetSelector::All));
    assert!(job.dry_run);
    assert_eq!(job.max_parallel, Some(25));

    let file = JobFile {
        name: "push".to_string(),
        id: Some("fixed".to_string()),
        kind: JobKind::CommandBatch { commands: Vec::new() },
        targets: Some(TargetSelector::ByIds { ids: vec!["r1".to_string()] }),
        dry_run: false,
        parameters: ParamMap::new(),
        max_parallel: None,
        approval_id: Some("U1".to_string()),
    };
    let job: Job = file.into_job("ignored".to_string());
    assert_eq!(job.id, "fixed");
    assert_eq!(job.approval_id.as_deref(), Some("U1"));
}

#[test]
fn param_map_lookup_takes_the_first_match() {
    let mut params = ParamMap::new();
    params.push("inputs_path".to_string(), ParamValue::Text("configs.yaml".to_string()));
    params.push("inputs_path".to_string(), ParamValue::Text("other.yaml".to_string()));
    match params.get("inputs_path") {
        Some(ParamValue::Text(t)) => assert_eq!(t, "configs.yaml"),
        _ => panic!("expected the first text value"),
    }
    assert!(params.get("missing").is_none());
}

#[test]
fn capability_masks_decode_to_flags() {
    let all = CapabilityMask::all_standard();
    assert_eq!(all.bits, 15);
    let set = capability_mask_to_set(all);
    assert!(set.supports_commit && set.supports_rollback && set.supports_diff
        && set.supports_dry_run);

    let partial = CapabilityMask::from_bits(CAP_COMMIT | CAP_DIFF);
    let set = capability_mask_to_set(partial);
    assert!(set.supports_commit && set.supports_diff);
    assert!(!set.supports_rollback && !set.supports_dry_run);
}

#[test]
fn plugin_drivers_register_when_enabled_and_unclaimed() {
    let mut host = PluginHost::new();
    host.register_driver(PluginDriverDescriptor {
        vendor: "acme".to_string(),
        device_type: "meraki_cloud".to_string(),
        capabilities: CapabilityMask::all_standard(),
        artifact: "plugins/acme.wasm".to_string(),
    });
    host.register_driver(PluginDriverDescriptor {
        vendor: "acme".to_string(),
        device_type: "cisco_ios".to_string(),
        capabilities: CapabilityMask::all_standard(),
        artifact: "plugins/acme-ios.wasm".to_string(),
    });
    host.register_driver(PluginDriverDescriptor {
        vendor: "acme".to_string(),
        device_type: "not-a-type".to_string(),
        capabilities: CapabilityMask::all_standard(),
        artifact: "plugins/acme-bad.wasm".to_string(),
    });

    // Claimed type: a mock already serves cisco_ios, so only the meraki
    // plugin joins; the unknown type is skipped.
    let mut drivers = vec![DriverHandle::Mock(nauto::drivers::MockDriver::new(
        DeviceType::CiscoIos,
    ))];
    extend_with_plugin_drivers(&mut drivers, &host.drivers, true);
    assert_eq!(drivers.len(), 2);
    assert_eq!(drivers[1].name(), "WASM Plugin Driver");
    assert_eq!(drivers[1].device_type(), DeviceType::MerakiCloud);

    // Disabled: nothing joins.
    let mut drivers = vec![DriverHandle::Mock(nauto::drivers::MockDriver::new(
        DeviceType::CiscoIos,
    ))];
    extend_with_plugin_drivers(&mut drivers, &host.drivers, false);
    assert_eq!(drivers.len(), 1);
}

#[test]
fn mock_registry_serves_every_family() {
    let registry = mock_driver_registry();
    for t in [
        DeviceType::CiscoIos,
        DeviceType::JuniperJunos,
        DeviceType::GenericSsh,
        DeviceType::AristaEos,
        DeviceType::CiscoNxosApi,
        DeviceType::MerakiCloud,
    ] {
        let handle = registry.find(&t).expect("mock for every family");
        assert_eq!(handle.name(), "Mock Driver");
        assert!(handle.capabilities().supports_dry_run);
    }
}

#[test]
fn keyring_store_keeps_its_service_name() {
    let store = KeyringStore::new("netrust");
    assert_eq!(store.service, "netrust");
    assert_eq!(store.clone().service, "netrust");
}
