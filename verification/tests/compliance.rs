use nauto::compliance::{evaluate_device_compliance, evaluate_expression, ComplianceEngine,
    DeviceConfigs};
use nauto::model::ComplianceRule;

fn rule(name: &str, expression: &str) -> ComplianceRule {
    ComplianceRule {
        name: name.to_string(),
        description: String::new(),
        expression: expression.to_string(),
    }
}

#[test]
fn evaluates_contains_and_not() {
    let rules = vec![
        rule("Require NTP", "ntp server"),
        rule("No Telnet", "not:line vty 0 4\n transport input telnet"),
    ];
    let mut dataset = DeviceConfigs::new();
    dataset.push(
        "r1".to_string(),
        "ntp server 1.1.1.1\nline vty 0 4\n transport input ssh".to_string(),
    );
    dataset.push("r2".to_string(), "interface Gi1/0\n description test".to_string());

    let outcomes = ComplianceEngine::evaluate(&rules, &dataset);
    let summary = ComplianceEngine::summarize(&outcomes);
    assert_eq!(summary.total, 4);
    assert_eq!(summary.failed, 1);
}

#[test]
fn expression_not_operator_reports_forbidden_pattern() {
    let (passed, details) = evaluate_expression("not:telnet", "line vty\ntelnet enabled");
    assert!(!passed);
    assert_eq!(details.as_deref(), Some("found forbidden pattern telnet"));

    let (passed, details) = evaluate_expression("not:telnet", "ssh only");
    assert!(passed);
    assert!(details.is_none());
}

#[test]
fn expression_contains_operator_reports_missing_pattern() {
    let (passed, details) = evaluate_expression("contains:ntp server", "no time sync here");
    assert!(!passed);
    assert_eq!(details.as_deref(), Some("missing required pattern ntp server"));

    let (passed, details) = evaluate_expression("contains:ntp server", "ntp server 1.1.1.1");
    assert!(passed);
    assert!(details.is_none());
}

#[test]
fn bare_expression_means_contains() {
    let (passed, details) = evaluate_expression("snmp-server", "snmp-server community public");
    assert!(passed);
    assert!(details.is_none());

    let (passed, details) = evaluate_expression("snmp-server", "no management plane");
    assert!(!passed);
    assert_eq!(details.as_deref(), Some("missing required pattern snmp-server"));
}

#[test]
fn device_compliance_logs_exact_lines() {
    let rules = vec![
        rule("Require NTP", "contains:ntp server"),
        rule("No Telnet", "not:transport input telnet"),
    ];
    let (passed, logs) = evaluate_device_compliance(
        "r1",
        &rules,
        "ntp server 1.1.1.1\ntransport input ssh",
    );
    assert!(passed);
    assert_eq!(logs, vec!["Require NTP: pass".to_string(), "No Telnet: pass".to_string()]);

    let (passed, logs) = evaluate_device_compliance(
        "r2",
        &rules,
        "interface Gi1/0\n description test",
    );
    assert!(!passed);
    assert!(logs.contains(&"Require NTP: fail (missing required pattern ntp server)".to_string()));
    assert_eq!(logs[1], "No Telnet: pass".to_string());
}
