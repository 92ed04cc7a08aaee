use nauto::model::Credential;
use nauto::protocol::{
    ios_config_script, netconf_frame_complete, netconf_hello, netconf_reply_ok,
    netconf_rpc_payload, netconf_strip_eom, render_diff, ssh_config_script, summarize, truncate,
    NETCONF_EOM,
};
use nauto::rest::{
    backoff_delay_ms, eapi_command_summaries, eapi_endpoint, http_retry_limit, http_timeout,
    eapi_run_cmds_payload, json_escape, meraki_api_key, meraki_batch_payload,
    meraki_config_payload, nxapi_payload, should_retry, ssh_command_timeout, EapiEntry,
    MerakiOperation, NxapiEnvelope, NxapiInner, NxapiOutput, NxapiOutputs, NxapiResponse,
};
use nauto::security::{ssh_auth_plan, SshAuthPlan};

#[test]
fn summarize_trims_and_clips() {
    assert_eq!(summarize("  hello  ", 200), "hello");
    assert_eq!(summarize("abcdef", 4), "abcd\u{2026}");
    assert_eq!(summarize("", 10), "");
    assert_eq!(truncate("", 10), "ok");
    assert_eq!(truncate("abc", 10), "abc");
    assert_eq!(truncate("abcdef", 3), "abc\u{2026}");
}

#[test]
fn config_scripts_wrap_the_snippet() {
    assert_eq!(
        ios_config_script(" ntp server 1.1.1.1 \n"),
        "configure terminal\nntp server 1.1.1.1\nend\nwrite memory",
    );
    assert_eq!(
        ssh_config_script("ntp server 1.1.1.1"),
        "configure terminal\nntp server 1.1.1.1\nend\nwrite memory",
    );
}

#[test]
fn render_diff_marks_changed_lines() {
    let diff = render_diff("a\nb\n", "a\nc\n");
    assert_eq!(diff, " a\n-b\n+c\n");
    let same = render_diff("x\n", "x\n");
    assert_eq!(same, " x\n");
}

#[test]
fn netconf_payloads_are_framed() {
    assert!(netconf_hello().ends_with(NETCONF_EOM));
    let rpc = netconf_rpc_payload(7, "<get-config/>");
    assert_eq!(
        rpc,
        "<?xml version=\"1.0\" encoding=\"UTF-8\"?><rpc message-id=\"7\" xmlns=\"urn:ietf:params:xml:ns:netconf:base:1.0\"><get-config/></rpc>]]>]]>",
    );

    let mut buf: Vec<u8> = b"<rpc-reply/>]]>]]>".to_vec();
    assert!(netconf_frame_complete(&buf));
    netconf_strip_eom(&mut buf);
    assert_eq!(buf, b"<rpc-reply/>".to_vec());
    assert!(!netconf_frame_complete(&b"<rpc-reply/>".to_vec()));

    assert!(netconf_reply_ok("<rpc-reply><ok/></rpc-reply>"));
    assert!(netconf_reply_ok("<rpc-reply><data/></rpc-reply>"));
    assert!(!netconf_reply_ok("<rpc-reply><rpc-error>bad</rpc-error></rpc-reply>"));
}

#[test]
fn json_escaping_covers_quotes_and_controls() {
    assert_eq!(json_escape("plain"), "plain");
    assert_eq!(json_escape("a\"b\\c"), "a\\\"b\\\\c");
    assert_eq!(json_escape("line1\nline2\t."), "line1\\nline2\\t.");
    assert_eq!(json_escape("\u{1}"), "\\u0001");
}

#[test]
fn nxapi_payload_embeds_the_escaped_input() {
    let payload = nxapi_payload("cli_show", "1", "show version");
    assert_eq!(
        payload,
        "{\"ins_api\":{\"version\":\"1.2\",\"type\":\"cli_show\",\"chunk\":\"0\",\"sid\":\"1\",\"input\":\"show version\",\"output_format\":\"json\"}}",
    );
}

fn nxapi_reply(entries: Vec<(Option<&str>, Option<&str>)>) -> NxapiResponse {
    NxapiResponse {
        raw: String::new(),
        parsed: NxapiEnvelope {
            ins_api: NxapiInner {
                outputs: NxapiOutputs {
                    output: entries
                        .into_iter()
                        .map(|(code, msg)| NxapiOutput {
                            code: code.map(|c| c.to_string()),
                            msg: msg.map(|m| m.to_string()),
                        })
                        .collect(),
                },
            },
        },
    }
}

#[test]
fn nxapi_envelope_success_and_summaries() {
    let ok = nxapi_reply(vec![(Some("200"), Some("done")), (None, None)]);
    assert!(ok.parsed.is_success());
    assert_eq!(ok.summary(), "done; ok");
    let messages = ok.command_summaries("n9k");
    assert_eq!(
        messages,
        vec![
            "[n9k] cmd#0 => code=200 msg=done".to_string(),
            "[n9k] cmd#1 => code=200 msg=ok".to_string(),
        ],
    );

    let failed = nxapi_reply(vec![(Some("400"), Some("CLI error"))]);
    assert!(!failed.parsed.is_success());

    let empty = nxapi_reply(Vec::new());
    assert_eq!(empty.summary(), "success");
}

#[test]
fn eapi_helpers_shape_endpoint_and_summaries() {
    assert_eq!(eapi_endpoint("10.0.0.5"), "https://10.0.0.5/command-api");
    assert_eq!(eapi_endpoint("https://sw1.lab/"), "https://sw1.lab/command-api");
    assert_eq!(eapi_endpoint("http://sw1.lab"), "http://sw1.lab/command-api");

    let entries = vec![
        EapiEntry { output: Some("Arista vEOS ".to_string()), messages: Vec::new() },
        EapiEntry { output: None, messages: vec!["queued".to_string()] },
        EapiEntry { output: None, messages: Vec::new() },
    ];
    let lines = eapi_command_summaries("sw1", &entries);
    assert_eq!(
        lines,
        vec![
            "[sw1] cmd#0 => Arista vEOS".to_string(),
            "[sw1] cmd#1 => queued".to_string(),
            "[sw1] cmd#2 => ok".to_string(),
        ],
    );
    let none = eapi_command_summaries("sw1", &Vec::new());
    assert_eq!(none, vec!["[sw1] eAPI call produced no output".to_string()]);
}

#[test]
fn eapi_request_body_runs_the_commands() {
    let commands = vec!["show version".to_string(), "show clock".to_string()];
    assert_eq!(
        eapi_run_cmds_payload(&commands),
        "{\"jsonrpc\":\"2.0\",\"method\":\"runCmds\",\"params\":{\"version\":1,\"cmds\":[\"show version\",\"show clock\"],\"format\":\"json\"},\"id\":\"netrust\"}",
    );
}

#[test]
fn meraki_endpoints_and_key_resolution() {
    assert_eq!(MerakiOperation::CommandBatch.as_str(), "command_batch");
    assert_eq!(
        MerakiOperation::CommandBatch.endpoint("N_123"),
        "https://api.meraki.com/api/v1/networks/N_123/commands/batch",
    );
    assert_eq!(
        MerakiOperation::ConfigPush.endpoint("N_123"),
        "https://api.meraki.com/api/v1/networks/N_123/config_templates/apply",
    );

    let token = Credential::Token { token: "SECRET-REDACTED".to_string() };
    assert_eq!(meraki_api_key(&token, "ap1").unwrap(), "SECRET-REDACTED");

    let password = Credential::UserPassword {
        username: "admin".to_string(),
        password: "SECRET-REDACTED".to_string(),
    };
    assert_eq!(meraki_api_key(&password, "ap1").unwrap(), "SECRET-REDACTED");

    let key = Credential::SshKey {
        username: "admin".to_string(),
        key_path: "/keys/id".to_string(),
        passphrase: None,
    };
    let err = meraki_api_key(&key, "ap1").unwrap_err();
    assert!(err.starts_with("unsupported credential type "));
    assert!(err.ends_with(" for Meraki device ap1"));
    assert!(err.contains("passphrase: ******"));
}

#[test]
fn meraki_payloads_quote_their_fields() {
    let commands = vec!["show version".to_string(), "show \"clock\"".to_string()];
    assert_eq!(
        meraki_batch_payload("ap1", &commands),
        "{\"device_id\":\"ap1\",\"commands\":[\"show version\",\"show \\\"clock\\\"\"]}",
    );
    assert_eq!(
        meraki_config_payload("ap1", "vlan 10\n name users"),
        "{\"device_id\":\"ap1\",\"template_snippet\":\"vlan 10\\n name users\"}",
    );
}

#[test]
fn retry_policy_is_linear_and_transport_only() {
    assert_eq!(backoff_delay_ms(0), 200);
    assert_eq!(backoff_delay_ms(1), 400);
    assert_eq!(backoff_delay_ms(2), 600);
    assert!(should_retry(0, 2, true));
    assert!(should_retry(1, 2, true));
    assert!(!should_retry(2, 2, true));
    assert!(!should_retry(0, 2, false));
}

#[test]
fn driver_tunables_fall_back_to_defaults() {
    assert_eq!(ssh_command_timeout(None), 30);
    assert_eq!(ssh_command_timeout(Some(5)), 5);
    assert_eq!(http_timeout(None), 15);
    assert_eq!(http_retry_limit(None), 2);
    assert_eq!(http_retry_limit(Some(0)), 2);
    assert_eq!(http_retry_limit(Some(4)), 4);
}

#[test]
fn ssh_auth_follows_the_credential_shape() {
    let password = Credential::UserPassword {
        username: "admin".to_string(),
        password: "SECRET-REDACTED".to_string(),
    };
    match ssh_auth_plan(&password).unwrap() {
        SshAuthPlan::Password { username } => assert_eq!(username, "admin"),
        _ => panic!("expected password auth"),
    }

    let key = Credential::SshKey {
        username: "admin".to_string(),
        key_path: "/keys/id".to_string(),
        passphrase: Some("SECRET-REDACTED".to_string()),
    };
    match ssh_auth_plan(&key).unwrap() {
        SshAuthPlan::KeyFile { username, key_path, has_passphrase } => {
            assert_eq!(username, "admin");
            assert_eq!(key_path, "/keys/id");
            assert!(has_passphrase);
        },
        _ => panic!("expected key auth"),
    }

    let token = Credential::Token { token: "SECRET-REDACTED".to_string() };
    assert_eq!(
        ssh_auth_plan(&token).unwrap_err(),
        "token-based credential cannot be used for SSH",
    );
}
