use codexmanager_hub::{
    build_register_payload, build_rpc_url, normalize_service_addr, summarize_statuses,
    DuckMailGenerateInput, DuckMailInput, RegisterInput,
};

#[test]
fn normalize_service_addr_accepts_scheme_and_port() {
    assert_eq!(
        normalize_service_addr("http://localhost:48760/"),
        Some("localhost:48760".to_string())
    );
}

#[test]
fn normalize_service_addr_accepts_host_port() {
    assert_eq!(
        normalize_service_addr("127.0.0.1:9999"),
        Some("127.0.0.1:9999".to_string())
    );
}

#[test]
fn normalize_service_addr_accepts_port_only() {
    assert_eq!(
        normalize_service_addr("48760"),
        Some("localhost:48760".to_string())
    );
}

#[test]
fn build_rpc_url_uses_normalized_addr() {
    assert_eq!(
        build_rpc_url("localhost:48760"),
        "http://localhost:48760/rpc"
    );
}

#[test]
fn summarize_statuses_counts_by_status() {
    let summary = summarize_statuses(&["active", "active", "inactive", "", "low"]);
    assert_eq!(summary.total, 4);
    assert_eq!(summary.by_status.get("active"), Some(&2));
    assert_eq!(summary.by_status.get("inactive"), Some(&1));
    assert_eq!(summary.by_status.get("low"), Some(&1));
}

#[test]
fn register_payload_prefers_accounts_when_provided() {
    let input = RegisterInput {
        accounts: Some("demo@outlook.com----pass".to_string()),
        proxy: Some("".to_string()),
        workers: Some(3),
        login_mode: Some(false),
        skip_finished: Some(true),
        duckmail: Some(DuckMailInput {
            base_url: Some("https://api.duckmail.sbs".to_string()),
            api_key: Some("dk_test".to_string()),
            mailbox_password: Some("Duck123!".to_string()),
            poll_seconds: Some(3),
        }),
        duckmail_generate: Some(DuckMailGenerateInput {
            domain: Some("duckmail.sbs".to_string()),
            prefix: Some("duck".to_string()),
            count: Some(2),
            openai_password: Some("Qwer1234!".to_string()),
        }),
    };

    let payload = build_register_payload(&input).expect("payload");
    assert_eq!(payload.accounts.as_str(), "demo@outlook.com----pass");
    assert!(payload.duckmail.is_none());
}

#[test]
fn register_payload_defaults_to_duckmail_when_accounts_empty() {
    let input = RegisterInput {
        accounts: Some("".to_string()),
        proxy: Some("http://127.0.0.1:8080".to_string()),
        workers: Some(4),
        login_mode: Some(false),
        skip_finished: Some(true),
        duckmail: Some(DuckMailInput {
            base_url: Some("https://api.duckmail.sbs".to_string()),
            api_key: None,
            mailbox_password: Some("Duck123!".to_string()),
            poll_seconds: Some(3),
        }),
        duckmail_generate: Some(DuckMailGenerateInput {
            domain: Some("duckmail.sbs".to_string()),
            prefix: Some("duck".to_string()),
            count: Some(2),
            openai_password: Some("Qwer1234!".to_string()),
        }),
    };

    let payload = build_register_payload(&input).expect("payload");
    let accounts = payload.accounts.as_str();
    let lines: Vec<&str> = accounts.lines().collect();
    assert_eq!(lines.len(), 2);
    for line in lines {
        assert!(line.starts_with("duck"));
        assert!(line.contains("@duckmail.sbs"));
        assert!(line.ends_with("----Qwer1234!"));
    }
    assert!(payload.duckmail.is_some());
}

#[test]
fn register_payload_requires_duckmail_when_accounts_missing() {
    let input = RegisterInput {
        accounts: None,
        proxy: None,
        workers: None,
        login_mode: None,
        skip_finished: None,
        duckmail: None,
        duckmail_generate: None,
    };

    let err = build_register_payload(&input).expect_err("expected error");
    assert!(err.contains("DuckMail"));
}
