use codexmanager_hub::{
    build_register_payload, build_rpc_url, duckmail_accounts_text, front_proxy_disabled,
    generate_duckmail_accounts, normalize_service_addr, register_api_url,
    resolve_default_rpc_token_path, resolve_hub_addr, resolve_register_base_url, resolve_rpc_token,
    resolve_service_addr, rpc_step, rpc_token_from_file, setting_value, summarize_statuses,
    DuckMailGenerateInput, DuckMailInput, RegisterInput, RpcAction, RpcEvent, RpcResultFacts,
    RpcTokenSource,
};

fn s(v: &str) -> String {
    v.to_string()
}

fn duckmail_input(password: &str, generate: Option<DuckMailGenerateInput>) -> RegisterInput {
    RegisterInput {
        accounts: Some(s("   ")),
        proxy: None,
        workers: None,
        login_mode: None,
        skip_finished: None,
        duckmail: Some(DuckMailInput {
            base_url: None,
            api_key: Some(s("  ")),
            mailbox_password: Some(s(password)),
            poll_seconds: Some(-7),
        }),
        duckmail_generate: generate,
    }
}

#[test]
fn normalize_strips_schemes_paths_and_whitespace() {
    assert_eq!(normalize_service_addr("  https://example.com:8443/rpc/x  "), Some(s("example.com:8443")));
    assert_eq!(normalize_service_addr("http://https://host:1"), Some(s("host:1")));
    assert_eq!(normalize_service_addr("myhost/path"), Some(s("myhost")));
    assert_eq!(normalize_service_addr("http://9000/"), Some(s("localhost:9000")));
}

#[test]
fn normalize_rejects_blank_and_pathless_inputs() {
    assert_eq!(normalize_service_addr(""), None);
    assert_eq!(normalize_service_addr(" \t\n "), None);
    assert_eq!(normalize_service_addr("http://"), None);
    assert_eq!(normalize_service_addr("/rpc"), None);
}

#[test]
fn normalize_is_idempotent_on_its_results() {
    for raw in ["48760", "http://a.b:1/x", "host", " https://x.y/ "] {
        let once = normalize_service_addr(raw).unwrap();
        assert_eq!(normalize_service_addr(&once), Some(once.clone()));
        assert_eq!(build_rpc_url(&once), build_rpc_url(raw));
    }
}

#[test]
fn build_rpc_url_falls_back_to_default_address() {
    assert_eq!(build_rpc_url("   "), "http://localhost:48760/rpc");
    assert_eq!(build_rpc_url("7000"), "http://localhost:7000/rpc");
}

#[test]
fn register_api_url_trims_slashes_of_action() {
    assert_eq!(register_api_url("http://r:8899", "/start/"), "http://r:8899/api/start");
    assert_eq!(register_api_url("http://r:8899", "status"), "http://r:8899/api/status");
    assert_eq!(register_api_url("b", "//"), "b/api/");
}

#[test]
fn summarize_lowers_and_trims_keys() {
    let summary = summarize_statuses(&["Active", " ACTIVE ", "\tdisabled", "   "]);
    assert_eq!(summary.total, 3);
    assert_eq!(summary.by_status.len(), 2);
    assert_eq!(summary.by_status.get("active"), Some(&2));
    assert_eq!(summary.by_status.get("disabled"), Some(&1));
    assert_eq!(summary.by_status.get("Active"), None);
}

#[test]
fn summarize_ignores_order_and_blanks() {
    let a = summarize_statuses(&["x", "y", "", "x"]);
    let b = summarize_statuses(&["x", "x", "y"]);
    assert_eq!(a.total, b.total);
    assert_eq!(a.by_status, b.by_status);
    let sum: usize = a.by_status.values().sum();
    assert_eq!(sum, a.total);
    let empty = summarize_statuses(&[]);
    assert_eq!(empty.total, 0);
    assert!(empty.by_status.is_empty());
}

#[test]
fn register_payload_defaults_workers_and_flags() {
    let input = RegisterInput {
        accounts: Some(s("  a@b.c----p \n")),
        proxy: None,
        workers: Some(0),
        login_mode: None,
        skip_finished: None,
        duckmail: None,
        duckmail_generate: None,
    };
    let payload = build_register_payload(&input).unwrap();
    assert_eq!(payload.accounts, "a@b.c----p");
    assert_eq!(payload.proxy, "");
    assert_eq!(payload.workers, 1);
    assert!(!payload.login_mode);
    assert!(!payload.skip_finished);
}

#[test]
fn register_payload_rejects_short_mailbox_password() {
    let err = build_register_payload(&duckmail_input(" 12345 ", None)).unwrap_err();
    assert_eq!(err, "DuckMail 邮箱密码至少 6 位");
    // Six bytes of UTF-8 are enough, however few characters they make.
    assert!(build_register_payload(&duckmail_input("密码", None)).is_ok());
}

#[test]
fn register_payload_rejects_blank_domain_and_password() {
    let blank_domain = DuckMailGenerateInput {
        domain: Some(s("  ")),
        prefix: None,
        count: None,
        openai_password: None,
    };
    assert_eq!(
        build_register_payload(&duckmail_input("secret1", Some(blank_domain))).unwrap_err(),
        "DuckMail 域名不能为空"
    );
    let blank_password = DuckMailGenerateInput {
        domain: None,
        prefix: None,
        count: None,
        openai_password: Some(s(" ")),
    };
    assert_eq!(
        build_register_payload(&duckmail_input("secret1", Some(blank_password))).unwrap_err(),
        "OpenAI 密码不能为空"
    );
    let missing = RegisterInput { duckmail: None, ..duckmail_input("secret1", None) };
    assert_eq!(
        build_register_payload(&missing).unwrap_err(),
        "未提供账号列表，需填写 DuckMail 配置"
    );
}

#[test]
fn register_payload_generates_with_defaults() {
    let gen = DuckMailGenerateInput { domain: None, prefix: None, count: Some(-2), openai_password: None };
    let payload = build_register_payload(&duckmail_input("  secret1  ", Some(gen))).unwrap();
    let lines: Vec<&str> = payload.accounts.split('\n').collect();
    assert_eq!(lines.len(), 5);
    for line in &lines {
        assert!(line.starts_with("duck"));
        assert!(line.ends_with("@duckmail.sbs----Qwer1234!"));
    }
    let settings = payload.duckmail.unwrap();
    assert_eq!(settings.base_url, "https://api.duckmail.sbs");
    assert_eq!(settings.api_key, None);
    assert_eq!(settings.mailbox_password, "secret1");
    assert_eq!(settings.poll_seconds, 1);
}

#[test]
fn duckmail_accounts_text_is_exact() {
    let parts = vec![s("AbC1x9"), s("zz00QQ")];
    let suffixes = vec![7u16, 999u16];
    let text = duckmail_accounts_text("pre", &parts, &suffixes, "d.io", "pw");
    assert_eq!(text, "preabc1x97@d.io----pw\nprezz00qq999@d.io----pw");
    assert_eq!(duckmail_accounts_text("pre", &vec![], &vec![], "d.io", "pw"), "");
}

#[test]
fn generated_accounts_have_random_lowercase_parts() {
    let text = generate_duckmail_accounts(20, "m.x", "p", "pw").unwrap();
    let lines: Vec<&str> = text.split('\n').collect();
    assert_eq!(lines.len(), 20);
    for line in lines {
        let body = line.strip_prefix('p').unwrap().strip_suffix("@m.x----pw").unwrap();
        let (part, digits) = body.split_at(6);
        assert!(part.chars().all(|c| c.is_ascii_lowercase() || c.is_ascii_digit()));
        assert!(!digits.is_empty() && digits.len() <= 3);
        assert!(digits.parse::<u16>().unwrap() < 1000);
    }
    assert_eq!(generate_duckmail_accounts(0, "m.x", "p", "pw"), Ok(s("")));
}

#[test]
fn rpc_step_decides_each_event() {
    assert!(matches!(rpc_step(RpcEvent::SendFailed(s("refused"))), RpcAction::Fail(m) if m == "rpc request failed: refused"));
    assert!(matches!(rpc_step(RpcEvent::Responded { success: true, status: s("200 OK") }), RpcAction::ReadBody));
    assert!(matches!(rpc_step(RpcEvent::Responded { success: false, status: s("502 Bad Gateway") }), RpcAction::Fail(m) if m == "rpc status 502 Bad Gateway"));
    assert!(matches!(rpc_step(RpcEvent::BodyUnreadable(s("eof"))), RpcAction::Fail(m) if m == "eof"));
    assert!(matches!(rpc_step(RpcEvent::Body { error: Some(s("{\"code\":1}")), result: None }), RpcAction::Fail(m) if m == "rpc error: {\"code\":1}"));
    let failed = RpcResultFacts { has_error: true, error_text: Some(s("denied")) };
    assert!(matches!(rpc_step(RpcEvent::Body { error: None, result: Some(failed) }), RpcAction::Fail(m) if m == "denied"));
    let odd = RpcResultFacts { has_error: true, error_text: None };
    assert!(matches!(rpc_step(RpcEvent::Body { error: None, result: Some(odd) }), RpcAction::Fail(m) if m == "rpc result error"));
    let fine = RpcResultFacts { has_error: false, error_text: None };
    assert!(matches!(rpc_step(RpcEvent::Body { error: None, result: Some(fine) }), RpcAction::ReturnResult));
    assert!(matches!(rpc_step(RpcEvent::Body { error: None, result: None }), RpcAction::ReturnBody));
}

#[test]
fn settings_fall_back_to_defaults() {
    assert_eq!(setting_value(Some(s("  v  "))), Some(s("v")));
    assert_eq!(setting_value(Some(s("   "))), None);
    assert_eq!(setting_value(None), None);
    assert_eq!(resolve_service_addr(None), "localhost:48760");
    assert_eq!(resolve_service_addr(Some(s("http://svc:1/"))), "svc:1");
    assert_eq!(resolve_service_addr(Some(s("http:///"))), "localhost:48760");
    assert_eq!(resolve_register_base_url(None), "http://auto-register-go:8899");
    assert_eq!(resolve_register_base_url(Some(s("http://r"))), "http://r");
    assert_eq!(resolve_hub_addr(None), "0.0.0.0:48800");
    assert_eq!(resolve_hub_addr(Some(s("127.0.0.1:1"))), "127.0.0.1:1");
}

#[test]
fn front_proxy_switch_reads_common_words() {
    for on in [" TRUE ", "1", "Yes", "on"] {
        assert!(front_proxy_disabled(Some(s(on))));
    }
    for off in ["0", "false", "", "enabled"] {
        assert!(!front_proxy_disabled(Some(s(off))));
    }
    assert!(!front_proxy_disabled(None));
}

#[test]
fn rpc_token_sources_in_order() {
    assert!(matches!(resolve_rpc_token(Some(s("t")), Some(s("f")), Some(s("/d/db"))), RpcTokenSource::Token(t) if t == "t"));
    assert!(matches!(resolve_rpc_token(None, Some(s("f")), Some(s("/d/db"))), RpcTokenSource::File(f) if f == "f"));
    assert!(matches!(resolve_rpc_token(None, None, Some(s("/d/db"))), RpcTokenSource::File(f) if f == "/d/codexmanager.rpc-token"));
    assert!(matches!(resolve_rpc_token(None, None, None), RpcTokenSource::Unconfigured(m) if m == "rpc token not configured"));
}

#[test]
fn default_token_path_sits_beside_database() {
    assert_eq!(resolve_default_rpc_token_path(Some(s("/var/lib/hub/db.sqlite"))), Some(s("/var/lib/hub/codexmanager.rpc-token")));
    assert_eq!(resolve_default_rpc_token_path(Some(s("db.sqlite"))), Some(s("codexmanager.rpc-token")));
    assert_eq!(resolve_default_rpc_token_path(Some(s("/"))), Some(s("codexmanager.rpc-token")));
    assert_eq!(resolve_default_rpc_token_path(None), None);
}

#[test]
fn token_file_contents_are_trimmed() {
    assert_eq!(rpc_token_from_file("/t", Some(s("  abc \n"))), Ok(s("abc")));
    assert_eq!(rpc_token_from_file("/t", Some(s(" \n"))), Err(s("rpc token file missing or empty: /t")));
    assert_eq!(rpc_token_from_file("/t", None), Err(s("rpc token file missing or empty: /t")));
}
