use qr_paste::client::config::{
    default_grpc_port_for_server_host, validate_server_host, ClientConfig, RawClientConfig,
};

fn raw(host: &str, token: &str) -> RawClientConfig {
    RawClientConfig::with_defaults(host.to_string(), token.to_string())
}

fn config(host: &str, token: &str) -> ClientConfig {
    raw(host, token).into()
}

#[test]
fn https_server_host_defaults_to_443() {
    assert_eq!(default_grpc_port_for_server_host("https://cg.keivry.ren"), 443);
}

#[test]
fn plain_server_host_defaults_to_50051() {
    assert_eq!(default_grpc_port_for_server_host("relay.example.com"), 50051);
}

#[test]
fn config_defaults_are_correct() {
    let cfg = config("example.com", "shared-secret");
    assert_eq!(cfg.grpc_port, 50051);
    assert!(!cfg.auto_paste);
    assert_eq!(cfg.paste_delay_ms, 150);
    assert_eq!(cfg.reconnect_interval_secs, 5);
    assert_eq!(cfg.max_reconnect_attempts, 0);
    assert!(!cfg.start_minimized);
    assert!(!cfg.minimize_on_close);
    assert_eq!(cfg.notification_duration_secs, 3);
}

#[test]
fn config_custom_values_override_defaults() {
    let mut raw = raw("relay.example.com", "shared-secret");
    raw.grpc_port = Some(9090);
    raw.auto_paste = false;
    raw.paste_delay_ms = 300;
    raw.max_reconnect_attempts = 5;
    raw.start_minimized = true;
    raw.minimize_on_close = true;
    raw.notification_duration_secs = 10;
    let cfg: ClientConfig = raw.into();
    assert_eq!(cfg.server_host, "relay.example.com");
    assert_eq!(cfg.grpc_auth_token, "shared-secret");
    assert_eq!(cfg.grpc_port, 9090);
    assert!(!cfg.auto_paste);
    assert_eq!(cfg.paste_delay_ms, 300);
    assert_eq!(cfg.max_reconnect_attempts, 5);
    assert!(cfg.start_minimized);
    assert!(cfg.minimize_on_close);
    assert_eq!(cfg.notification_duration_secs, 10);
    assert_eq!(cfg.reconnect_interval_secs, 5);
}

#[test]
fn empty_server_host_rejected() {
    let cfg = config("", "shared-secret");
    assert!(cfg.server_host.is_empty());
    let error = cfg.validate().expect_err("empty host should fail validation");
    assert!(error.contains("server_host"));
}

#[test]
fn empty_grpc_auth_token_rejected() {
    let cfg = config("relay.example.com", "");
    let error = cfg.validate().expect_err("empty auth token should fail validation");
    assert!(error.contains("grpc_auth_token"));
}

#[test]
fn https_server_host_is_allowed() {
    let cfg = config("https://cg.keivry.ren", "shared-secret");
    cfg.validate().expect("https endpoint should be accepted");
    assert_eq!(cfg.grpc_port, 443);
}

#[test]
fn explicit_grpc_port_overrides_https_default() {
    let mut raw = raw("https://cg.keivry.ren", "shared-secret");
    raw.grpc_port = Some(8443);
    let cfg: ClientConfig = raw.into();
    assert_eq!(cfg.grpc_port, 8443);
}

#[test]
fn server_host_with_path_is_rejected() {
    let cfg = config("https://cg.keivry.ren/grpc", "shared-secret");
    let error = cfg.validate().expect_err("server_host with path should fail validation");
    assert!(error.contains("server_host"));
}

#[test]
fn server_hosts_are_checked() {
    assert!(validate_server_host(" relay.example.com/ ").is_ok());
    assert_eq!(
        validate_server_host("ftp://relay.example.com").unwrap_err(),
        "client.toml 中的 server_host 仅支持 http:// 或 https:// 协议。"
    );
    assert_eq!(
        validate_server_host("https:///").unwrap_err(),
        "client.toml 中的 server_host 缺少主机名。"
    );
    assert_eq!(
        validate_server_host("relay?x").unwrap_err(),
        "client.toml 中的 server_host 只能填写主机名、IP，或不带路径的 http(s):// 地址。"
    );
    assert_eq!(
        config("relay", "  ").validate().unwrap_err(),
        "client.toml 中必须填写 grpc_auth_token。"
    );
}
