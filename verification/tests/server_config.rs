use qr_paste::net::{Ip, UrlHost, UrlParts};
use qr_paste::server::config::{
    check_public_url, choose_client_ip, normalize_origin, origin_from_parts, parse_ip_header, parse_rightmost_forwarded_ip, validate_public_base_url,
    ServerConfig, TrustedProxyCidrs,
};

const VALID_GRPC_AUTH_TOKEN: &str = "shared-secret-xx";
const ANOTHER_VALID_GRPC_AUTH_TOKEN: &str = "another-secret-yy";

fn config(url: &str, token: &str) -> ServerConfig {
    ServerConfig::with_defaults(url.to_string(), token.to_string())
}

fn v4(a: u8, b: u8, c: u8, d: u8) -> Ip {
    Ip::V4(u32::from_be_bytes([a, b, c, d]))
}

fn cidrs(values: &[&str]) -> TrustedProxyCidrs {
    let values: Vec<String> = values.iter().map(|v| v.to_string()).collect();
    TrustedProxyCidrs::parse(&values).expect("trusted proxies should parse")
}

#[test]
fn defaults_are_correct() {
    let cfg = config("https://example.com", "shared-secret-xx");
    assert_eq!(cfg.grpc_port, 50051);
    assert_eq!(cfg.http_port, 8080);
    assert_eq!(cfg.http_bind_host, v4(127, 0, 0, 1));
    assert_eq!(cfg.grpc_bind_host, v4(127, 0, 0, 1));
    assert_eq!(cfg.token_expiry_secs, 300);
    assert_eq!(cfg.token_cleanup_interval_secs, 60);
    assert_eq!(cfg.ws_rate_limit_per_ip_per_min, 10);
    assert_eq!(cfg.http_rate_limit_per_ip_per_min, 20);
    assert_eq!(cfg.max_ws_connections, 100);
    assert_eq!(cfg.max_message_size_bytes, 65536);
    assert_eq!(cfg.ws_idle_timeout_secs, 90);
    assert_eq!(cfg.grpc_keepalive_interval_secs, 60);
    assert_eq!(cfg.grpc_keepalive_timeout_secs, 20);
    assert_eq!(cfg.log_level, "info");
    assert!(cfg.trusted_proxy_cidrs.is_empty());
}

#[test]
fn custom_values_override_defaults() {
    let mut cfg = config("https://relay.example.com", "another-secret-yy");
    cfg.grpc_port = 9090;
    cfg.http_port = 8443;
    cfg.grpc_bind_host = v4(0, 0, 0, 0);
    cfg.http_bind_host = v4(0, 0, 0, 0);
    cfg.token_expiry_secs = 600;
    cfg.log_level = "debug".to_string();
    cfg.trusted_proxy_cidrs = vec!["127.0.0.1/32".to_string(), "10.0.0.0/8".to_string()];
    assert_eq!(cfg.public_base_url, "https://relay.example.com");
    assert_eq!(cfg.grpc_auth_token, ANOTHER_VALID_GRPC_AUTH_TOKEN);
    assert_eq!(cfg.grpc_port, 9090);
    assert_eq!(cfg.http_port, 8443);
    assert_eq!(cfg.grpc_bind_host, v4(0, 0, 0, 0));
    assert_eq!(cfg.http_bind_host, v4(0, 0, 0, 0));
    assert_eq!(cfg.token_expiry_secs, 600);
    assert_eq!(cfg.log_level, "debug");
    assert_eq!(
        cfg.trusted_proxy_cidrs,
        vec!["127.0.0.1/32".to_string(), "10.0.0.0/8".to_string()]
    );
    assert_eq!(cfg.ws_idle_timeout_secs, 90);
    assert!(cfg.validate().is_ok());
}

#[test]
fn invalid_trusted_proxy_cidr_rejected_at_validation() {
    let mut cfg = config("https://relay.example.com", "shared-secret-xx");
    cfg.trusted_proxy_cidrs = vec!["not-a-cidr".to_string()];
    let error = cfg.validate().expect_err("invalid trusted_proxy_cidrs should fail validation");
    assert!(error.to_string().contains("trusted_proxy_cidrs"));
}

#[test]
fn trusted_proxy_ranges_use_rightmost_x_forwarded_for_for_trusted_peer() {
    let trusted = cidrs(&["127.0.0.0/8"]);
    let resolved = trusted.resolve_client_ip(
        v4(127, 0, 0, 1),
        Some("198.51.100.10, 203.0.113.7"),
        Some("192.0.2.5"),
    );
    assert_eq!(resolved, v4(203, 0, 113, 7));
}

#[test]
fn trusted_proxy_ranges_fall_back_to_x_real_ip_only_when_xff_missing() {
    let trusted = cidrs(&["127.0.0.0/8"]);
    let resolved = trusted.resolve_client_ip(v4(127, 0, 0, 1), None, Some("192.0.2.5"));
    assert_eq!(resolved, v4(192, 0, 2, 5));
}

#[test]
fn trusted_proxy_ranges_ignore_headers_for_untrusted_peer() {
    let trusted = cidrs(&["127.0.0.1/32"]);
    let resolved =
        trusted.resolve_client_ip(v4(10, 0, 0, 5), Some("203.0.113.7"), Some("192.0.2.5"));
    assert_eq!(resolved, v4(10, 0, 0, 5));
}

#[test]
fn trusted_proxy_ranges_fall_back_to_peer_ip_on_invalid_xff() {
    let trusted = cidrs(&["127.0.0.0/8"]);
    let resolved =
        trusted.resolve_client_ip(v4(127, 0, 0, 1), Some("not-an-ip"), Some("192.0.2.5"));
    assert_eq!(resolved, v4(127, 0, 0, 1));
}

#[test]
fn empty_public_base_url_rejected_at_validation() {
    let cfg = config("", "shared-secret-xx");
    assert!(cfg.public_base_url.is_empty());
    let error = cfg.validate().expect_err("empty public_base_url should fail validation");
    assert!(error.to_string().contains("public_base_url"));
}

#[test]
fn empty_grpc_auth_token_rejected_at_validation() {
    let cfg = config("https://relay.example.com", "");
    let error = cfg.validate().expect_err("empty grpc_auth_token should fail validation");
    assert!(error.to_string().contains("grpc_auth_token"));
}

#[test]
fn short_grpc_auth_token_rejected_at_validation() {
    let cfg = config("https://relay.example.com", "short-token");
    let error = cfg.validate().expect_err("short grpc_auth_token should fail validation");
    assert!(error.to_string().contains("grpc_auth_token"));
}

#[test]
fn zero_token_cleanup_interval_rejected_at_validation() {
    let mut cfg = config("https://relay.example.com", "shared-secret-xx");
    cfg.token_cleanup_interval_secs = 0;
    let error =
        cfg.validate().expect_err("zero token_cleanup_interval_secs should fail validation");
    assert!(error.to_string().contains("token_cleanup_interval_secs"));
}

#[test]
fn zero_token_expiry_secs_rejected_at_validation() {
    let mut cfg = config("https://relay.example.com", "shared-secret-xx");
    cfg.token_expiry_secs = 0;
    let error = cfg.validate().expect_err("zero token_expiry_secs should fail validation");
    assert!(error.to_string().contains("token_expiry_secs"));
}

#[test]
fn zero_ws_idle_timeout_secs_rejected_at_validation() {
    let mut cfg = config("https://relay.example.com", "shared-secret-xx");
    cfg.ws_idle_timeout_secs = 0;
    let error = cfg.validate().expect_err("zero ws_idle_timeout_secs should fail validation");
    assert!(error.to_string().contains("ws_idle_timeout_secs"));
}

#[test]
fn http_non_loopback_rejected_at_validation() {
    let cfg = config("http://relay.example.com", "shared-secret-xx");
    let error = cfg.validate().expect_err("http:// non-loopback should fail validation");
    assert!(error.to_string().contains("https://"));
}

#[test]
fn http_localhost_allowed_at_validation() {
    let cfg = config("http://localhost:8080", "shared-secret-xx");
    cfg.validate().expect("http://localhost should be allowed");
}

#[test]
fn http_ipv6_loopback_allowed_at_validation() {
    let cfg = config("http://[::1]:8080", VALID_GRPC_AUTH_TOKEN);
    cfg.validate().expect("http://[::1] should be allowed for local dev");
}

#[test]
fn https_loopback_rejected_at_validation() {
    for url in &["https://127.0.0.1", "https://localhost", "https://[::1]"] {
        let cfg = config(url, VALID_GRPC_AUTH_TOKEN);
        cfg.validate().expect_err(&format!("https loopback {url} should be rejected"));
    }
}

#[test]
fn https_private_rejected_at_validation() {
    for url in &[
        "https://10.0.0.1",
        "https://192.168.1.1",
        "https://172.16.0.1",
        "https://172.31.255.255",
        "https://169.254.1.1",
    ] {
        let cfg = config(url, VALID_GRPC_AUTH_TOKEN);
        cfg.validate().expect_err(&format!("https private {url} should be rejected"));
    }
}

#[test]
fn https_ipv6_non_public_rejected_at_validation() {
    for url in &["https://[fd00::1]", "https://[fc00::1]", "https://[fe80::1]", "https://[febf::1]"]
    {
        let cfg = config(url, VALID_GRPC_AUTH_TOKEN);
        cfg.validate().expect_err(&format!("https IPv6 non-public {url} should be rejected"));
    }
}

#[test]
fn trusted_client_ip_extractor_uses_peer_ip_for_untrusted_proxy() {
    let trusted = cidrs(&["127.0.0.1/32"]);
    let ip = trusted.resolve_client_ip(v4(10, 0, 0, 5), Some("198.51.100.10, 203.0.113.7"), None);
    assert_eq!(ip, v4(10, 0, 0, 5));
}

#[test]
fn trusted_client_ip_extractor_uses_rightmost_xff_for_trusted_proxy() {
    let trusted = cidrs(&["127.0.0.1/32"]);
    let ip = trusted.resolve_client_ip(v4(127, 0, 0, 1), Some("198.51.100.10, 203.0.113.7"), None);
    assert_eq!(ip, v4(203, 0, 113, 7));
}

#[test]
fn no_ranges_trust_nobody() {
    assert!(!TrustedProxyCidrs::none().trusts_peer(v4(127, 0, 0, 1)));
    let trusted = cidrs(&["10.0.0.0/8", "fd00::/8"]);
    assert!(trusted.trusts_peer(v4(10, 255, 0, 1)));
    assert!(!trusted.trusts_peer(v4(11, 0, 0, 1)));
    assert!(trusted.trusts_peer(Ip::V6(0xfd00_u128 << 112)));
    assert!(!trusted.trusts_peer(Ip::V6(1)));
}

#[test]
fn forwarded_addresses_are_read_from_the_right() {
    assert_eq!(parse_rightmost_forwarded_ip("1.2.3.4, ::1"), Some(Ip::V6(1)));
    assert_eq!(parse_rightmost_forwarded_ip("1.2.3.4, x"), None);
    assert_eq!(parse_ip_header(Some(" 1.2.3.4 ")), Some(v4(1, 2, 3, 4)));
    assert_eq!(parse_ip_header(None), None);
}

#[test]
fn origins_are_normalized() {
    assert_eq!(normalize_origin("https://Example.com:443").unwrap(), "https://example.com");
    assert_eq!(normalize_origin("https://example.com:8443").unwrap(), "https://example.com:8443");
    assert!(normalize_origin("not a url").is_err());
    let cfg = config("https://Relay.example.com:444", VALID_GRPC_AUTH_TOKEN);
    assert_eq!(cfg.normalized_public_origin().unwrap(), "https://relay.example.com:444");
}

#[test]
fn public_base_urls_are_checked() {
    assert!(validate_public_base_url("https://relay.example.com").is_ok());
    let error = |url: &str| validate_public_base_url(url).unwrap_err();
    assert!(error("https://").starts_with("public_base_url 不是合法 URL："));
    assert_eq!(error("https://u:p@relay.example.com"), "public_base_url 不能包含 userinfo");
    assert_eq!(error("https://relay.example.com?q"), "public_base_url 不能包含 query");
    assert_eq!(error("https://relay.example.com#f"), "public_base_url 不能包含 fragment");
    assert_eq!(error("https://relay.example.com/p"), "public_base_url 不能包含非根路径");
    assert_eq!(
        error("http://relay.example.com"),
        "public_base_url 必须使用 https:// 协议（生产环境）；检测到非 loopback 地址的 http:// 配置"
    );
    assert_eq!(
        error("https://10.0.0.1"),
        "public_base_url 不能设为内网/loopback 地址（检测到 10.0.0.1）；请配置手机可访问的公网地址"
    );
}

#[test]
fn an_accepted_configuration_is_usable() {
    let mut cfg = config("https://relay.example.com", VALID_GRPC_AUTH_TOKEN);
    cfg.trusted_proxy_cidrs = vec!["192.0.2.0/24".to_string()];
    assert!(cfg.validate().is_ok());
    assert!(cfg.trusted_proxy_ranges().is_ok());
    assert!(cfg.normalized_public_origin().is_ok());
    cfg.trusted_proxy_cidrs = vec!["192.0.2.0".to_string()];
    assert!(cfg.trusted_proxy_ranges().is_err());
}

#[test]
fn parsed_addresses_are_checked() {
    let parts = || UrlParts {
        scheme: "https".to_string(),
        username: String::new(),
        password: None,
        host_str: Some("relay.example.com".to_string()),
        port: Some(8443),
        path: "/".to_string(),
        query: None,
        fragment: None,
    };
    let domain = Some(UrlHost::Domain("relay.example.com".to_string()));
    assert_eq!(check_public_url(&parts(), &domain), Ok(()));
    assert_eq!(origin_from_parts(&parts()).unwrap(), "https://relay.example.com:8443");
    let private = Some(UrlHost::V4(0x0a00_0001));
    assert!(check_public_url(&parts(), &private).is_err());
    let mut clear = parts();
    clear.scheme = "http".to_string();
    assert!(check_public_url(&clear, &domain).is_err());
    assert_eq!(check_public_url(&clear, &Some(UrlHost::V6(1))), Ok(()));
    let mut nowhere = parts();
    nowhere.host_str = None;
    assert_eq!(check_public_url(&nowhere, &None).unwrap_err(), "origin 缺少主机名");
    let mut secret = parts();
    secret.password = Some("p".to_string());
    assert!(check_public_url(&secret, &domain).unwrap_err().contains("userinfo"));
}

#[test]
fn claims_count_only_from_trusted_peers() {
    let (peer, one, two) = (v4(127, 0, 0, 1), v4(1, 1, 1, 1), v4(2, 2, 2, 2));
    assert_eq!(choose_client_ip(false, peer, Some(Some(one)), Some(two)), peer);
    assert_eq!(choose_client_ip(true, peer, Some(Some(one)), Some(two)), one);
    assert_eq!(choose_client_ip(true, peer, Some(None), Some(two)), peer);
    assert_eq!(choose_client_ip(true, peer, None, Some(two)), two);
    assert_eq!(choose_client_ip(true, peer, None, None), peer);
}
