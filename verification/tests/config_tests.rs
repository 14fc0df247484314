use server::config::{
    is_placeholder, AppConfig, AuthConfig, ConfigError, CookieConfig, SameSite, SecurityConfig,
    ServerConfig,
};
use server::net::IpLiteral;

fn template(host: &str) -> AppConfig {
    AppConfig {
        server: ServerConfig {
            host: host.to_owned(),
            port: 3000,
            public_origin: "https://video.example.test".to_owned(),
            shutdown_grace_seconds: 15,
            session_ttl_hours: 8,
            pending_login_ttl_minutes: 5,
            download_ticket_ttl_seconds: 60,
            max_global_downloads: 4,
            max_downloads_per_user: 1,
            max_pending_logins: 20,
            max_qr_starts_per_minute: server::config::default_max_qr_starts_per_minute(),
            api_timeout_seconds: 30,
            upstream_connect_timeout_seconds: 10,
        },
        auth: AuthConfig {
            allowed_stable_ids: vec!["fake-stable-user-001".to_owned()],
            allowed_stable_id_hashes: vec![],
        },
        cookie: CookieConfig {
            name: "__Host-sjtu-canvas-session".to_owned(),
            secure: true,
            http_only: true,
            same_site: SameSite::Lax,
            path: "/".to_owned(),
            domain: None,
        },
        security: SecurityConfig {
            csrf_header: "x-csrf-token".to_owned(),
            trust_proxy_headers: false,
            max_request_body_bytes: 65536,
        },
    }
}

#[test]
fn accepts_loopback_bind_address() {
    let config = template("127.0.0.1");
    assert!(config.validate(Some(IpLiteral::V4(0x7f00_0001))).is_ok());
}

#[test]
fn rejects_public_bind_address() {
    let config = template("0.0.0.0");
    assert!(matches!(
        config.validate(Some(IpLiteral::V4(0))),
        Err(ConfigError::PublicBindForbidden(_))
    ));
}

#[test]
fn rejects_insecure_cookie_for_https_origin() {
    let mut config = template("127.0.0.1");
    config.cookie.name = "sjtu-canvas-session".to_owned();
    config.cookie.secure = false;
    assert!(config.validate(Some(IpLiteral::V4(0x7f00_0001))).is_err());
}

#[test]
fn insecure_cookie_reports_insecure_cookie() {
    let mut config = template("127.0.0.1");
    config.cookie.name = "sjtu-canvas-session".to_owned();
    config.cookie.secure = false;
    assert_eq!(
        config.validate(Some(IpLiteral::V4(0x7f00_0001))),
        Err(ConfigError::InsecureCookie)
    );
}

#[test]
fn unparsable_host_is_invalid_host() {
    let config = template("localhost");
    assert_eq!(
        config.validate(None),
        Err(ConfigError::InvalidHost("localhost".to_owned()))
    );
}

#[test]
fn ipv6_loopback_is_accepted_and_listen_address_keeps_port() {
    let config = template("::1");
    assert_eq!(config.listen_addr(Some(IpLiteral::V6(1))), Ok((IpLiteral::V6(1), 3000)));
    assert!(config.validate(Some(IpLiteral::V6(1))).is_ok());
}

#[test]
fn plain_http_public_origin_is_refused() {
    let mut config = template("127.0.0.1");
    config.server.public_origin = "http://video.example.test".to_owned();
    assert_eq!(
        config.validate(Some(IpLiteral::V4(0x7f00_0001))),
        Err(ConfigError::InvalidPublicOrigin("http://video.example.test".to_owned()))
    );
}

#[test]
fn http_loopback_origin_allows_insecure_cookie() {
    let mut config = template("127.0.0.1");
    config.server.public_origin = "http://127.0.0.1:3000".to_owned();
    config.cookie.name = "sjtu-canvas-session".to_owned();
    config.cookie.secure = false;
    assert!(config.validate(Some(IpLiteral::V4(0x7f00_0001))).is_ok());
}

#[test]
fn origin_with_path_is_refused() {
    let mut config = template("127.0.0.1");
    config.server.public_origin = "https://video.example.test/app".to_owned();
    assert!(matches!(
        config.validate(Some(IpLiteral::V4(0x7f00_0001))),
        Err(ConfigError::InvalidPublicOrigin(_))
    ));
}

#[test]
fn host_cookie_with_domain_is_refused() {
    let mut config = template("127.0.0.1");
    config.cookie.domain = Some("example.test".to_owned());
    assert_eq!(
        config.validate(Some(IpLiteral::V4(0x7f00_0001))),
        Err(ConfigError::InvalidHostCookie)
    );
}

#[test]
fn per_user_downloads_above_global_are_refused() {
    let mut config = template("127.0.0.1");
    config.server.max_downloads_per_user = 5;
    assert_eq!(
        config.validate(Some(IpLiteral::V4(0x7f00_0001))),
        Err(ConfigError::InvalidDownloadLimits)
    );
}

#[test]
fn zero_pending_limit_is_refused() {
    let mut config = template("127.0.0.1");
    config.server.max_pending_logins = 0;
    assert_eq!(
        config.validate(Some(IpLiteral::V4(0x7f00_0001))),
        Err(ConfigError::InvalidPendingLimit)
    );
}

#[test]
fn zero_duration_is_refused() {
    let mut config = template("127.0.0.1");
    config.server.session_ttl_hours = 0;
    assert_eq!(
        config.validate(Some(IpLiteral::V4(0x7f00_0001))),
        Err(ConfigError::InvalidDurations)
    );
    let mut config = template("127.0.0.1");
    config.security.max_request_body_bytes = 0;
    assert_eq!(
        config.validate(Some(IpLiteral::V4(0x7f00_0001))),
        Err(ConfigError::InvalidDurations)
    );
}

#[test]
fn empty_allowlist_is_refused() {
    let mut config = template("127.0.0.1");
    config.auth.allowed_stable_ids.clear();
    assert_eq!(
        config.validate(Some(IpLiteral::V4(0x7f00_0001))),
        Err(ConfigError::EmptyAllowlist)
    );
}

#[test]
fn defaults_match_template_expectations() {
    assert!(server::config::default_true());
    assert_eq!(server::config::default_cookie_path(), "/");
    assert_eq!(server::config::default_max_request_body_bytes(), 65536);
    assert_eq!(server::config::default_max_qr_starts_per_minute(), 6);
}

#[test]
fn placeholders_are_recognised() {
    assert!(is_placeholder("fake-stable-user-001"));
    assert!(is_placeholder("  REPLACE_ME  "));
    assert!(is_placeholder("id-replace_me-later"));
    assert!(is_placeholder("sha256:0000"));
    assert!(!is_placeholder("sha256:"));
    assert!(!is_placeholder("sha256:00a0"));
    assert!(!is_placeholder("student-42"));
    let config = template("127.0.0.1");
    assert!(config.has_placeholder_allowlist());
    let mut real = template("127.0.0.1");
    real.auth.allowed_stable_ids = vec!["student-42".to_owned()];
    assert!(!real.has_placeholder_allowlist());
}
