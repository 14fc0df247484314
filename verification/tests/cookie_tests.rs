use server::browser_cookie::{
    clear_pending_cookie, encode_pending, pending_name, read_pending, read_session,
    session_options, set_pending_cookie,
};
use server::config::{AppConfig, AuthConfig, CookieConfig, SameSite, SecurityConfig, ServerConfig};
use server::cookies::{clear_cookie, read_cookie, set_cookie, valid_cookie_value, CookieOptions};
use server::ids::SessionId;
use server::pending::PendingLogin;

fn config() -> AppConfig {
    AppConfig {
        server: ServerConfig {
            host: "127.0.0.1".to_owned(),
            port: 3000,
            public_origin: "https://video.example.test".to_owned(),
            shutdown_grace_seconds: 15,
            session_ttl_hours: 8,
            pending_login_ttl_minutes: 5,
            download_ticket_ttl_seconds: 60,
            max_global_downloads: 4,
            max_downloads_per_user: 1,
            max_pending_logins: 20,
            max_qr_starts_per_minute: 6,
            api_timeout_seconds: 30,
            upstream_connect_timeout_seconds: 10,
        },
        auth: AuthConfig { allowed_stable_ids: vec!["student-42".to_owned()], allowed_stable_id_hashes: vec![] },
        cookie: CookieConfig {
            name: "__Host-sjtu-canvas-session".to_owned(),
            secure: true,
            http_only: true,
            same_site: SameSite::Lax,
            path: "/".to_owned(),
            domain: None,
        },
        security: SecurityConfig {
            csrf_header: "x-csrf-token".to_owned(),
            trust_proxy_headers: false,
            max_request_body_bytes: 65536,
        },
    }
}

#[test]
fn reads_the_named_cookie_among_others() {
    assert_eq!(read_cookie("a=1; sid=abc_DEF-9.x; b=2", "sid"), Some("abc_DEF-9.x"));
    assert_eq!(read_cookie("sid=; sid=second", "sid"), Some("second"));
    assert_eq!(read_cookie("sid=bad value", "sid"), None);
    assert_eq!(read_cookie("other=1", "sid"), None);
    assert_eq!(read_cookie("", "sid"), None);
}

#[test]
fn writes_and_clears_cookies() {
    let options = CookieOptions { name: "sid", secure: true, same_site: server::cookies::SameSite::Strict, max_age_seconds: Some(300) };
    assert_eq!(set_cookie("v", &options), "sid=v; Path=/; HttpOnly; Secure; SameSite=Strict; Max-Age=300");
    let plain = CookieOptions { name: "sid", secure: false, same_site: server::cookies::SameSite::Lax, max_age_seconds: None };
    assert_eq!(set_cookie("v", &plain), "sid=v; Path=/; HttpOnly; SameSite=Lax");
    let negative = CookieOptions { name: "sid", secure: false, same_site: server::cookies::SameSite::Lax, max_age_seconds: Some(-5) };
    assert_eq!(set_cookie("v", &negative), "sid=v; Path=/; HttpOnly; SameSite=Lax; Max-Age=-5");
    assert_eq!(clear_cookie(&options), "sid=; Path=/; HttpOnly; Secure; SameSite=Strict; Max-Age=0");
    assert!(valid_cookie_value("abc-_.9"));
    assert!(!valid_cookie_value(""));
    assert!(!valid_cookie_value("a b"));
}

#[test]
fn set_cookie_reads_back() {
    let options = CookieOptions { name: "sid", secure: true, same_site: server::cookies::SameSite::Lax, max_age_seconds: Some(60) };
    let header = set_cookie("token.value", &options);
    assert_eq!(read_cookie(&header, "sid"), Some("token.value"));
}

#[test]
fn pending_cookie_round_trips() {
    let config = config();
    assert_eq!(pending_name(&config), "__Host-sjtu-canvas-session_pending");
    let pending: PendingLogin<u32> = PendingLogin::new(0, 1_000, None).expect("random source");
    let value = encode_pending(&pending);
    assert_eq!(value, format!("{}.{}", pending.id().expose(), pending.browser_binding().expose()));
    let set = set_pending_cookie(&config, &value);
    assert_eq!(
        set,
        format!("__Host-sjtu-canvas-session_pending={value}; Path=/; HttpOnly; Secure; SameSite=Lax; Max-Age=300")
    );
    let header = format!("other=1; __Host-sjtu-canvas-session_pending={value}");
    let cookie = read_pending(Some(&header), &config).expect("pending cookie");
    assert!(cookie.id.same(pending.id()));
    assert!(cookie.binding.same(pending.browser_binding()));
    assert!(read_pending(Some(&set), &config).is_some());
}

#[test]
fn malformed_pending_cookies_are_ignored() {
    let config = config();
    assert!(read_pending(None, &config).is_none());
    assert!(read_pending(Some("__Host-sjtu-canvas-session_pending=abc"), &config).is_none());
    assert!(read_pending(Some("__Host-sjtu-canvas-session_pending=abc.def"), &config).is_none());
    let id = SessionId::generate().expect("random source");
    let half = format!("__Host-sjtu-canvas-session_pending={}.short", id.expose());
    assert!(read_pending(Some(&half), &config).is_none());
}

#[test]
fn clears_pending_cookie_and_sets_session_options() {
    let config = config();
    assert_eq!(
        clear_pending_cookie(&config),
        "__Host-sjtu-canvas-session_pending=; Path=/; HttpOnly; Secure; SameSite=Lax; Max-Age=0"
    );
    let options = session_options(&config);
    assert_eq!(options.name, "__Host-sjtu-canvas-session");
    assert_eq!(options.max_age_seconds, Some(8 * 3600));
    assert!(options.secure);
}

#[test]
fn reads_the_session_cookie() {
    let config = config();
    let id = SessionId::generate().expect("random source");
    let header = format!("__Host-sjtu-canvas-session={}", id.expose());
    let read = read_session(Some(&header), &config).expect("session cookie");
    assert!(read.same(&id));
    assert!(read_session(Some("__Host-sjtu-canvas-session=short"), &config).is_none());
    assert!(read_session(None, &config).is_none());
}

#[test]
fn cleared_cookies_read_back_as_absent() {
    let options = CookieOptions { name: "sid", secure: true, same_site: server::cookies::SameSite::Lax, max_age_seconds: Some(60) };
    assert_eq!(read_cookie(&clear_cookie(&options), "sid"), None);
    let insecure = CookieOptions { name: "sid", secure: false, same_site: server::cookies::SameSite::Strict, max_age_seconds: None };
    assert_eq!(read_cookie(&clear_cookie(&insecure), "sid"), None);
    let config = config();
    assert!(read_pending(Some(&clear_pending_cookie(&config)), &config).is_none());
}

#[test]
fn cookie_segments_are_trimmed_of_unicode_white_space() {
    assert_eq!(read_cookie("sid=abc", "sid"), Some("abc"));
    assert_eq!(read_cookie("\u{a0}sid=abc\u{3000}", "sid"), Some("abc"));
    assert_eq!(read_cookie("a=1;\tsid=abc\n", "sid"), Some("abc"));
    assert_eq!(read_cookie("\u{200b}sid=abc", "sid"), None);
}

#[test]
fn plain_pending_header_reads_back() {
    let config = config();
    let pending: PendingLogin<u32> = PendingLogin::new(0, 1_000, None).expect("random source");
    let header = format!("{}={}", pending_name(&config), encode_pending(&pending));
    let cookie = read_pending(Some(&header), &config).expect("pending cookie");
    assert!(cookie.id.same(pending.id()));
    assert!(cookie.binding.same(pending.browser_binding()));
}

#[test]
fn cleared_cookies_with_unusual_names_read_back_as_absent() {
    for name in ["a;b", "x=y", " sid", "Path", "a;b=c"] {
        let options = CookieOptions { name, secure: false, same_site: server::cookies::SameSite::Lax, max_age_seconds: None };
        assert_eq!(read_cookie(&clear_cookie(&options), name), None);
    }
    let same_site = CookieOptions { name: "SameSite", secure: false, same_site: server::cookies::SameSite::Lax, max_age_seconds: None };
    assert_eq!(read_cookie(&clear_cookie(&same_site), "SameSite"), Some("Lax"));
}
