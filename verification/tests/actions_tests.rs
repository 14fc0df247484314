use server::actions::{issue_ticket, resolve_detail_target, sign_out};
use server::config::{parse_origin, AppConfig, AuthConfig, CookieConfig, SameSite, SecurityConfig, ServerConfig};
use server::csrf::token;
use server::ids::{CourseHandle, SessionId};
use server::net::UrlParts;
use server::session::{CourseListing, HandleWindow, SessionResources, TrackRegistration, VideoListing};
use server::session_store::{UserSession, UserSessionOptions};
use server::state::Stores;
use server::ticket::TrackParent;
use server::web_error::WebErrorCode;

const ORIGIN: &str = "https://video.example.test";

fn config() -> AppConfig {
    AppConfig {
        server: ServerConfig {
            host: "127.0.0.1".to_owned(),
            port: 3000,
            public_origin: ORIGIN.to_owned(),
            shutdown_grace_seconds: 15,
            session_ttl_hours: 8,
            pending_login_ttl_minutes: 5,
            download_ticket_ttl_seconds: 60,
            max_global_downloads: 4,
            max_downloads_per_user: 1,
            max_pending_logins: 20,
            max_qr_starts_per_minute: 6,
            api_timeout_seconds: 30,
            upstream_connect_timeout_seconds: 10,
        },
        auth: AuthConfig { allowed_stable_ids: vec!["student-42".to_owned()], allowed_stable_id_hashes: vec![] },
        cookie: CookieConfig {
            name: "sid".to_owned(),
            secure: true,
            http_only: true,
            same_site: SameSite::Lax,
            path: "/".to_owned(),
            domain: None,
        },
        security: SecurityConfig {
            csrf_header: "x-csrf-token".to_owned(),
            trust_proxy_headers: false,
            max_request_body_bytes: 65536,
        },
    }
}

struct Setup {
    stores: Stores<u8, u8, String>,
    resources: SessionResources<String, u8>,
    session: SessionId,
    csrf: String,
    course: String,
    video: String,
    track: String,
    public: UrlParts,
}

fn setup() -> Setup {
    let mut stores: Stores<u8, u8, String> = Stores::new(4);
    let session = UserSession::new(1, UserSessionOptions { expires_at: 1_000, max_downloads: 1 }, 0).expect("random source");
    let id = session.id().duplicate();
    let csrf = token(&session);
    stores.sessions.insert(session);
    let mut resources: SessionResources<String, u8> = SessionResources::new();
    let window = HandleWindow::new(0, 500);
    let courses = resources
        .replace_courses(
            vec![CourseListing { id: 7, name: "A".to_owned(), course_code: String::new(), term_name: None }],
            window,
        )
        .expect("random source");
    let course = courses[0].handle.duplicate();
    let videos = resources
        .replace_videos(
            &course,
            vec![VideoListing { id: "v1".to_owned(), name: "One".to_owned(), started_at: None }],
            window,
        )
        .expect("valid course");
    let parent = TrackParent { course: course.duplicate(), video: videos[0].handle.duplicate() };
    let tracks = resources
        .replace_tracks(
            parent,
            vec![TrackRegistration { kind: 'c', suggested_filename: "cam.mp4".to_owned(), resource: "https://up/1".to_owned() }],
            window,
        )
        .expect("valid video");
    Setup {
        stores,
        resources,
        session: id,
        csrf,
        course: course.expose().to_owned(),
        video: videos[0].handle.expose().to_owned(),
        track: tracks[0].handle.expose().to_owned(),
        public: parse_origin(ORIGIN).expect("valid origin"),
    }
}

#[test]
fn ticket_is_issued_for_a_checked_request() {
    let mut s = setup();
    let ticket = issue_ticket(
        &mut s.stores, &s.resources, &s.session, Some("same-origin"), Some(ORIGIN), &s.public,
        Some(&s.csrf), &s.course, &s.video, &s.track, 10, 60,
    )
    .expect("ticket");
    assert_eq!(ticket.created_at(), 10);
    assert_eq!(ticket.expires_at(), 70);
    assert_eq!(ticket.resource(), "https://up/1");
    assert_eq!(ticket.suggested_filename(), "cam.mp4");
    assert!(ticket.session_id().same(&s.session));
    assert_eq!(s.stores.tickets.len(), 1);
}

#[test]
fn refused_ticket_requests_issue_nothing() {
    let mut s = setup();
    let code = |r: Result<std::sync::Arc<server::ticket::DownloadTicket<String>>, server::web_error::WebError>| {
        r.err().expect("refused").code()
    };
    let r = issue_ticket(&mut s.stores, &s.resources, &s.session, None, Some("https://evil.example"), &s.public,
        Some(&s.csrf), &s.course, &s.video, &s.track, 10, 60);
    assert_eq!(code(r), WebErrorCode::OriginRejected);
    let r = issue_ticket(&mut s.stores, &s.resources, &s.session, Some("cross-site"), Some(ORIGIN), &s.public,
        Some(&s.csrf), &s.course, &s.video, &s.track, 10, 60);
    assert_eq!(code(r), WebErrorCode::OriginRejected);
    let r = issue_ticket(&mut s.stores, &s.resources, &s.session, None, Some(ORIGIN), &s.public,
        None, &s.course, &s.video, &s.track, 10, 60);
    assert_eq!(code(r), WebErrorCode::CsrfRejected);
    let r = issue_ticket(&mut s.stores, &s.resources, &s.session, None, Some(ORIGIN), &s.public,
        Some("wrong"), &s.course, &s.video, &s.track, 10, 60);
    assert_eq!(code(r), WebErrorCode::CsrfRejected);
    let r = issue_ticket(&mut s.stores, &s.resources, &s.session, None, Some(ORIGIN), &s.public,
        Some(&s.csrf), "bad", &s.video, &s.track, 10, 60);
    assert_eq!(code(r), WebErrorCode::CourseHandleInvalid);
    let r = issue_ticket(&mut s.stores, &s.resources, &s.session, None, Some(ORIGIN), &s.public,
        Some(&s.csrf), &s.course, "bad", &s.track, 10, 60);
    assert_eq!(code(r), WebErrorCode::VideoHandleInvalid);
    let other = CourseHandle::generate().expect("random source");
    let r = issue_ticket(&mut s.stores, &s.resources, &s.session, None, Some(ORIGIN), &s.public,
        Some(&s.csrf), other.expose(), &s.video, &s.track, 10, 60);
    assert_eq!(code(r), WebErrorCode::TrackHandleInvalid);
    let r = issue_ticket(&mut s.stores, &s.resources, &s.session, None, Some(ORIGIN), &s.public,
        Some(&s.csrf), &s.course, &s.video, &s.track, 500, 60);
    assert_eq!(code(r), WebErrorCode::TrackHandleInvalid);
    let stranger = SessionId::generate().expect("random source");
    let r = issue_ticket(&mut s.stores, &s.resources, &stranger, None, Some(ORIGIN), &s.public,
        Some(&s.csrf), &s.course, &s.video, &s.track, 10, 60);
    assert_eq!(code(r), WebErrorCode::Unauthorized);
    let r = issue_ticket(&mut s.stores, &s.resources, &s.session, None, Some(ORIGIN), &s.public,
        Some(&s.csrf), &s.course, &s.video, &s.track, 1_000, 60);
    assert_eq!(code(r), WebErrorCode::SessionExpired);
    assert!(s.stores.tickets.is_empty());
    assert!(s.stores.sessions.is_empty());
}

#[test]
fn sign_out_checks_origin_and_token() {
    let mut s = setup();
    let config = config();
    let cookie = format!("sid={}", s.session.expose());
    let refused = sign_out(&mut s.stores, &config, Some(&cookie), None, Some("https://evil.example"), &s.public, Some(&s.csrf), 10);
    assert_eq!(refused.err().expect("refused").code(), WebErrorCode::OriginRejected);
    let refused = sign_out(&mut s.stores, &config, Some(&cookie), None, Some(ORIGIN), &s.public, Some("wrong"), 10);
    assert_eq!(refused.err().expect("refused").code(), WebErrorCode::CsrfRejected);
    assert_eq!(s.stores.sessions.len(), 1);
    issue_ticket(&mut s.stores, &s.resources, &s.session, None, Some(ORIGIN), &s.public,
        Some(&s.csrf), &s.course, &s.video, &s.track, 10, 60)
    .expect("ticket");
    let removed = sign_out(&mut s.stores, &config, Some(&cookie), None, Some(ORIGIN), &s.public, Some(&s.csrf), 10)
        .expect("signed out")
        .expect("a session");
    assert!(removed.is_revoked());
    assert!(removed.id().same(&s.session));
    assert!(s.stores.sessions.is_empty());
    assert!(s.stores.tickets.is_empty());
    let again = sign_out(&mut s.stores, &config, Some(&cookie), None, Some(ORIGIN), &s.public, Some(&s.csrf), 10)
        .expect("nothing to sign out");
    assert!(again.is_none());
    let none = sign_out(&mut s.stores, &config, None, None, Some(ORIGIN), &s.public, None, 10).expect("no cookie");
    assert!(none.is_none());
}

#[test]
fn detail_target_resolves_course_and_video() {
    let s = setup();
    let target = resolve_detail_target(&s.resources, &s.course, &s.video, 10).expect("valid");
    assert_eq!(target.canvas_course_id, 7);
    assert_eq!(target.real_video_id, "v1");
    assert_eq!(target.course.expose(), s.course);
    assert_eq!(resolve_detail_target(&s.resources, "bad", &s.video, 10).err().expect("refused").code(), WebErrorCode::CourseHandleInvalid);
    assert_eq!(resolve_detail_target(&s.resources, &s.course, "bad", 10).err().expect("refused").code(), WebErrorCode::VideoHandleInvalid);
    assert_eq!(resolve_detail_target(&s.resources, &s.course, &s.video, 500).err().expect("refused").code(), WebErrorCode::CourseHandleInvalid);
    let other = CourseHandle::generate().expect("random source");
    assert_eq!(resolve_detail_target(&s.resources, other.expose(), &s.video, 10).err().expect("refused").code(), WebErrorCode::CourseHandleInvalid);
}
