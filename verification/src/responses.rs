//! The bodies of the JSON answers: what each route shows of courses, videos, tracks, sessions
//! and new logins.

use vstd::prelude::*;
use vstd::string::StringExecFns;
use crate::filename::{sanitize_filename, spec_sanitize_filename};
use crate::ids::{DownloadTicketId, PendingLoginId};
use crate::session::{same_optional_text, CourseView, TrackView, VideoView};
use crate::session_store::UserSession;
use crate::text::{push_str_chars, string_from_chars};

verus! {

/// What the RFC 3339 text of the instant `nanos` nanoseconds after the Unix epoch (UTC) is,
/// or `None` outside the representable range.
pub uninterp spec fn rfc3339_text(nanos: i128) -> Option<Seq<char>>;

/// `time::OffsetDateTime::from_unix_timestamp_nanos` followed by `format` with the well-known
/// RFC 3339 description. The text is named `rfc3339_text(nanos)`; the format is not stated.
#[verifier::external_body]
fn format_rfc3339(nanos: i128) -> (r: Option<String>)
    ensures
        match r {
            Some(s) => rfc3339_text(nanos) == Some(s@),
            None => rfc3339_text(nanos) is None,
        },
{
    time::OffsetDateTime::from_unix_timestamp_nanos(nanos).ok()?.format(&time::format_description::well_known::Rfc3339).ok()
}

/// A course in the course list.
pub struct CourseResponse {
    pub id: String,
    pub name: String,
    pub course_code: Option<String>,
    pub term_name: Option<String>,
}

/// Shows a course under its handle.
pub fn course_response(view: CourseView) -> (r: CourseResponse)
    ensures
        r.id@ == view.handle@,
        r.name == view.name,
        r.course_code == view.course_code,
        r.term_name == view.term_name,
{
    CourseResponse {
        id: String::from_str(view.handle.expose()),
        name: view.name,
        course_code: view.course_code,
        term_name: view.term_name,
    }
}

/// A recording in a course's video list.
pub struct VideoResponse {
    pub id: String,
    pub name: String,
    pub started_at: Option<String>,
}

/// Shows a recording under its handle.
pub fn video_response(view: VideoView) -> (r: VideoResponse)
    ensures
        r.id@ == view.handle@,
        r.name == view.name,
        r.started_at == view.started_at,
{
    VideoResponse { id: String::from_str(view.handle.expose()), name: view.name, started_at: view.started_at }
}

/// The kinds of recorded track.
#[derive(Debug, Clone, Copy, PartialEq, Eq, Structural)]
pub enum TrackKind {
    Camera,
    Screen,
    Mixed,
    Unknown,
}

impl TrackKind {
    /// The kind as the API writes it.
    pub fn name(self) -> (r: &'static str)
        ensures
            r@ == match self {
                TrackKind::Camera => "camera"@,
                TrackKind::Screen => "screen"@,
                TrackKind::Mixed => "mixed"@,
                TrackKind::Unknown => "unknown"@,
            },
    {
        match self {
            TrackKind::Camera => "camera",
            TrackKind::Screen => "screen",
            TrackKind::Mixed => "mixed",
            TrackKind::Unknown => "unknown",
        }
    }
}

/// A track of a recording.
pub struct TrackResponse {
    pub id: String,
    pub kind: &'static str,
    pub suggested_filename: String,
}

/// Shows a track under its handle, with its file name made safe.
pub fn track_response(view: TrackView<TrackKind>) -> (r: TrackResponse)
    ensures
        r.id@ == view.handle@,
        r.kind@ == match view.kind {
            TrackKind::Camera => "camera"@,
            TrackKind::Screen => "screen"@,
            TrackKind::Mixed => "mixed"@,
            TrackKind::Unknown => "unknown"@,
        },
        r.suggested_filename@ == spec_sanitize_filename(view.suggested_filename@),
{
    TrackResponse {
        id: String::from_str(view.handle.expose()),
        kind: view.kind.name(),
        suggested_filename: sanitize_filename(view.suggested_filename.as_str()),
    }
}

/// Where the signed-in identity was read from.
#[derive(Debug, Clone, Copy, PartialEq, Eq, Structural)]
pub enum IdentitySource {
    MySjtuAccount,
    CanvasSelf,
}

impl IdentitySource {
    /// The source as the API writes it.
    pub fn name(self) -> (r: &'static str)
        ensures
            r@ == match self {
                IdentitySource::MySjtuAccount => "my_sjtu"@,
                IdentitySource::CanvasSelf => "canvas"@,
            },
    {
        match self {
            IdentitySource::MySjtuAccount => "my_sjtu",
            IdentitySource::CanvasSelf => "canvas",
        }
    }
}

/// The signed-in user as shown to the browser: never the identity itself.
pub struct SessionUser {
    pub display_label: &'static str,
    pub identity_source: &'static str,
}

/// The answer to "am I signed in?".
pub struct SessionResponse {
    pub authenticated: bool,
    pub user: Option<SessionUser>,
    pub csrf_token: Option<String>,
    pub expires_at: Option<String>,
}

/// The answer for a browser that is not signed in.
pub fn unauthenticated() -> (r: SessionResponse)
    ensures
        !r.authenticated,
        r.user is None,
        r.csrf_token is None,
        r.expires_at is None,
{
    SessionResponse { authenticated: false, user: None, csrf_token: None, expires_at: None }
}

/// The answer for a signed-in session: its user, CSRF token and expiry; `None` when the expiry
/// cannot be written as RFC 3339.
pub fn session_response<C>(session: &UserSession<C>, source: IdentitySource) -> (r: Option<SessionResponse>)
    ensures
        r is Some <==> rfc3339_text(session.spec_expires_at()) is Some,
        r matches Some(b) ==> {
            &&& b.authenticated
            &&& b.user matches Some(u) && u.display_label@ == "已登录用户"@ && u.identity_source@ == match source {
                IdentitySource::MySjtuAccount => "my_sjtu"@,
                IdentitySource::CanvasSelf => "canvas"@,
            }
            &&& b.csrf_token matches Some(t) && t@ == session.spec_csrf_secret()
            &&& b.expires_at matches Some(e) && rfc3339_text(session.spec_expires_at()) == Some(e@)
        },
{
    let expires_at = match format_rfc3339(session.expires_at()) {
        Some(e) => e,
        None => return None,
    };
    Some(SessionResponse {
        authenticated: true,
        user: Some(SessionUser { display_label: "已登录用户", identity_source: source.name() }),
        csrf_token: Some(crate::csrf::token(session)),
        expires_at: Some(expires_at),
    })
}

/// The answer to `/api/me`.
pub struct MeResponse {
    pub display_label: &'static str,
    pub identity_source: &'static str,
    pub expires_at: String,
}

/// The answer to `/api/me` for a session: the fixed display label, the written name of the
/// identity source (the same as in the session answer) and the expiry; `None` when the expiry
/// cannot be written as RFC 3339.
pub fn me_response<C>(session: &UserSession<C>, source: IdentitySource) -> (r: Option<MeResponse>)
    ensures
        r is Some <==> rfc3339_text(session.spec_expires_at()) is Some,
        r matches Some(b) ==> b.display_label@ == "已登录用户"@ && rfc3339_text(session.spec_expires_at()) == Some(b.expires_at@),
        r matches Some(b) ==> b.identity_source@ == match source {
            IdentitySource::MySjtuAccount => "my_sjtu"@,
            IdentitySource::CanvasSelf => "canvas"@,
        },
{
    let expires_at = match format_rfc3339(session.expires_at()) {
        Some(e) => e,
        None => return None,
    };
    Some(MeResponse { display_label: "已登录用户", identity_source: source.name(), expires_at })
}

/// The answer to starting a QR login.
pub struct StartResponse {
    pub pending_id: String,
    pub events_url: String,
    pub expires_in_seconds: u64,
}

/// The answer for a login started with a pending lifetime of `ttl_minutes`.
pub fn start_response(id: &PendingLoginId, ttl_minutes: u64) -> (r: StartResponse)
    requires
        ttl_minutes * 60 <= u64::MAX,
    ensures
        r.pending_id@ == id@,
        r.events_url@ == "/api/auth/qr/events/"@ + id@,
        r.expires_in_seconds == ttl_minutes * 60,
{
    let mut url: Vec<char> = Vec::new();
    push_str_chars(&mut url, "/api/auth/qr/events/");
    push_str_chars(&mut url, id.expose());
    StartResponse {
        pending_id: String::from_str(id.expose()),
        events_url: string_from_chars(&url),
        expires_in_seconds: ttl_minutes * 60,
    }
}

/// The answer to issuing a download ticket.
pub struct TicketResponse {
    pub download_url: String,
    pub expires_in_seconds: u64,
}

/// The answer for ticket `id`, valid for `ttl_seconds`.
pub fn ticket_response(id: &DownloadTicketId, ttl_seconds: u64) -> (r: TicketResponse)
    ensures
        r.download_url@ == "/api/download/"@ + id@,
        r.expires_in_seconds == ttl_seconds,
{
    let mut url: Vec<char> = Vec::new();
    push_str_chars(&mut url, "/api/download/");
    push_str_chars(&mut url, id.expose());
    TicketResponse { download_url: string_from_chars(&url), expires_in_seconds: ttl_seconds }
}

} // verus!
