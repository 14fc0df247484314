//! Requests of a signed-in browser that the server decides on its own: finding the video a detail
//! request names, asking for a download ticket, and signing out. The last two change state, so
//! they must come from the public origin and carry the session's CSRF token.

use std::sync::Arc;
use vstd::prelude::*;
use crate::browser_cookie::read_session;
use crate::config::AppConfig;
use crate::cookies::spec_read_cookie;
use crate::csrf;
use crate::ids::{is_opaque_text, CourseHandle, SessionId, TrackHandle, VideoHandle};
use crate::net::{UrlParts, UrlPartsView};
use crate::origin::{spec_verify, verify};
use crate::session::{spec_resolve_course, spec_track_resolves, spec_video_resolves, SessionResources, TrackEntry, VideoEntry, CourseRecord};
use crate::session_store::{spec_lookup_session, SessionLookupError, UserSession};
use crate::state::Stores;
use crate::ticket::{DownloadTicket, TicketRequest, TrackParent, TrackRecord};
use crate::web_error::{map_lookup_error, WebError, WebErrorCode};

verus! {

/// A header that may be missing, as plain text.
pub open spec fn header_view(h: Option<&str>) -> Option<Seq<char>> {
    match h {
        Some(v) => Some(v@),
        None => None,
    }
}

/// Whether `csrf` is present and equal to `secret`.
pub open spec fn csrf_matches(csrf: Option<Seq<char>>, secret: Seq<char>) -> bool {
    csrf matches Some(c) && c == secret
}

/// The course and video that a detail request names, with what the upstream service knows them
/// by.
pub struct DetailTarget {
    pub course: CourseHandle,
    pub video: VideoHandle,
    pub canvas_course_id: i64,
    pub real_video_id: String,
}

/// Why a detail request for `course` and `video` is refused: a malformed course handle, a
/// malformed video handle, a course that does not resolve at `now`, or a video that does not
/// resolve under it.
pub open spec fn spec_detail_refusal(
    courses: Map<Seq<char>, CourseRecord>,
    videos: Map<Seq<char>, VideoEntry>,
    course: Seq<char>,
    video: Seq<char>,
    now: i128,
) -> Option<WebErrorCode> {
    if !is_opaque_text(course) {
        Some(WebErrorCode::CourseHandleInvalid)
    } else if !is_opaque_text(video) {
        Some(WebErrorCode::VideoHandleInvalid)
    } else if spec_resolve_course(courses, course, now) is None {
        Some(WebErrorCode::CourseHandleInvalid)
    } else if !spec_video_resolves(videos, course, video, now) {
        Some(WebErrorCode::VideoHandleInvalid)
    } else {
        None
    }
}

/// The course and video named by `raw_course` and `raw_video` at `now`, with the upstream course
/// number and recording identifier.
pub fn resolve_detail_target<R, A>(resources: &SessionResources<R, A>, raw_course: &str, raw_video: &str, now: i128) -> (r: Result<DetailTarget, WebError>)
    requires
        resources.wf(),
    ensures
        match spec_detail_refusal(resources.courses_view(), resources.videos_view(), raw_course@, raw_video@, now) {
            Some(code) => r matches Err(e) && e.spec_code() == code,
            None => r matches Ok(t) && {
                &&& t.course@ == raw_course@
                &&& t.video@ == raw_video@
                &&& t.canvas_course_id == resources.courses_view()[raw_course@].canvas_id
                &&& t.real_video_id@ == resources.videos_view()[raw_video@].real_id
            },
        },
{
    let course = match CourseHandle::parse(raw_course) {
        Some(h) => h,
        None => return Err(WebError::invalid_course_handle()),
    };
    let video = match VideoHandle::parse(raw_video) {
        Some(h) => h,
        None => return Err(WebError::invalid_video_handle()),
    };
    let course_record = match resources.resolve_course(&course, now) {
        Some(c) => c,
        None => return Err(WebError::invalid_course_handle()),
    };
    let real_video_id = match resources.resolve_video(&course, &video, now) {
        Some(v) => v.real_id.clone(),
        None => return Err(WebError::invalid_video_handle()),
    };
    Ok(DetailTarget { course, video, canvas_course_id: course_record.canvas_id, real_video_id })
}

/// Why a ticket request is refused before a ticket is made, checked in this order: the session
/// must be active, the request must come from the public origin and carry the session's CSRF
/// token, the three handles must be well formed, and the track must resolve at `now` under its
/// course and video.
pub open spec fn spec_ticket_refusal<C, R>(
    sessions: Map<Seq<char>, UserSession<C>>,
    tracks: Map<Seq<char>, TrackEntry<R>>,
    session_id: Seq<char>,
    fetch_site: Option<Seq<char>>,
    origin: Option<Seq<char>>,
    public_origin: UrlPartsView,
    csrf: Option<Seq<char>>,
    course: Seq<char>,
    video: Seq<char>,
    track: Seq<char>,
    now: i128,
) -> Option<WebErrorCode> {
    match spec_lookup_session(sessions, session_id, now) {
        Err(e) => Some(
            if e == SessionLookupError::Expired {
                WebErrorCode::SessionExpired
            } else {
                WebErrorCode::Unauthorized
            },
        ),
        Ok(s) => if spec_verify(fetch_site, origin, public_origin) is Err {
            Some(WebErrorCode::OriginRejected)
        } else if !csrf_matches(csrf, s.spec_csrf_secret()) {
            Some(WebErrorCode::CsrfRejected)
        } else if !is_opaque_text(course) {
            Some(WebErrorCode::CourseHandleInvalid)
        } else if !is_opaque_text(video) {
            Some(WebErrorCode::VideoHandleInvalid)
        } else if !is_opaque_text(track) {
            Some(WebErrorCode::TrackHandleInvalid)
        } else if !spec_track_resolves(tracks, course, video, track, now) {
            Some(WebErrorCode::TrackHandleInvalid)
        } else {
            None
        },
    }
}

/// A copy of a track record; the resource is cloned.
fn copy_record<R: Clone>(record: &TrackRecord<R>) -> (r: TrackRecord<R>)
    ensures
        r.course@ == record.course@,
        r.video@ == record.video@,
        cloned(record.resource, r.resource),
        r.suggested_filename@ == record.suggested_filename@,
        r.expires_at == record.expires_at,
{
    TrackRecord {
        course: record.course.duplicate(),
        video: record.video.duplicate(),
        resource: record.resource.clone(),
        suggested_filename: record.suggested_filename.clone(),
        expires_at: record.expires_at,
    }
}

/// Issues a download ticket for track `raw_track` of video `raw_video` of course `raw_course`,
/// valid from `now` for `ttl`, to session `session_id`. The request is refused, and no ticket is
/// made, when the session is not active, when it does not come from the public origin, when it
/// lacks the session's CSRF token, or when a handle is malformed or its track does not resolve;
/// the only other failure is that no ticket identifier could be made.
pub fn issue_ticket<C, L, R: Clone, A>(
    stores: &mut Stores<C, L, R>,
    resources: &SessionResources<R, A>,
    session_id: &SessionId,
    fetch_site: Option<&str>,
    origin: Option<&str>,
    public_origin: &UrlParts,
    csrf: Option<&str>,
    raw_course: &str,
    raw_video: &str,
    raw_track: &str,
    now: i128,
    ttl: i128,
) -> (r: Result<Arc<DownloadTicket<R>>, WebError>)
    requires
        old(stores).wf(),
        resources.wf(),
        i128::MIN <= now + ttl <= i128::MAX,
    ensures
        final(stores).wf(),
        final(stores).pending_logins@ == old(stores).pending_logins@,
        final(stores).sessions@ == if spec_lookup_session(old(stores).sessions@, session_id@, now) is Ok
            || !old(stores).sessions@.contains_key(session_id@) {
            old(stores).sessions@
        } else {
            old(stores).sessions@.remove(session_id@)
        },
        match spec_ticket_refusal(
            old(stores).sessions@,
            resources.tracks_view(),
            session_id@,
            header_view(fetch_site),
            header_view(origin),
            public_origin@,
            header_view(csrf),
            raw_course@,
            raw_video@,
            raw_track@,
            now,
        ) {
            Some(code) => r matches Err(e) && e.spec_code() == code && final(stores).tickets@ == old(
                stores,
            ).tickets@,
            None => match r {
                Err(e) => e.spec_code() == WebErrorCode::Internal && final(stores).tickets@ == old(
                    stores,
                ).tickets@,
                Ok(t) => {
                    &&& final(stores).tickets@ == old(stores).tickets@.insert(t.spec_id(), *t)
                    &&& t.spec_session() == session_id@
                    &&& t.spec_binding() == (raw_course@, raw_video@, raw_track@)
                    &&& cloned(resources.tracks_view()[raw_track@].resource, t.spec_resource())
                    &&& t.spec_filename() == resources.tracks_view()[raw_track@].suggested_filename
                    &&& t.spec_created_at() == now
                    &&& t.spec_expires_at() == now + ttl
                },
            },
        },
{
    let token_ok = {
        let session = match stores.sessions.lookup(session_id, now) {
            Ok(s) => s,
            Err(e) => return Err(map_lookup_error(e)),
        };
        if verify(fetch_site, origin, public_origin).is_err() {
            return Err(WebError::origin_rejected());
        }
        match csrf {
            Some(c) => csrf::verify(session, c),
            None => false,
        }
    };
    if !token_ok {
        return Err(WebError::csrf_rejected());
    }
    let course = match CourseHandle::parse(raw_course) {
        Some(h) => h,
        None => return Err(WebError::invalid_course_handle()),
    };
    let video = match VideoHandle::parse(raw_video) {
        Some(h) => h,
        None => return Err(WebError::invalid_video_handle()),
    };
    let track = match TrackHandle::parse(raw_track) {
        Some(h) => h,
        None => return Err(WebError::invalid_track_handle()),
    };
    let parent = TrackParent { course, video };
    let record = match resources.resolve_track(&parent, &track, now) {
        Some(found) => copy_record(found),
        None => return Err(WebError::invalid_track_handle()),
    };
    let request = TicketRequest { session_id: session_id.duplicate(), parent, track, record };
    match stores.tickets.issue(request, now, ttl) {
        Ok(t) => Ok(t),
        Err(_) => Err(WebError::internal()),
    }
}

/// The session named by the session cookie in `header`, when it is well formed.
pub open spec fn spec_session_cookie(header: Option<Seq<char>>, name: Seq<char>) -> Option<Seq<char>> {
    match header {
        None => None,
        Some(h) => match spec_read_cookie(h, name) {
            Some(v) => if is_opaque_text(v) {
                Some(v)
            } else {
                None
            },
            None => None,
        },
    }
}

/// Signs the browser out. A request that does not come from the public origin is refused with
/// nothing changed. Without an active session (no cookie, or one naming no active session) there
/// is nothing to sign out and `Ok(None)` comes back. With one, the request must carry the
/// session's CSRF token; then the session is removed, revoked, and handed back, and its tickets
/// are removed.
pub fn sign_out<C, L, R>(
    stores: &mut Stores<C, L, R>,
    config: &AppConfig,
    cookie_header: Option<&str>,
    fetch_site: Option<&str>,
    origin: Option<&str>,
    public_origin: &UrlParts,
    csrf: Option<&str>,
    now: i128,
) -> (r: Result<Option<UserSession<C>>, WebError>)
    requires
        old(stores).wf(),
    ensures
        final(stores).wf(),
        final(stores).pending_logins@ == old(stores).pending_logins@,
        ({
            let cookie = spec_session_cookie(header_view(cookie_header), config.cookie.name@);
            if spec_verify(header_view(fetch_site), header_view(origin), public_origin@) is Err {
                &&& r matches Err(e) && e.spec_code() == WebErrorCode::OriginRejected
                &&& final(stores).sessions@ == old(stores).sessions@
                &&& final(stores).tickets@ == old(stores).tickets@
            } else if cookie is None {
                &&& r == Ok::<Option<UserSession<C>>, WebError>(None)
                &&& final(stores).sessions@ == old(stores).sessions@
                &&& final(stores).tickets@ == old(stores).tickets@
            } else {
                let id = cookie->Some_0;
                match spec_lookup_session(old(stores).sessions@, id, now) {
                    Err(_) => {
                        &&& r == Ok::<Option<UserSession<C>>, WebError>(None)
                        &&& final(stores).sessions@ == old(stores).sessions@.remove(id)
                        &&& final(stores).tickets@ == old(stores).tickets@
                    },
                    Ok(s) => if !csrf_matches(header_view(csrf), s.spec_csrf_secret()) {
                        &&& r matches Err(e) && e.spec_code() == WebErrorCode::CsrfRejected
                        &&& final(stores).sessions@ == old(stores).sessions@
                        &&& final(stores).tickets@ == old(stores).tickets@
                    } else {
                        &&& r matches Ok(Some(removed)) && removed.spec_revoked() && removed.spec_id() == id
                        &&& final(stores).sessions@ == old(stores).sessions@.remove(id)
                        &&& forall|k: Seq<char>| #[trigger] final(stores).tickets@.contains_key(k)
                            <==> old(stores).tickets@.contains_key(k) && old(stores).tickets@[k].spec_session() != id
                        &&& forall|k: Seq<char>| final(stores).tickets@.contains_key(k)
                            ==> #[trigger] final(stores).tickets@[k] == old(stores).tickets@[k]
                    },
                }
            }
        }),
{
    if verify(fetch_site, origin, public_origin).is_err() {
        return Err(WebError::origin_rejected());
    }
    let id = match read_session(cookie_header, config) {
        Some(id) => id,
        None => return Ok(None),
    };
    let token_ok = match stores.sessions.get_active(&id, now) {
        None => {
            proof {
                if !old(stores).sessions@.contains_key(id@) {
                    assert(old(stores).sessions@.remove(id@) =~= old(stores).sessions@);
                }
            }
            return Ok(None);
        },
        Some(session) => match csrf {
            Some(c) => csrf::verify(session, c),
            None => false,
        },
    };
    if !token_ok {
        return Err(WebError::csrf_rejected());
    }
    Ok(stores.logout(&id))
}

} // verus!
