use server::ids::{CourseHandle, DownloadTicketId, PendingLoginId, TrackHandle, VideoHandle};
use server::responses::{
    course_response, me_response, session_response, start_response, ticket_response,
    track_response, unauthenticated, video_response, IdentitySource, TrackKind,
};
use server::session::{CourseView, TrackView, VideoView};
use server::session_store::{UserSession, UserSessionOptions};

#[test]
fn views_are_shown_under_their_handles() {
    let handle = CourseHandle::generate().expect("random source");
    let course = course_response(CourseView {
        handle: handle.duplicate(),
        name: "Algebra".to_owned(),
        course_code: Some("MATH".to_owned()),
        term_name: None,
    });
    assert_eq!(course.id, handle.expose());
    assert_eq!(course.course_code.as_deref(), Some("MATH"));
    let video = video_response(VideoView {
        handle: VideoHandle::generate().expect("random source"),
        name: "One".to_owned(),
        started_at: None,
    });
    assert_eq!(video.name, "One");
    let track = track_response(TrackView {
        handle: TrackHandle::generate().expect("random source"),
        kind: TrackKind::Screen,
        suggested_filename: "slides/1".to_owned(),
    });
    assert_eq!(track.kind, "screen");
    assert_eq!(track.suggested_filename, "slides_1.mp4");
}

#[test]
fn session_answers() {
    let anonymous = unauthenticated();
    assert!(!anonymous.authenticated && anonymous.user.is_none() && anonymous.csrf_token.is_none());
    let session = UserSession::new(0u8, UserSessionOptions { expires_at: 1_700_000_000_000_000_000, max_downloads: 1 }, 0)
        .expect("random source");
    let body = session_response(&session, IdentitySource::CanvasSelf).expect("representable");
    assert!(body.authenticated);
    assert_eq!(body.expires_at.as_deref(), Some("2023-11-14T22:13:20Z"));
    assert_eq!(body.user.expect("user").identity_source, "canvas");
    let me = me_response(&session, IdentitySource::MySjtuAccount).expect("representable");
    assert_eq!(me.identity_source, "my_sjtu");
    assert_eq!(me.expires_at, "2023-11-14T22:13:20Z");
}

#[test]
fn start_and_ticket_answers_carry_urls() {
    let id = PendingLoginId::generate().expect("random source");
    let start = start_response(&id, 5);
    assert_eq!(start.events_url, format!("/api/auth/qr/events/{}", id.expose()));
    assert_eq!(start.expires_in_seconds, 300);
    let ticket = DownloadTicketId::generate().expect("random source");
    let answer = ticket_response(&ticket, 60);
    assert_eq!(answer.download_url, format!("/api/download/{}", ticket.expose()));
    assert_eq!(answer.expires_in_seconds, 60);
}
