use server::ids::{CourseHandle, DownloadTicketId, SessionId, TrackHandle, VideoHandle};
use server::state::Stores;
use server::ticket::{
    validate_request, DownloadTicketStore, TicketLookupError, TicketRequest, TicketStoreError,
    TrackParent, TrackRecord,
};

fn request(session: &SessionId, course: &CourseHandle, video: &VideoHandle) -> TicketRequest<&'static str> {
    TicketRequest {
        session_id: session.duplicate(),
        parent: TrackParent { course: course.duplicate(), video: video.duplicate() },
        track: TrackHandle::generate().expect("random source"),
        record: TrackRecord {
            course: course.duplicate(),
            video: video.duplicate(),
            resource: "https://upstream/video.mp4",
            suggested_filename: "lecture.mp4".to_owned(),
            expires_at: 1_000,
        },
    }
}

#[test]
fn issued_ticket_resolves_for_its_session_until_expiry() {
    let session = SessionId::generate().expect("random source");
    let course = CourseHandle::generate().expect("random source");
    let video = VideoHandle::generate().expect("random source");
    let mut store = DownloadTicketStore::new();
    let ticket = store.issue(request(&session, &course, &video), 100, 60).expect("consistent request");
    assert_eq!(ticket.created_at(), 100);
    assert_eq!(ticket.expires_at(), 160);
    assert_eq!(*ticket.resource(), "https://upstream/video.mp4");
    assert_eq!(ticket.suggested_filename(), "lecture.mp4");
    let id = ticket.id().duplicate();
    let found = store.resolve(&id, &session, 159).expect("valid");
    assert!(found.id().same(&id));
    let other = SessionId::generate().expect("random source");
    assert!(matches!(store.resolve(&id, &other, 159), Err(TicketLookupError::SessionMismatch)));
    assert!(matches!(store.resolve(&id, &session, 160), Err(TicketLookupError::Expired)));
    assert!(matches!(store.resolve(&id, &session, 100), Err(TicketLookupError::Invalid)));
    let unknown = DownloadTicketId::generate().expect("random source");
    assert!(matches!(store.resolve(&unknown, &session, 0), Err(TicketLookupError::Invalid)));
}

#[test]
fn mismatched_records_are_refused() {
    let session = SessionId::generate().expect("random source");
    let course = CourseHandle::generate().expect("random source");
    let video = VideoHandle::generate().expect("random source");
    let mut bad = request(&session, &course, &video);
    bad.record.video = VideoHandle::generate().expect("random source");
    assert!(matches!(validate_request(&bad), Err(TicketStoreError::BindingMismatch)));
    let mut store = DownloadTicketStore::new();
    assert!(matches!(store.issue(bad, 0, 10), Err(TicketStoreError::BindingMismatch)));
    assert!(store.is_empty());
}

#[test]
fn tickets_are_removed_per_session_and_by_expiry() {
    let alice = SessionId::generate().expect("random source");
    let bob = SessionId::generate().expect("random source");
    let course = CourseHandle::generate().expect("random source");
    let video = VideoHandle::generate().expect("random source");
    let mut store = DownloadTicketStore::new();
    store.issue(request(&alice, &course, &video), 0, 10).expect("consistent");
    store.issue(request(&alice, &course, &video), 0, 50).expect("consistent");
    store.issue(request(&bob, &course, &video), 0, 50).expect("consistent");
    assert_eq!(store.len(), 3);
    assert_eq!(store.cleanup_expired(10), 1);
    assert_eq!(store.remove_for_session(&alice), 1);
    assert_eq!(store.len(), 1);
    assert_eq!(store.clear(), 1);
    assert!(store.is_empty());
}

#[test]
fn logout_removes_session_and_its_tickets() {
    let mut stores: Stores<u8, u8, &'static str> = Stores::new(4);
    let session = server::session_store::UserSession::new(
        0,
        server::session_store::UserSessionOptions { expires_at: 100, max_downloads: 1 },
        0,
    )
    .expect("random source");
    let id = session.id().duplicate();
    stores.sessions.insert(session);
    let course = CourseHandle::generate().expect("random source");
    let video = VideoHandle::generate().expect("random source");
    let ticket = stores.tickets.issue(request(&id, &course, &video), 0, 50).expect("consistent");
    let ticket_id = ticket.id().duplicate();
    assert!(stores.logout(&id).is_some());
    assert!(stores.sessions.is_empty());
    assert!(matches!(stores.tickets.resolve(&ticket_id, &id, 1), Err(TicketLookupError::Invalid)));
    assert!(stores.logout(&id).is_none());
}

#[test]
fn cleanup_counts_each_store_and_shutdown_empties_them() {
    let mut stores: Stores<u8, u8, &'static str> = Stores::new(4);
    for expires_at in [5, 50] {
        stores.sessions.insert(
            server::session_store::UserSession::new(0, server::session_store::UserSessionOptions { expires_at, max_downloads: 1 }, 0)
                .expect("random source"),
        );
    }
    stores.pending_logins.create(0, 5).expect("room");
    stores.pending_logins.create(0, 50).expect("room");
    let session = SessionId::generate().expect("random source");
    let course = CourseHandle::generate().expect("random source");
    let video = VideoHandle::generate().expect("random source");
    stores.tickets.issue(request(&session, &course, &video), 0, 5).expect("consistent");
    let (summary, expired) = stores.cleanup_expired(10);
    assert_eq!(summary, server::state::CleanupSummary { sessions: 1, pending_logins: 1, tickets: 1 });
    assert_eq!(expired.len(), 1);
    stores.begin_shutdown();
    assert!(stores.sessions.is_empty());
    assert!(stores.pending_logins.is_empty());
    assert!(stores.tickets.is_empty());
}
