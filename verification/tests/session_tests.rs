use std::sync::Arc;

use server::ids::{CourseHandle, SessionId, VideoHandle};
use server::session::{
    course_view, CourseListing, HandleError, HandleWindow, SessionResources, TrackRegistration,
    VideoListing,
};
use server::csrf::{token, verify};
use server::session_store::{SessionLookupError, SessionStore, UserSession, UserSessionOptions};
use server::ticket::TrackParent;

fn listing(id: i64, name: &str, code: &str, term: Option<&str>) -> CourseListing {
    CourseListing {
        id,
        name: name.to_owned(),
        course_code: code.to_owned(),
        term_name: term.map(str::to_owned),
    }
}

fn video(id: &str, name: &str) -> VideoListing {
    VideoListing { id: id.to_owned(), name: name.to_owned(), started_at: Some("2024-03-01T08:00:00Z".to_owned()) }
}

#[test]
fn course_views_drop_empty_codes() {
    let handle = CourseHandle::generate().expect("random source");
    let view = course_view(handle.duplicate(), &listing(7, "Algebra", "", Some("Spring")));
    assert_eq!(view.name, "Algebra");
    assert_eq!(view.course_code, None);
    assert_eq!(view.term_name.as_deref(), Some("Spring"));
    assert!(view.handle.same(&handle));
    let coded = course_view(handle, &listing(7, "Algebra", "MATH101", None));
    assert_eq!(coded.course_code.as_deref(), Some("MATH101"));
    assert_eq!(coded.term_name, None);
}

#[test]
fn handles_resolve_until_the_window_ends() {
    let mut resources: SessionResources<String, u8> = SessionResources::new();
    let window = HandleWindow::new(100, 50);
    assert_eq!(window.expires_at, 150);
    let views = resources
        .replace_courses(vec![listing(11, "A", "A1", None), listing(22, "B", "", None)], window)
        .expect("random source");
    assert_eq!(views.len(), 2);
    let record = resources.resolve_course(&views[1].handle, 149).expect("valid");
    assert_eq!(record.canvas_id, 22);
    assert_eq!(record.expires_at, 150);
    assert!(resources.resolve_course(&views[1].handle, 150).is_none());
    let unknown = CourseHandle::generate().expect("random source");
    assert!(resources.resolve_course(&unknown, 0).is_none());
}

#[test]
fn videos_need_a_valid_course_and_replace_that_course_only() {
    let mut resources: SessionResources<String, u8> = SessionResources::new();
    let window = HandleWindow::new(0, 100);
    let courses = resources
        .replace_courses(vec![listing(1, "A", "", None), listing(2, "B", "", None)], window)
        .expect("random source");
    let a = &courses[0].handle;
    let b = &courses[1].handle;
    let first = resources.replace_videos(a, vec![video("v1", "One")], window).expect("valid course");
    let other = resources.replace_videos(b, vec![video("v9", "Nine")], window).expect("valid course");
    assert_eq!(first[0].name, "One");
    let record = resources.resolve_video(a, &first[0].handle, 10).expect("valid");
    assert_eq!(record.real_id, "v1");
    assert!(resources.resolve_video(b, &first[0].handle, 10).is_none());
    let second = resources.replace_videos(a, vec![video("v2", "Two")], window).expect("valid course");
    assert!(resources.resolve_video(a, &first[0].handle, 10).is_none());
    assert!(resources.resolve_video(a, &second[0].handle, 10).is_some());
    assert!(resources.resolve_video(b, &other[0].handle, 10).is_some());
    let late = HandleWindow::new(100, 100);
    assert!(matches!(resources.replace_videos(a, vec![], late), Err(HandleError::ParentInvalid)));
}

#[test]
fn tracks_belong_to_their_video() {
    let mut resources: SessionResources<String, u8> = SessionResources::new();
    let window = HandleWindow::new(0, 100);
    let courses = resources.replace_courses(vec![listing(1, "A", "", None)], window).expect("random source");
    let course = courses[0].handle.duplicate();
    let videos = resources.replace_videos(&course, vec![video("v1", "One")], window).expect("valid course");
    let parent = TrackParent { course: course.duplicate(), video: videos[0].handle.duplicate() };
    let tracks = resources
        .replace_tracks(
            parent.duplicate(),
            vec![TrackRegistration { kind: 'c', suggested_filename: "cam.mp4".to_owned(), resource: "https://up/1".to_owned() }],
            window,
        )
        .expect("valid video");
    assert_eq!(tracks[0].kind, 'c');
    let record = resources.resolve_track(&parent, &tracks[0].handle, 5).expect("valid");
    assert_eq!(record.resource, "https://up/1");
    assert_eq!(record.suggested_filename, "cam.mp4");
    let stranger = TrackParent { course: course.duplicate(), video: VideoHandle::generate().expect("random source") };
    assert!(resources.resolve_track(&stranger, &tracks[0].handle, 5).is_none());
    assert!(matches!(
        resources.replace_tracks(stranger, Vec::<TrackRegistration<char, String>>::new(), window),
        Err(HandleError::ParentInvalid)
    ));
    resources.replace_courses(vec![], window).expect("random source");
    assert!(resources.resolve_track(&parent, &tracks[0].handle, 5).is_none());
}

#[test]
fn course_authorization_is_stored_per_course() {
    let mut resources: SessionResources<String, u32> = SessionResources::new();
    let course = CourseHandle::generate().expect("random source");
    assert!(resources.course_auth(&course).is_none());
    resources.set_course_auth(&course, Arc::new(7));
    assert_eq!(resources.course_auth(&course).as_deref(), Some(&7));
}

#[test]
fn sessions_expire_and_are_removed() {
    let mut store: SessionStore<&str> = SessionStore::new();
    let session = UserSession::new("ctx", UserSessionOptions { expires_at: 100, max_downloads: 1 }, 0)
        .expect("random source");
    let id = session.id().duplicate();
    store.insert(session);
    assert_eq!(store.len(), 1);
    assert_eq!(*store.lookup(&id, 50).expect("active").context(), "ctx");
    assert!(matches!(store.lookup(&id, 100), Err(SessionLookupError::Expired)));
    assert!(store.is_empty());
    assert!(matches!(store.lookup(&id, 0), Err(SessionLookupError::Invalid)));
}

#[test]
fn removed_sessions_are_revoked() {
    let mut store: SessionStore<u8> = SessionStore::new();
    let session = UserSession::new(1, UserSessionOptions { expires_at: 100, max_downloads: 2 }, 0).expect("random source");
    let id = session.id().duplicate();
    store.insert(session);
    let removed = store.remove(&id).expect("stored");
    assert!(removed.is_revoked());
    assert!(store.get_active(&id, 0).is_none());
    let unknown = SessionId::generate().expect("random source");
    assert!(store.remove(&unknown).is_none());
}

#[test]
fn cleanup_and_revoke_all_count_sessions() {
    let mut store: SessionStore<u8> = SessionStore::new();
    for expires_at in [10, 20, 30] {
        store.insert(UserSession::new(0, UserSessionOptions { expires_at, max_downloads: 1 }, 0).expect("random source"));
    }
    assert_eq!(store.cleanup_expired(20), 2);
    assert_eq!(store.len(), 1);
    assert_eq!(store.revoke_all(), 1);
    assert!(store.is_empty());
}

#[test]
fn csrf_tokens_verify_only_themselves() {
    let session = UserSession::new(0u8, UserSessionOptions { expires_at: 1, max_downloads: 1 }, 0).expect("random source");
    let issued = token(&session);
    assert!(verify(&session, &issued));
    assert!(!verify(&session, "forged"));
    assert!(!verify(&session, ""));
}

#[test]
fn looked_up_session_has_the_requested_id() {
    let mut store: SessionStore<u8> = SessionStore::new();
    let first = UserSession::new(1, UserSessionOptions { expires_at: 100, max_downloads: 1 }, 0).expect("random source");
    let second = UserSession::new(2, UserSessionOptions { expires_at: 100, max_downloads: 1 }, 0).expect("random source");
    let id = second.id().duplicate();
    store.insert(first);
    store.insert(second);
    let found = store.lookup(&id, 99).expect("active");
    assert!(found.id().same(&id));
    assert_eq!(*found.context(), 2);
    assert!(!found.is_revoked());
}

#[test]
fn evicted_sessions_come_back_revoked() {
    let mut store: SessionStore<u8> = SessionStore::new();
    let session = UserSession::new(3, UserSessionOptions { expires_at: 100, max_downloads: 1 }, 0).expect("random source");
    let id = session.id().duplicate();
    store.insert(session);
    assert!(store.lookup_or_evict(&id, 50).is_ok());
    match store.lookup_or_evict(&id, 100) {
        Err((SessionLookupError::Expired, Some(evicted))) => {
            assert!(evicted.is_revoked());
            assert!(evicted.id().same(&id));
            assert_eq!(*evicted.context(), 3);
        }
        _ => panic!("expected an evicted session"),
    }
    assert!(matches!(store.lookup_or_evict(&id, 0), Err((SessionLookupError::Invalid, None))));
}
