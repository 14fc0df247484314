//! Per-session resource handles: the opaque course, video and track handles a session has been
//! shown, what each stands for, and until when. Times are nanoseconds since the Unix epoch.

use vstd::prelude::*;
use std::sync::Arc;
use vstd::string::StringExecFns;
use crate::entries::{insert_all, lemma_insert_all_contents, lemma_insert_all_push, KeyedEntries};
use crate::ids::{CourseHandle, RandomIdError, TrackHandle, VideoHandle};
use crate::ticket::{share, TrackParent, TrackRecord};

verus! {

/// When handles are issued and until when they stay valid.
#[derive(Debug, Clone, Copy, PartialEq, Eq, Structural)]
pub struct HandleWindow {
    pub now: i128,
    pub expires_at: i128,
}

impl HandleWindow {
    /// The window that starts at `now` and lasts `ttl`.
    pub fn new(now: i128, ttl: i128) -> (r: Self)
        requires
            i128::MIN <= now + ttl <= i128::MAX,
        ensures
            r.now == now,
            r.expires_at == now + ttl,
    {
        HandleWindow { now, expires_at: now + ttl }
    }
}

/// A course as course discovery reports it.
pub struct CourseListing {
    pub id: i64,
    pub name: String,
    pub course_code: String,
    pub term_name: Option<String>,
}

/// A recording as the course's video list reports it.
pub struct VideoListing {
    pub id: String,
    pub name: String,
    pub started_at: Option<String>,
}

/// A course as shown to the browser, under its handle.
pub struct CourseView {
    pub handle: CourseHandle,
    pub name: String,
    pub course_code: Option<String>,
    pub term_name: Option<String>,
}

/// What a course handle stands for.
#[derive(Debug, Clone, Copy, PartialEq, Eq, Structural)]
pub struct CourseRecord {
    pub canvas_id: i64,
    pub expires_at: i128,
}

/// A recording as shown to the browser, under its handle.
pub struct VideoView {
    pub handle: VideoHandle,
    pub name: String,
    pub started_at: Option<String>,
}

/// What a video handle stands for.
pub struct VideoRecord {
    pub real_id: String,
    pub course: CourseHandle,
    pub expires_at: i128,
}

/// `VideoRecord` as plain values.
pub struct VideoEntry {
    pub real_id: Seq<char>,
    pub course: Seq<char>,
    pub expires_at: i128,
}

impl View for VideoRecord {
    type V = VideoEntry;

    open spec fn view(&self) -> VideoEntry {
        VideoEntry { real_id: self.real_id@, course: self.course@, expires_at: self.expires_at }
    }
}

/// `TrackRecord` as plain values.
pub struct TrackEntry<R> {
    pub course: Seq<char>,
    pub video: Seq<char>,
    pub resource: R,
    pub suggested_filename: Seq<char>,
    pub expires_at: i128,
}

/// `TrackRecord` as plain values.
pub open spec fn track_entry<R>(t: TrackRecord<R>) -> TrackEntry<R> {
    TrackEntry {
        course: t.course@,
        video: t.video@,
        resource: t.resource,
        suggested_filename: t.suggested_filename@,
        expires_at: t.expires_at,
    }
}

/// A track as shown to the browser, under its handle; `K` is the kind of track.
pub struct TrackView<K> {
    pub handle: TrackHandle,
    pub kind: K,
    pub suggested_filename: String,
}

/// A track to register: its kind, file name and upstream resource `R`.
pub struct TrackRegistration<K, R> {
    pub kind: K,
    pub suggested_filename: String,
    pub resource: R,
}

/// Why handles could not be issued.
#[derive(Debug, Clone, Copy, PartialEq, Eq)]
pub enum HandleError {
    Random(RandomIdError),
    ParentInvalid,
}

/// Whether two optional texts hold the same text.
pub open spec fn same_optional_text(a: Option<String>, b: Option<String>) -> bool {
    match (a, b) {
        (Some(x), Some(y)) => x@ == y@,
        (None, None) => true,
        _ => false,
    }
}

fn copy_optional_text(o: &Option<String>) -> (r: Option<String>)
    ensures
        same_optional_text(r, *o),
{
    match o {
        Some(s) => Some(String::from_str(s.as_str())),
        None => None,
    }
}

/// The view of `course` under `handle`: an empty course code is left out.
pub open spec fn spec_course_view_matches(v: CourseView, handle: Seq<char>, course: CourseListing) -> bool {
    &&& v.handle@ == handle
    &&& v.name@ == course.name@
    &&& if course.course_code@.len() == 0 {
        v.course_code is None
    } else {
        v.course_code matches Some(c) && c@ == course.course_code@
    }
    &&& same_optional_text(v.term_name, course.term_name)
}

/// Shows `course` under `handle`.
pub fn course_view(handle: CourseHandle, course: &CourseListing) -> (r: CourseView)
    ensures
        spec_course_view_matches(r, handle@, *course),
{
    let course_code = if course.course_code.as_str().unicode_len() == 0 {
        None
    } else {
        Some(String::from_str(course.course_code.as_str()))
    };
    CourseView {
        handle,
        name: String::from_str(course.name.as_str()),
        course_code,
        term_name: copy_optional_text(&course.term_name),
    }
}

/// The records of `courses`, each valid until `expires_at`.
pub open spec fn course_records(courses: Seq<CourseListing>, expires_at: i128) -> Seq<CourseRecord> {
    Seq::new(courses.len(), |i: int| CourseRecord { canvas_id: courses[i].id, expires_at })
}

/// The entries of `videos` of course `course`, each valid until `expires_at`.
pub open spec fn video_entries(course: Seq<char>, videos: Seq<VideoListing>, expires_at: i128) -> Seq<VideoEntry> {
    Seq::new(videos.len(), |i: int| VideoEntry { real_id: videos[i].id@, course, expires_at })
}

/// The entries of `tracks` under `parent`, each valid until `expires_at`.
pub open spec fn track_entries<K, R>(course: Seq<char>, video: Seq<char>, tracks: Seq<TrackRegistration<K, R>>, expires_at: i128) -> Seq<TrackEntry<R>> {
    Seq::new(tracks.len(), |i: int| TrackEntry {
        course,
        video,
        resource: tracks[i].resource,
        suggested_filename: tracks[i].suggested_filename@,
        expires_at,
    })
}

/// The videos after re-listing course `course` got as far as issuing `handles`.
pub open spec fn relisted_videos(old: Map<Seq<char>, VideoEntry>, course: Seq<char>, handles: Seq<Seq<char>>, videos: Seq<VideoListing>, expires_at: i128) -> Map<Seq<char>, VideoEntry> {
    insert_all(
        old.restrict(old.dom().filter(|k: Seq<char>| old[k].course != course)),
        handles,
        video_entries(course, videos, expires_at).take(handles.len() as int),
    )
}

/// The tracks after re-registering a video's tracks got as far as issuing `handles`.
pub open spec fn retracked<K, R>(old: Map<Seq<char>, TrackEntry<R>>, course: Seq<char>, video: Seq<char>, handles: Seq<Seq<char>>, tracks: Seq<TrackRegistration<K, R>>, expires_at: i128) -> Map<Seq<char>, TrackEntry<R>> {
    insert_all(
        old.restrict(old.dom().filter(|k: Seq<char>| old[k].video != video)),
        handles,
        track_entries(course, video, tracks, expires_at).take(handles.len() as int),
    )
}

pub open spec fn course_handles(views: Seq<CourseView>) -> Seq<Seq<char>> {
    views.map_values(|v: CourseView| v.handle@)
}

pub open spec fn video_handles(views: Seq<VideoView>) -> Seq<Seq<char>> {
    views.map_values(|v: VideoView| v.handle@)
}

pub open spec fn track_handles<K>(views: Seq<TrackView<K>>) -> Seq<Seq<char>> {
    views.map_values(|v: TrackView<K>| v.handle@)
}

/// What a course handle resolves to at `now`.
pub open spec fn spec_resolve_course(courses: Map<Seq<char>, CourseRecord>, handle: Seq<char>, now: i128) -> Option<CourseRecord> {
    if courses.contains_key(handle) && courses[handle].expires_at > now {
        Some(courses[handle])
    } else {
        None
    }
}

/// Whether a video handle resolves, under `course`, at `now`.
pub open spec fn spec_video_resolves(videos: Map<Seq<char>, VideoEntry>, course: Seq<char>, video: Seq<char>, now: i128) -> bool {
    videos.contains_key(video) && videos[video].course == course && videos[video].expires_at > now
}

/// Whether a track handle resolves, under `course` and `video`, at `now`.
pub open spec fn spec_track_resolves<R>(tracks: Map<Seq<char>, TrackEntry<R>>, course: Seq<char>, video: Seq<char>, track: Seq<char>, now: i128) -> bool {
    tracks.contains_key(track) && tracks[track].course == course && tracks[track].video == video && tracks[track].expires_at > now
}

/// The handles of one session: courses, videos, tracks, and each course's video-service
/// authorization `A`; `R` is a track's upstream resource.
pub struct SessionResources<R, A> {
    courses: KeyedEntries<CourseRecord>,
    videos: KeyedEntries<VideoRecord>,
    tracks: KeyedEntries<TrackRecord<R>>,
    course_auth: KeyedEntries<Arc<A>>,
}

impl<R, A> SessionResources<R, A> {
    pub closed spec fn courses_view(&self) -> Map<Seq<char>, CourseRecord> {
        self.courses@
    }

    pub closed spec fn videos_view(&self) -> Map<Seq<char>, VideoEntry> {
        self.videos@.map_values(|r: VideoRecord| r@)
    }

    pub closed spec fn tracks_view(&self) -> Map<Seq<char>, TrackEntry<R>> {
        self.tracks@.map_values(|t: TrackRecord<R>| track_entry(t))
    }

    pub closed spec fn auth_view(&self) -> Map<Seq<char>, A> {
        self.course_auth@.map_values(|a: Arc<A>| *a)
    }

    pub closed spec fn wf(&self) -> bool {
        &&& self.courses.wf()
        &&& self.videos.wf()
        &&& self.tracks.wf()
        &&& self.course_auth.wf()
    }

    /// No handles.
    pub fn new() -> (r: Self)
        ensures
            r.wf(),
            r.courses_view() == Map::<Seq<char>, CourseRecord>::empty(),
            r.videos_view() == Map::<Seq<char>, VideoEntry>::empty(),
            r.tracks_view() == Map::<Seq<char>, TrackEntry<R>>::empty(),
            r.auth_view() == Map::<Seq<char>, A>::empty(),
    {
        let r = SessionResources {
            courses: KeyedEntries::new(),
            videos: KeyedEntries::new(),
            tracks: KeyedEntries::new(),
            course_auth: KeyedEntries::new(),
        };
        assert(r.videos_view() =~= Map::<Seq<char>, VideoEntry>::empty());
        assert(r.tracks_view() =~= Map::<Seq<char>, TrackEntry<R>>::empty());
        assert(r.auth_view() =~= Map::<Seq<char>, A>::empty());
        r
    }

    /// Issues fresh handles for `courses`, valid until the window ends, and forgets every earlier
    /// course, video, track and authorization. Nothing changes when no handle could be made.
    #[verifier::rlimit(40)]
    #[verifier::spinoff_prover]
    pub fn replace_courses(&mut self, courses: Vec<CourseListing>, window: HandleWindow) -> (r: Result<Vec<CourseView>, HandleError>)
        requires
            old(self).wf(),
        ensures
            final(self).wf(),
            r matches Err(e) ==> e is Random && *final(self) == *old(self),
            r matches Ok(views) ==> {
                &&& views@.len() == courses@.len()
                &&& forall|i: int| 0 <= i < views@.len() ==> spec_course_view_matches(#[trigger] views@[i], views@[i].handle@, courses@[i])
                &&& final(self).courses_view() == insert_all(Map::empty(), course_handles(views@), course_records(courses@, window.expires_at))
                &&& final(self).videos_view() == Map::<Seq<char>, VideoEntry>::empty()
                &&& final(self).tracks_view() == Map::<Seq<char>, TrackEntry<R>>::empty()
                &&& final(self).auth_view() == Map::<Seq<char>, A>::empty()
            },
    {
        let mut records: KeyedEntries<CourseRecord> = KeyedEntries::new();
        let mut views: Vec<CourseView> = Vec::new();
        let mut i: usize = 0;
        while i < courses.len()
            invariant
                self.wf(),
                *self == *old(self),
                records.wf(),
                i <= courses@.len(),
                views@.len() == i,
                forall|j: int| 0 <= j < i ==> spec_course_view_matches(#[trigger] views@[j], views@[j].handle@, courses@[j]),
                records@ == insert_all(Map::empty(), course_handles(views@), course_records(courses@, window.expires_at).take(i as int)),
            decreases courses.len() - i,
        {
            let handle = match CourseHandle::generate() {
                Ok(h) => h,
                Err(e) => return Err(HandleError::Random(e)),
            };
            let key = String::from_str(handle.expose());
            let record = CourseRecord { canvas_id: courses[i].id, expires_at: window.expires_at };
            records.insert(key, record);
            let view = course_view(handle, &courses[i]);
            proof {
                let recs = course_records(courses@, window.expires_at);
                lemma_insert_all_push(Map::empty(), course_handles(views@), recs.take(i as int), view.handle@, record);
                assert(recs.take(i + 1) =~= recs.take(i as int).push(record));
                assert(course_handles(views@.push(view)) =~= course_handles(views@).push(view.handle@));
            }
            let ghost prev = views@;
            views.push(view);
            assert forall|j: int| 0 <= j < i + 1 implies spec_course_view_matches(#[trigger] views@[j], views@[j].handle@, courses@[j]) by {
                if j < i {
                    assert(views@[j] == prev[j]);
                }
            }
            i = i + 1;
        }
        assert(course_records(courses@, window.expires_at).take(i as int) =~= course_records(courses@, window.expires_at));
        self.courses = records;
        self.videos.clear();
        self.tracks.clear();
        self.course_auth.clear();
        assert(self.videos_view() =~= Map::<Seq<char>, VideoEntry>::empty());
        assert(self.tracks_view() =~= Map::<Seq<char>, TrackEntry<R>>::empty());
        assert(self.auth_view() =~= Map::<Seq<char>, A>::empty());
        Ok(views)
    }

    /// The record of course `handle` while it is valid at `now`.
    pub fn resolve_course(&self, handle: &CourseHandle, now: i128) -> (r: Option<CourseRecord>)
        requires
            self.wf(),
        ensures
            r == spec_resolve_course(self.courses_view(), handle@, now),
    {
        match self.courses.get(handle.expose()) {
            Some(record) => {
                if record.expires_at > now {
                    Some(*record)
                } else {
                    None
                }
            },
            None => None,
        }
    }

    /// Issues fresh handles for the videos of course `course`, valid until the window ends, and
    /// forgets that course's earlier videos and tracks. Refused with `ParentInvalid` (nothing
    /// changed) unless the course handle is valid at the window's start.
    #[verifier::rlimit(40)]
    #[verifier::spinoff_prover]
    pub fn replace_videos(&mut self, course: &CourseHandle, videos: Vec<VideoListing>, window: HandleWindow) -> (r: Result<Vec<VideoView>, HandleError>)
        requires
            old(self).wf(),
        ensures
            final(self).wf(),
            (r == Err::<Vec<VideoView>, HandleError>(HandleError::ParentInvalid)) <==> spec_resolve_course(old(self).courses_view(), course@, window.now) is None,
            r == Err::<Vec<VideoView>, HandleError>(HandleError::ParentInvalid) ==> *final(self) == *old(self),
            final(self).courses_view() == old(self).courses_view(),
            final(self).auth_view() == old(self).auth_view(),
            r != Err::<Vec<VideoView>, HandleError>(HandleError::ParentInvalid) ==> {
                &&& forall|k: Seq<char>| #[trigger] final(self).tracks_view().contains_key(k) <==> old(self).tracks_view().contains_key(k) && old(self).tracks_view()[k].course != course@
                &&& forall|k: Seq<char>| final(self).tracks_view().contains_key(k) ==> #[trigger] final(self).tracks_view()[k] == old(self).tracks_view()[k]
            },
            r matches Err(HandleError::Random(_)) ==> exists|handles: Seq<Seq<char>>| handles.len() < videos@.len()
                && final(self).videos_view() == #[trigger] relisted_videos(old(self).videos_view(), course@, handles, videos@, window.expires_at),
            r matches Ok(views) ==> views@.len() == videos@.len(),
            r matches Ok(views) ==> forall|i: int| 0 <= i < views@.len() ==> #[trigger] views@[i].name@ == videos@[i].name@
                    && same_optional_text(views@[i].started_at, videos@[i].started_at),
            r matches Ok(views) ==> {
                &&& final(self).videos_view() == insert_all(
                    old(self).videos_view().restrict(old(self).videos_view().dom().filter(|k: Seq<char>| old(self).videos_view()[k].course != course@)),
                    video_handles(views@),
                    video_entries(course@, videos@, window.expires_at),
                )
            },
    {
        let valid = match self.courses.get(course.expose()) {
            Some(record) => record.expires_at > window.now,
            None => false,
        };
        if !valid {
            return Err(HandleError::ParentInvalid);
        }
        let ghost old_videos = self.videos_view();
        let ghost kept = old_videos.restrict(old_videos.dom().filter(|k: Seq<char>| old_videos[k].course != course@));
        let ghost old_tracks = self.tracks_view();
        let keep_video = |r: &VideoRecord| -> (b: bool)
            ensures
                b <==> r.course@ != course@,
        { !r.course.same(course) };
        self.videos.retain(keep_video, Ghost(|r: VideoRecord| r.course@ != course@));
        let keep_track = |t: &TrackRecord<R>| -> (b: bool)
            ensures
                b <==> t.course@ != course@,
        { !t.course.same(course) };
        self.tracks.retain(keep_track, Ghost(|t: TrackRecord<R>| t.course@ != course@));
        assert(self.videos_view() =~= kept);
        let ghost kept_tracks = self.tracks_view();
        assert forall|k: Seq<char>| #[trigger] kept_tracks.contains_key(k) <==> old_tracks.contains_key(k) && old_tracks[k].course != course@ by {}
        let mut views: Vec<VideoView> = Vec::new();
        let mut i: usize = 0;
        while i < videos.len()
            invariant
                self.wf(),
                i <= videos@.len(),
                views@.len() == i,
                self.courses_view() == old(self).courses_view(),
                self.auth_view() == old(self).auth_view(),
                spec_resolve_course(old(self).courses_view(), course@, window.now) is Some,
                old_tracks == old(self).tracks_view(),
                kept == old(self).videos_view().restrict(old(self).videos_view().dom().filter(|k: Seq<char>| old(self).videos_view()[k].course != course@)),
                self.tracks_view() == kept_tracks,
                forall|k: Seq<char>| #[trigger] kept_tracks.contains_key(k) <==> old_tracks.contains_key(k) && old_tracks[k].course != course@,
                forall|k: Seq<char>| kept_tracks.contains_key(k) ==> #[trigger] kept_tracks[k] == old_tracks[k],
                forall|j: int| 0 <= j < i ==> #[trigger] views@[j].name@ == videos@[j].name@
                    && same_optional_text(views@[j].started_at, videos@[j].started_at),
                self.videos_view() == insert_all(kept, video_handles(views@), video_entries(course@, videos@, window.expires_at).take(i as int)),
            decreases videos.len() - i,
        {
            let handle = match VideoHandle::generate() {
                Ok(h) => h,
                Err(e) => {
                    assert(video_handles(views@).len() == i);
                    assert(self.videos_view() == relisted_videos(old(self).videos_view(), course@, video_handles(views@), videos@, window.expires_at));
                    return Err(HandleError::Random(e));
                },
            };
            let key = String::from_str(handle.expose());
            let record = VideoRecord {
                real_id: String::from_str(videos[i].id.as_str()),
                course: course.duplicate(),
                expires_at: window.expires_at,
            };
            let ghost entry = record@;
            self.videos.insert(key, record);
            assert(self.videos_view() =~= insert_all(kept, video_handles(views@), video_entries(course@, videos@, window.expires_at).take(i as int)).insert(handle@, entry));
            let view = VideoView {
                handle,
                name: String::from_str(videos[i].name.as_str()),
                started_at: copy_optional_text(&videos[i].started_at),
            };
            proof {
                let es = video_entries(course@, videos@, window.expires_at);
                lemma_insert_all_push(kept, video_handles(views@), es.take(i as int), view.handle@, entry);
                assert(es.take(i + 1) =~= es.take(i as int).push(entry));
                assert(video_handles(views@.push(view)) =~= video_handles(views@).push(view.handle@));
            }
            let ghost prev = views@;
            views.push(view);
            assert forall|j: int| 0 <= j < i + 1 implies #[trigger] views@[j].name@ == videos@[j].name@
                && same_optional_text(views@[j].started_at, videos@[j].started_at) by {
                if j < i {
                    assert(views@[j] == prev[j]);
                }
            }
            i = i + 1;
        }
        assert(video_entries(course@, videos@, window.expires_at).take(i as int) =~= video_entries(course@, videos@, window.expires_at));
        Ok(views)
    }

    /// The record of video `video` of course `course` while it is valid at `now`.
    pub fn resolve_video(&self, course: &CourseHandle, video: &VideoHandle, now: i128) -> (r: Option<&VideoRecord>)
        requires
            self.wf(),
        ensures
            r is Some <==> spec_video_resolves(self.videos_view(), course@, video@, now),
            r matches Some(v) ==> v@ == self.videos_view()[video@],
    {
        match self.videos.get(video.expose()) {
            Some(record) => {
                if record.course.same(course) && record.expires_at > now {
                    Some(record)
                } else {
                    None
                }
            },
            None => None,
        }
    }

    /// Stores the video-service authorization of course `course`.
    pub fn set_course_auth(&mut self, course: &CourseHandle, auth: Arc<A>)
        requires
            old(self).wf(),
        ensures
            final(self).wf(),
            final(self).auth_view() == old(self).auth_view().insert(course@, *auth),
            final(self).courses_view() == old(self).courses_view(),
            final(self).videos_view() == old(self).videos_view(),
            final(self).tracks_view() == old(self).tracks_view(),
    {
        let ghost a = auth;
        self.course_auth.insert(String::from_str(course.expose()), auth);
        assert(self.auth_view() =~= old(self).auth_view().insert(course@, *a));
    }

    /// The video-service authorization of course `course`, if stored.
    pub fn course_auth(&self, course: &CourseHandle) -> (r: Option<Arc<A>>)
        requires
            self.wf(),
        ensures
            match r {
                Some(a) => self.auth_view().contains_key(course@) && *a == self.auth_view()[course@],
                None => !self.auth_view().contains_key(course@),
            },
    {
        match self.course_auth.get(course.expose()) {
            Some(a) => Some(share(a)),
            None => None,
        }
    }

    /// Issues fresh handles for the tracks of a video, valid until the window ends, and forgets
    /// that video's earlier tracks. Refused with `ParentInvalid` (nothing changed) unless the
    /// video handle belongs to the parent's course and is valid at the window's start.
    #[verifier::rlimit(40)]
    #[verifier::spinoff_prover]
    pub fn replace_tracks<K>(&mut self, parent: TrackParent, tracks: Vec<TrackRegistration<K, R>>, window: HandleWindow) -> (r: Result<Vec<TrackView<K>>, HandleError>)
        requires
            old(self).wf(),
        ensures
            final(self).wf(),
            (r == Err::<Vec<TrackView<K>>, HandleError>(HandleError::ParentInvalid)) <==> !spec_video_resolves(old(self).videos_view(), parent.course@, parent.video@, window.now),
            r == Err::<Vec<TrackView<K>>, HandleError>(HandleError::ParentInvalid) ==> *final(self) == *old(self),
            final(self).courses_view() == old(self).courses_view(),
            final(self).videos_view() == old(self).videos_view(),
            final(self).auth_view() == old(self).auth_view(),
            r matches Err(HandleError::Random(_)) ==> exists|handles: Seq<Seq<char>>| handles.len() < tracks@.len()
                && final(self).tracks_view() == #[trigger] retracked(old(self).tracks_view(), parent.course@, parent.video@, handles, tracks@, window.expires_at),
            r matches Ok(views) ==> views@.len() == tracks@.len(),
            r matches Ok(views) ==> forall|i: int| 0 <= i < views@.len() ==> #[trigger] views@[i].kind == tracks@[i].kind
                    && views@[i].suggested_filename@ == tracks@[i].suggested_filename@,
            r matches Ok(views) ==> {
                &&& final(self).tracks_view() == insert_all(
                    old(self).tracks_view().restrict(old(self).tracks_view().dom().filter(|k: Seq<char>| old(self).tracks_view()[k].video != parent.video@)),
                    track_handles(views@),
                    track_entries(parent.course@, parent.video@, tracks@, window.expires_at),
                )
            },
    {
        let valid = match self.videos.get(parent.video.expose()) {
            Some(record) => record.course.same(&parent.course) && record.expires_at > window.now,
            None => false,
        };
        if !valid {
            return Err(HandleError::ParentInvalid);
        }
        let ghost old_tracks = self.tracks_view();
        let ghost kept = old_tracks.restrict(old_tracks.dom().filter(|k: Seq<char>| old_tracks[k].video != parent.video@));
        let ghost all = tracks@;
        let keep_track = |t: &TrackRecord<R>| -> (b: bool)
            ensures
                b <==> t.video@ != parent.video@,
        { !t.video.same(&parent.video) };
        self.tracks.retain(keep_track, Ghost(|t: TrackRecord<R>| t.video@ != parent.video@));
        assert(self.tracks_view() =~= kept);
        let n = tracks.len();
        let mut pending = tracks;
        let mut views: Vec<TrackView<K>> = Vec::new();
        let mut i: usize = 0;
        while i < n
            invariant
                self.wf(),
                n == all.len(),
                i <= all.len(),
                views@.len() == i,
                pending@ == all.skip(i as int),
                self.courses_view() == old(self).courses_view(),
                self.videos_view() == old(self).videos_view(),
                self.auth_view() == old(self).auth_view(),
                spec_video_resolves(old(self).videos_view(), parent.course@, parent.video@, window.now),
                kept == old(self).tracks_view().restrict(old(self).tracks_view().dom().filter(|k: Seq<char>| old(self).tracks_view()[k].video != parent.video@)),
                all == tracks@,
                forall|j: int| 0 <= j < i ==> #[trigger] views@[j].kind == all[j].kind
                    && views@[j].suggested_filename@ == all[j].suggested_filename@,
                self.tracks_view() == insert_all(kept, track_handles(views@), track_entries(parent.course@, parent.video@, all, window.expires_at).take(i as int)),
            decreases n - i,
        {
            let handle = match TrackHandle::generate() {
                Ok(h) => h,
                Err(e) => {
                    assert(track_handles(views@).len() == i);
                    assert(self.tracks_view() == retracked(old(self).tracks_view(), parent.course@, parent.video@, track_handles(views@), all, window.expires_at));
                    return Err(HandleError::Random(e));
                },
            };
            let track = pending.remove(0);
            assert(track == all[i as int]);
            let key = String::from_str(handle.expose());
            let record = TrackRecord {
                course: parent.course.duplicate(),
                video: parent.video.duplicate(),
                resource: track.resource,
                suggested_filename: String::from_str(track.suggested_filename.as_str()),
                expires_at: window.expires_at,
            };
            let ghost entry = track_entry(record);
            self.tracks.insert(key, record);
            assert(self.tracks_view() =~= insert_all(kept, track_handles(views@), track_entries(parent.course@, parent.video@, all, window.expires_at).take(i as int)).insert(handle@, entry));
            let view = TrackView { handle, kind: track.kind, suggested_filename: track.suggested_filename };
            proof {
                let es = track_entries(parent.course@, parent.video@, all, window.expires_at);
                lemma_insert_all_push(kept, track_handles(views@), es.take(i as int), view.handle@, entry);
                assert(es.take(i + 1) =~= es.take(i as int).push(entry));
                assert(track_handles(views@.push(view)) =~= track_handles(views@).push(view.handle@));
                assert(all.skip(i + 1) =~= all.skip(i as int).drop_first());
            }
            let ghost prev = views@;
            views.push(view);
            assert forall|j: int| 0 <= j < i + 1 implies #[trigger] views@[j].kind == all[j].kind
                && views@[j].suggested_filename@ == all[j].suggested_filename@ by {
                if j < i {
                    assert(views@[j] == prev[j]);
                }
            }
            i = i + 1;
        }
        assert(track_entries(parent.course@, parent.video@, all, window.expires_at).take(i as int) =~= track_entries(parent.course@, parent.video@, all, window.expires_at));
        Ok(views)
    }

    /// The record of track `track` of the parent video while it is valid at `now`.
    pub fn resolve_track(&self, parent: &TrackParent, track: &TrackHandle, now: i128) -> (r: Option<&TrackRecord<R>>)
        requires
            self.wf(),
        ensures
            r is Some <==> spec_track_resolves(self.tracks_view(), parent.course@, parent.video@, track@, now),
            r matches Some(t) ==> track_entry(*t) == self.tracks_view()[track@],
    {
        match self.tracks.get(track.expose()) {
            Some(record) => {
                if record.course.same(&parent.course) && record.video.same(&parent.video) && record.expires_at > now {
                    Some(record)
                } else {
                    None
                }
            },
            None => None,
        }
    }
}

/// Law: a handle issued in a window resolves to what it was issued for until the window ends,
/// and not from then on (for handles issued once in the batch).
pub proof fn lemma_issued_course_resolves(handles: Seq<Seq<char>>, courses: Seq<CourseListing>, expires_at: i128, i: int, now: i128)
    requires
        handles.len() == courses.len(),
        0 <= i < handles.len(),
        forall|j: int| 0 <= j < handles.len() && j != i ==> handles[j] != handles[i],
    ensures
        spec_resolve_course(insert_all(Map::empty(), handles, course_records(courses, expires_at)), handles[i], now)
            == if now < expires_at { Some(CourseRecord { canvas_id: courses[i].id, expires_at }) } else { None },
{
    lemma_insert_all_contents(Map::empty(), handles, course_records(courses, expires_at));
    assert(handles.contains(handles[i]));
}

/// Law: a video handle issued for a course resolves, under that course only, to the listed
/// recording until the window ends (for handles issued once in the batch and not held before).
pub proof fn lemma_issued_video_resolves(kept: Map<Seq<char>, VideoEntry>, course: Seq<char>, handles: Seq<Seq<char>>, videos: Seq<VideoListing>, expires_at: i128, i: int, other: Seq<char>, now: i128)
    requires
        handles.len() == videos.len(),
        0 <= i < handles.len(),
        forall|j: int| 0 <= j < handles.len() && j != i ==> handles[j] != handles[i],
        other != course,
    ensures
        ({
            let m = insert_all(kept, handles, video_entries(course, videos, expires_at));
            &&& spec_video_resolves(m, course, handles[i], now) <==> now < expires_at
            &&& m[handles[i]].real_id == videos[i].id@
            &&& !spec_video_resolves(m, other, handles[i], now)
        }),
{
    lemma_insert_all_contents(kept, handles, video_entries(course, videos, expires_at));
    assert(handles.contains(handles[i]));
}

/// Law: a track handle issued for a video resolves, under that course and video only, to the
/// registered resource until the window ends (for handles issued once in the batch).
pub proof fn lemma_issued_track_resolves<K, R>(kept: Map<Seq<char>, TrackEntry<R>>, course: Seq<char>, video: Seq<char>, handles: Seq<Seq<char>>, tracks: Seq<TrackRegistration<K, R>>, expires_at: i128, i: int, other_video: Seq<char>, now: i128)
    requires
        handles.len() == tracks.len(),
        0 <= i < handles.len(),
        forall|j: int| 0 <= j < handles.len() && j != i ==> handles[j] != handles[i],
        other_video != video,
    ensures
        ({
            let m = insert_all(kept, handles, track_entries(course, video, tracks, expires_at));
            &&& spec_track_resolves(m, course, video, handles[i], now) <==> now < expires_at
            &&& m[handles[i]].resource == tracks[i].resource
            &&& !spec_track_resolves(m, course, other_video, handles[i], now)
        }),
{
    lemma_insert_all_contents(kept, handles, track_entries(course, video, tracks, expires_at));
    assert(handles.contains(handles[i]));
}

/// Law: re-listing a course's videos leaves every video of other courses as it was, and no
/// earlier video handle of that course survives unless it was issued anew.
pub proof fn lemma_relisting_keeps_other_courses(old_videos: Map<Seq<char>, VideoEntry>, course: Seq<char>, handles: Seq<Seq<char>>, videos: Seq<VideoListing>, expires_at: i128, k: Seq<char>)
    requires
        handles.len() == videos.len(),
        old_videos.contains_key(k),
        !handles.contains(k),
    ensures
        ({
            let after = insert_all(
                old_videos.restrict(old_videos.dom().filter(|q: Seq<char>| old_videos[q].course != course)),
                handles,
                video_entries(course, videos, expires_at),
            );
            &&& old_videos[k].course != course ==> after.contains_key(k) && after[k] == old_videos[k]
            &&& old_videos[k].course == course ==> !after.contains_key(k)
        }),
{
    let kept = old_videos.restrict(old_videos.dom().filter(|q: Seq<char>| old_videos[q].course != course));
    lemma_insert_all_contents(kept, handles, video_entries(course, videos, expires_at));
}

} // verus!
