//! Download tickets: short-lived, session-bound names for one registered track.

use vstd::prelude::*;
use std::sync::Arc;
use vstd::string::StringExecFns;
use crate::entries::KeyedEntries;
use crate::ids::{CourseHandle, DownloadTicketId, RandomIdError, SessionId, TrackHandle, VideoHandle};

verus! {

/// Shares an `Arc` (std `Arc::clone`): the copy points at the same value.
#[verifier::external_body]
pub(crate) fn share<T>(a: &Arc<T>) -> (r: Arc<T>)
    ensures
        r == *a,
{
    a.clone()
}

/// The course and video that a track belongs to.
#[derive(Clone)]
pub struct TrackParent {
    pub course: CourseHandle,
    pub video: VideoHandle,
}

impl TrackParent {
    /// A copy of the parent.
    pub fn duplicate(&self) -> (r: Self)
        ensures
            r.course@ == self.course@,
            r.video@ == self.video@,
    {
        TrackParent { course: self.course.duplicate(), video: self.video.duplicate() }
    }
}

/// A registered track: its parents, its upstream resource `R`, its file name and expiry
/// (nanoseconds since the Unix epoch).
#[derive(Clone)]
pub struct TrackRecord<R> {
    pub course: CourseHandle,
    pub video: VideoHandle,
    pub resource: R,
    pub suggested_filename: String,
    pub expires_at: i128,
}

/// A request for a ticket on a track of the session.
pub struct TicketRequest<R> {
    pub session_id: SessionId,
    pub parent: TrackParent,
    pub track: TrackHandle,
    pub record: TrackRecord<R>,
}

/// A ticket that names one track's resource for one session until it expires.
pub struct DownloadTicket<R> {
    id: DownloadTicketId,
    session_id: SessionId,
    parent: TrackParent,
    track: TrackHandle,
    resource: R,
    suggested_filename: String,
    created_at: i128,
    expires_at: i128,
}

/// Why a ticket could not be issued.
#[derive(Debug, Clone, Copy, PartialEq, Eq)]
pub enum TicketStoreError {
    Random(RandomIdError),
    BindingMismatch,
}

/// Why a ticket lookup failed.
#[derive(Debug, Clone, Copy, PartialEq, Eq)]
pub enum TicketLookupError {
    Invalid,
    Expired,
    SessionMismatch,
}

impl<R> DownloadTicket<R> {
    /// The ticket's identifier text.
    pub closed spec fn spec_id(&self) -> Seq<char> {
        self.id@
    }

    /// The session the ticket belongs to.
    pub closed spec fn spec_session(&self) -> Seq<char> {
        self.session_id@
    }

    /// When the ticket expires.
    pub closed spec fn spec_expires_at(&self) -> i128 {
        self.expires_at
    }

    /// When the ticket was issued.
    pub closed spec fn spec_created_at(&self) -> i128 {
        self.created_at
    }

    /// The resource the ticket names.
    pub closed spec fn spec_resource(&self) -> R {
        self.resource
    }

    /// The suggested file name.
    pub closed spec fn spec_filename(&self) -> Seq<char> {
        self.suggested_filename@
    }

    /// The course, video and track the ticket was issued for.
    pub closed spec fn spec_binding(&self) -> (Seq<char>, Seq<char>, Seq<char>) {
        (self.parent.course@, self.parent.video@, self.track@)
    }

    /// The ticket's identifier.
    pub fn id(&self) -> (r: &DownloadTicketId)
        ensures
            r@ == self.spec_id(),
    {
        &self.id
    }

    /// The upstream resource.
    pub fn resource(&self) -> (r: &R)
        ensures
            *r == self.spec_resource(),
    {
        &self.resource
    }

    /// The file name suggested for the download.
    pub fn suggested_filename(&self) -> (r: &str)
        ensures
            r@ == self.spec_filename(),
    {
        self.suggested_filename.as_str()
    }

    /// Expiry, in nanoseconds since the Unix epoch.
    pub fn expires_at(&self) -> (r: i128)
        ensures
            r == self.spec_expires_at(),
    {
        self.expires_at
    }

    /// Issue time, in nanoseconds since the Unix epoch.
    pub fn created_at(&self) -> (r: i128)
        ensures
            r == self.spec_created_at(),
    {
        self.created_at
    }

    /// The owning session.
    pub fn session_id(&self) -> (r: &SessionId)
        ensures
            r@ == self.spec_session(),
    {
        &self.session_id
    }

    /// The course and video of the track.
    pub fn parent(&self) -> (r: &TrackParent)
        ensures
            (r.course@, r.video@, self.spec_binding().2) == self.spec_binding(),
    {
        &self.parent
    }

    /// The track handle.
    pub fn track(&self) -> (r: &TrackHandle)
        ensures
            r@ == self.spec_binding().2,
    {
        &self.track
    }
}

/// Whether the request's record belongs to the request's parent.
pub open spec fn spec_request_consistent<R>(request: TicketRequest<R>) -> bool {
    request.record.course@ == request.parent.course@ && request.record.video@ == request.parent.video@
}

/// Checks that the record belongs to the parent named in the request.
pub fn validate_request<R>(request: &TicketRequest<R>) -> (r: Result<(), TicketStoreError>)
    ensures
        r is Ok <==> spec_request_consistent(*request),
        r is Err ==> r == Err::<(), TicketStoreError>(TicketStoreError::BindingMismatch),
{
    if request.record.course.same(&request.parent.course) && request.record.video.same(&request.parent.video) {
        Ok(())
    } else {
        Err(TicketStoreError::BindingMismatch)
    }
}

/// What looking up ticket `id` for `session` at `now` gives in the tickets `m`.
pub open spec fn spec_lookup<R>(m: Map<Seq<char>, DownloadTicket<R>>, id: Seq<char>, session: Seq<char>, now: i128) -> Result<DownloadTicket<R>, TicketLookupError> {
    if !m.contains_key(id) {
        Err(TicketLookupError::Invalid)
    } else if m[id].spec_expires_at() <= now {
        Err(TicketLookupError::Expired)
    } else if m[id].spec_session() != session {
        Err(TicketLookupError::SessionMismatch)
    } else {
        Ok(m[id])
    }
}

/// Tickets by identifier.
pub struct DownloadTicketStore<R> {
    entries: KeyedEntries<Arc<DownloadTicket<R>>>,
}

impl<R> View for DownloadTicketStore<R> {
    type V = Map<Seq<char>, DownloadTicket<R>>;

    closed spec fn view(&self) -> Map<Seq<char>, DownloadTicket<R>> {
        Map::new(|k: Seq<char>| self.entries@.contains_key(k), |k: Seq<char>| *self.entries@[k])
    }
}

impl<R> DownloadTicketStore<R> {
    /// Entries are stored under their own identifiers.
    pub closed spec fn wf(&self) -> bool {
        &&& self.entries.wf()
        &&& forall|k: Seq<char>| #[trigger] self.entries@.contains_key(k) ==> self.entries@[k].spec_id() == k
    }

    proof fn lemma_view(&self)
        ensures
            forall|k: Seq<char>| #[trigger] self@.contains_key(k) == self.entries@.contains_key(k),
            forall|k: Seq<char>| self@.contains_key(k) ==> #[trigger] self@[k] == *self.entries@[k],
            self@.dom() == self.entries@.dom(),
    {
        assert(self@.dom() =~= self.entries@.dom());
    }

    /// No tickets.
    pub fn new() -> (r: Self)
        ensures
            r.wf(),
            r@ == Map::<Seq<char>, DownloadTicket<R>>::empty(),
    {
        let r = DownloadTicketStore { entries: KeyedEntries::new() };
        assert(r@ =~= Map::<Seq<char>, DownloadTicket<R>>::empty());
        r
    }

    /// Issues a ticket for the request, valid from `now` for `ttl` nanoseconds. Refused when the
    /// record does not belong to the parent the request names.
    pub fn issue(&mut self, request: TicketRequest<R>, now: i128, ttl: i128) -> (r: Result<Arc<DownloadTicket<R>>, TicketStoreError>)
        requires
            old(self).wf(),
            i128::MIN <= now + ttl <= i128::MAX,
        ensures
            final(self).wf(),
            r == Err::<Arc<DownloadTicket<R>>, TicketStoreError>(TicketStoreError::BindingMismatch) <==> !spec_request_consistent(request),
            r is Err ==> final(self)@ == old(self)@,
            r matches Ok(t) ==> {
                &&& spec_request_consistent(request)
                &&& final(self)@ == old(self)@.insert(t.spec_id(), *t)
                &&& t.spec_session() == request.session_id@
                &&& t.spec_binding() == (request.parent.course@, request.parent.video@, request.track@)
                &&& t.spec_resource() == request.record.resource
                &&& t.spec_filename() == request.record.suggested_filename@
                &&& t.spec_created_at() == now
                &&& t.spec_expires_at() == now + ttl
            },
            r matches Err(TicketStoreError::Random(_)) ==> spec_request_consistent(request),
    {
        proof {
            self.lemma_view();
        }
        validate_request(&request)?;
        let id = match DownloadTicketId::generate() {
            Ok(id) => id,
            Err(e) => return Err(TicketStoreError::Random(e)),
        };
        let key = String::from_str(id.expose());
        let ticket = Arc::new(DownloadTicket {
            id,
            session_id: request.session_id,
            parent: request.parent,
            track: request.track,
            resource: request.record.resource,
            suggested_filename: request.record.suggested_filename,
            created_at: now,
            expires_at: now + ttl,
        });
        self.entries.insert(key, share(&ticket));
        proof {
            self.lemma_view();
            assert(self@ =~= old(self)@.insert(ticket.spec_id(), *ticket));
        }
        Ok(ticket)
    }

    /// The ticket `id` for `session_id` at `now`: `Invalid` when unknown, `Expired` (and
    /// removed) once `now` has reached its expiry, `SessionMismatch` when another session owns it.
    pub fn resolve(&mut self, id: &DownloadTicketId, session_id: &SessionId, now: i128) -> (r: Result<Arc<DownloadTicket<R>>, TicketLookupError>)
        requires
            old(self).wf(),
        ensures
            final(self).wf(),
            match r {
                Ok(t) => spec_lookup(old(self)@, id@, session_id@, now) == Ok::<DownloadTicket<R>, TicketLookupError>(*t),
                Err(e) => spec_lookup(old(self)@, id@, session_id@, now) == Err::<DownloadTicket<R>, TicketLookupError>(e),
            },
            final(self)@ == if spec_lookup(old(self)@, id@, session_id@, now) == Err::<DownloadTicket<R>, TicketLookupError>(TicketLookupError::Expired) {
                old(self)@.remove(id@)
            } else {
                old(self)@
            },
            r matches Ok(t) ==> {
                &&& t.spec_id() == id@
                &&& t.spec_session() == session_id@
                &&& now < t.spec_expires_at()
            },
    {
        proof {
            self.lemma_view();
        }
        let ticket = match self.entries.get(id.expose()) {
            Some(t) => share(t),
            None => return Err(TicketLookupError::Invalid),
        };
        if ticket.expires_at() <= now {
            self.entries.remove(id.expose());
            proof {
                self.lemma_view();
                assert(self@ =~= old(self)@.remove(id@));
            }
            return Err(TicketLookupError::Expired);
        }
        if !ticket.session_id().same(session_id) {
            return Err(TicketLookupError::SessionMismatch);
        }
        Ok(ticket)
    }

    /// Removes every ticket of `session_id`; gives how many were removed.
    pub fn remove_for_session(&mut self, session_id: &SessionId) -> (r: usize)
        requires
            old(self).wf(),
        ensures
            final(self).wf(),
            forall|k: Seq<char>| #[trigger] final(self)@.contains_key(k) <==> old(self)@.contains_key(k) && old(self)@[k].spec_session() != session_id@,
            forall|k: Seq<char>| final(self)@.contains_key(k) ==> #[trigger] final(self)@[k] == old(self)@[k],
            r == old(self)@.len() - final(self)@.len(),
    {
        proof {
            self.lemma_view();
        }
        let keys = self.entries.keys();
        let ghost start = self.entries@;
        let mut removed: usize = 0;
        let mut i: usize = 0;
        proof {
            self.entries.lemma_len();
        }
        while i < keys.len()
            invariant
                self.wf(),
                i <= keys@.len(),
                forall|j: int| 0 <= j < keys@.len() ==> #[trigger] start.contains_key(keys@[j]@),
                forall|a: int, b: int| 0 <= a < b < keys@.len() ==> keys@[a]@ != keys@[b]@,
                forall|k: Seq<char>| #[trigger] self.entries@.contains_key(k) ==> start.contains_key(k) && self.entries@[k] == start[k],
                forall|k: Seq<char>| start.contains_key(k) && start[k].spec_session() != session_id@ ==> #[trigger] self.entries@.contains_key(k),
                forall|j: int| 0 <= j < i && start[keys@[j]@].spec_session() == session_id@ ==> !self.entries@.contains_key(#[trigger] keys@[j]@),
                forall|j: int| i <= j < keys@.len() ==> self.entries@.contains_key(#[trigger] keys@[j]@),
                self.entries@.dom().finite(),
                start.dom().finite(),
                start.len() == keys@.len(),
                removed as int == start.len() - self.entries@.len(),
            decreases keys.len() - i,
        {
            let key = &keys[i];
            let matches = match self.entries.get(key.as_str()) {
                Some(t) => t.session_id().same(session_id),
                None => false,
            };
            if matches {
                let gone = self.entries.remove(key.as_str());
                assert(gone is Some);
                assert forall|j: int| i < j < keys@.len() implies self.entries@.contains_key(#[trigger] keys@[j]@) by {
                    assert(keys@[j]@ != keys@[i as int]@);
                }
                removed = removed + 1;
            }
            i = i + 1;
        }
        proof {
            self.lemma_view();
            assert forall|k: Seq<char>| #[trigger] self@.contains_key(k) <==> old(self)@.contains_key(k) && old(self)@[k].spec_session() != session_id@ by {
                if old(self)@.contains_key(k) && old(self)@[k].spec_session() == session_id@ {
                    let j = choose|j: int| 0 <= j < keys@.len() && keys@[j]@ == k;
                    assert(!self.entries@.contains_key(keys@[j]@));
                }
            }
        }
        removed
    }

    /// Removes every ticket that has expired at `now`; gives how many were removed.
    pub fn cleanup_expired(&mut self, now: i128) -> (r: usize)
        requires
            old(self).wf(),
        ensures
            final(self).wf(),
            forall|k: Seq<char>| #[trigger] final(self)@.contains_key(k) <==> old(self)@.contains_key(k) && old(self)@[k].spec_expires_at() > now,
            forall|k: Seq<char>| final(self)@.contains_key(k) ==> #[trigger] final(self)@[k] == old(self)@[k],
            r == old(self)@.len() - final(self)@.len(),
    {
        proof {
            self.lemma_view();
        }
        let keys = self.entries.keys();
        let ghost start = self.entries@;
        let mut removed: usize = 0;
        let mut i: usize = 0;
        proof {
            self.entries.lemma_len();
        }
        while i < keys.len()
            invariant
                self.wf(),
                i <= keys@.len(),
                forall|j: int| 0 <= j < keys@.len() ==> #[trigger] start.contains_key(keys@[j]@),
                forall|a: int, b: int| 0 <= a < b < keys@.len() ==> keys@[a]@ != keys@[b]@,
                forall|k: Seq<char>| #[trigger] self.entries@.contains_key(k) ==> start.contains_key(k) && self.entries@[k] == start[k],
                forall|k: Seq<char>| start.contains_key(k) && start[k].spec_expires_at() > now ==> #[trigger] self.entries@.contains_key(k),
                forall|j: int| 0 <= j < i && start[keys@[j]@].spec_expires_at() <= now ==> !self.entries@.contains_key(#[trigger] keys@[j]@),
                forall|j: int| i <= j < keys@.len() ==> self.entries@.contains_key(#[trigger] keys@[j]@),
                self.entries@.dom().finite(),
                start.dom().finite(),
                start.len() == keys@.len(),
                removed as int == start.len() - self.entries@.len(),
            decreases keys.len() - i,
        {
            let key = &keys[i];
            let expired = match self.entries.get(key.as_str()) {
                Some(t) => t.expires_at() <= now,
                None => false,
            };
            if expired {
                let gone = self.entries.remove(key.as_str());
                assert(gone is Some);
                assert forall|j: int| i < j < keys@.len() implies self.entries@.contains_key(#[trigger] keys@[j]@) by {
                    assert(keys@[j]@ != keys@[i as int]@);
                }
                removed = removed + 1;
            }
            i = i + 1;
        }
        proof {
            self.lemma_view();
            assert forall|k: Seq<char>| #[trigger] self@.contains_key(k) <==> old(self)@.contains_key(k) && old(self)@[k].spec_expires_at() > now by {
                if old(self)@.contains_key(k) && old(self)@[k].spec_expires_at() <= now {
                    let j = choose|j: int| 0 <= j < keys@.len() && keys@[j]@ == k;
                    assert(!self.entries@.contains_key(keys@[j]@));
                }
            }
        }
        removed
    }

    /// Number of tickets.
    pub fn len(&self) -> (r: usize)
        requires
            self.wf(),
        ensures
            r == self@.len(),
    {
        proof {
            self.lemma_view();
        }
        self.entries.len()
    }

    /// Whether there are no tickets.
    pub fn is_empty(&self) -> (r: bool)
        requires
            self.wf(),
        ensures
            r == (self@.len() == 0),
    {
        self.len() == 0
    }

    /// Removes every ticket; gives how many there were.
    pub fn clear(&mut self) -> (r: usize)
        requires
            old(self).wf(),
        ensures
            final(self).wf(),
            final(self)@ == Map::<Seq<char>, DownloadTicket<R>>::empty(),
            r == old(self)@.len(),
    {
        let count = self.len();
        self.entries.clear();
        proof {
            self.lemma_view();
            assert(self@ =~= Map::<Seq<char>, DownloadTicket<R>>::empty());
        }
        count
    }
}

/// Law: a ticket just issued resolves to itself for its own session until it expires, is refused
/// to any other session, and reports expiry from its expiry time on.
pub proof fn lemma_issued_ticket_resolves<R>(m: Map<Seq<char>, DownloadTicket<R>>, t: DownloadTicket<R>, other: Seq<char>, now: i128)
    requires
        other != t.spec_session(),
    ensures
        spec_lookup(m.insert(t.spec_id(), t), t.spec_id(), t.spec_session(), now) == if now < t.spec_expires_at() {
            Ok::<DownloadTicket<R>, TicketLookupError>(t)
        } else {
            Err(TicketLookupError::Expired)
        },
        now < t.spec_expires_at() ==> spec_lookup(m.insert(t.spec_id(), t), t.spec_id(), other, now) == Err::<DownloadTicket<R>, TicketLookupError>(TicketLookupError::SessionMismatch),
{
}

/// Law: once a session's tickets are removed, no ticket resolves for that session.
pub proof fn lemma_removed_session_has_no_ticket<R>(m: Map<Seq<char>, DownloadTicket<R>>, session: Seq<char>, id: Seq<char>, now: i128)
    requires
        forall|k: Seq<char>| #[trigger] m.contains_key(k) ==> m[k].spec_session() != session,
    ensures
        spec_lookup(m, id, session, now) is Err,
{
}

} // verus!
