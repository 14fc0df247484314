//! Website sessions and the store that looks them up, expires and revokes them. Times are
//! nanoseconds since the Unix epoch.

use vstd::prelude::*;
use vstd::string::StringExecFns;
use crate::entries::KeyedEntries;
use crate::ids::{is_opaque_text, RandomIdError, SessionId};

verus! {

/// Why a session lookup failed.
#[derive(Debug, Clone, Copy, PartialEq, Eq, Structural)]
pub enum SessionLookupError {
    Invalid,
    Expired,
    Revoked,
}

/// How a new session is set up.
#[derive(Debug, Clone, Copy, PartialEq, Eq, Structural)]
pub struct UserSessionOptions {
    pub expires_at: i128,
    pub max_downloads: usize,
}

/// A signed-in user's session; `C` is what the session carries for talking to the upstream
/// services on the user's behalf.
pub struct UserSession<C> {
    id: SessionId,
    csrf_secret: String,
    context: C,
    created_at: i128,
    expires_at: i128,
    max_downloads: usize,
    revoked: bool,
}

impl<C> UserSession<C> {
    pub closed spec fn spec_id(&self) -> Seq<char> {
        self.id@
    }

    pub closed spec fn spec_csrf_secret(&self) -> Seq<char> {
        self.csrf_secret@
    }

    pub closed spec fn spec_context(&self) -> C {
        self.context
    }

    pub closed spec fn spec_created_at(&self) -> i128 {
        self.created_at
    }

    pub closed spec fn spec_expires_at(&self) -> i128 {
        self.expires_at
    }

    pub closed spec fn spec_max_downloads(&self) -> usize {
        self.max_downloads
    }

    pub closed spec fn spec_revoked(&self) -> bool {
        self.revoked
    }

    /// The session's CSRF secret.
    pub fn csrf_secret(&self) -> (r: &str)
        ensures
            r@ == self.spec_csrf_secret(),
    {
        self.csrf_secret.as_str()
    }

    /// A new session created at `now`, with a fresh identifier and a fresh CSRF secret.
    pub fn new(context: C, options: UserSessionOptions, now: i128) -> (r: Result<Self, RandomIdError>)
        ensures
            r matches Ok(s) ==> {
                &&& s.spec_context() == context
                &&& s.spec_created_at() == now
                &&& s.spec_expires_at() == options.expires_at
                &&& s.spec_max_downloads() == options.max_downloads
                &&& !s.spec_revoked()
                &&& is_opaque_text(s.spec_id())
                &&& is_opaque_text(s.spec_csrf_secret())
            },
    {
        let id = SessionId::generate()?;
        let secret = SessionId::generate()?;
        Ok(UserSession {
            id,
            csrf_secret: String::from_str(secret.expose()),
            context,
            created_at: now,
            expires_at: options.expires_at,
            max_downloads: options.max_downloads,
            revoked: false,
        })
    }

    /// The session's identifier.
    pub fn id(&self) -> (r: &SessionId)
        ensures
            r@ == self.spec_id(),
    {
        &self.id
    }

    /// What the session carries for the upstream services.
    pub fn context(&self) -> (r: &C)
        ensures
            *r == self.spec_context(),
    {
        &self.context
    }

    /// When the session ends.
    pub fn expires_at(&self) -> (r: i128)
        ensures
            r == self.spec_expires_at(),
    {
        self.expires_at
    }

    /// When the session began.
    pub fn created_at(&self) -> (r: i128)
        ensures
            r == self.spec_created_at(),
    {
        self.created_at
    }

    /// How many downloads the user may run at once.
    pub fn max_downloads(&self) -> (r: usize)
        ensures
            r == self.spec_max_downloads(),
    {
        self.max_downloads
    }

    /// Marks the session revoked.
    pub fn revoke(&mut self)
        ensures
            final(self).spec_revoked(),
            final(self).spec_id() == old(self).spec_id(),
            final(self).spec_csrf_secret() == old(self).spec_csrf_secret(),
            final(self).spec_context() == old(self).spec_context(),
            final(self).spec_created_at() == old(self).spec_created_at(),
            final(self).spec_expires_at() == old(self).spec_expires_at(),
    {
        self.revoked = true;
    }

    /// Whether the session has been revoked.
    pub fn is_revoked(&self) -> (r: bool)
        ensures
            r == self.spec_revoked(),
    {
        self.revoked
    }
}

/// What looking up `id` at `now` in `m` gives.
pub open spec fn spec_lookup_session<C>(m: Map<Seq<char>, UserSession<C>>, id: Seq<char>, now: i128) -> Result<UserSession<C>, SessionLookupError> {
    if !m.contains_key(id) {
        Err(SessionLookupError::Invalid)
    } else if m[id].spec_revoked() {
        Err(SessionLookupError::Revoked)
    } else if m[id].spec_expires_at() <= now {
        Err(SessionLookupError::Expired)
    } else {
        Ok(m[id])
    }
}

/// Sessions by identifier.
pub struct SessionStore<C> {
    entries: KeyedEntries<UserSession<C>>,
}

impl<C> View for SessionStore<C> {
    type V = Map<Seq<char>, UserSession<C>>;

    closed spec fn view(&self) -> Map<Seq<char>, UserSession<C>> {
        self.entries@
    }
}

impl<C> SessionStore<C> {
    /// Every session is stored under its own identifier.
    pub closed spec fn wf(&self) -> bool {
        &&& self.entries.wf()
        &&& forall|k: Seq<char>| #[trigger] self.entries@.contains_key(k) ==> self.entries@[k].spec_id() == k
    }

    /// No sessions.
    pub fn new() -> (r: Self)
        ensures
            r.wf(),
            r@ == Map::<Seq<char>, UserSession<C>>::empty(),
    {
        SessionStore { entries: KeyedEntries::new() }
    }

    /// Stores `session` under its identifier.
    pub fn insert(&mut self, session: UserSession<C>)
        requires
            old(self).wf(),
        ensures
            final(self).wf(),
            final(self)@ == old(self)@.insert(session.spec_id(), session),
    {
        let key = String::from_str(session.id.expose());
        self.entries.insert(key, session);
    }

    /// Removes session `id`, revoked, handing it back.
    pub fn remove(&mut self, id: &SessionId) -> (r: Option<UserSession<C>>)
        requires
            old(self).wf(),
        ensures
            final(self).wf(),
            final(self)@ == old(self)@.remove(id@),
            match r {
                Some(s) => old(self)@.contains_key(id@) && s.spec_revoked()
                    && s.spec_id() == id@
                    && s.spec_context() == old(self)@[id@].spec_context()
                    && s.spec_expires_at() == old(self)@[id@].spec_expires_at(),
                None => !old(self)@.contains_key(id@),
            },
    {
        match self.entries.remove(id.expose()) {
            Some(mut session) => {
                session.revoke();
                Some(session)
            },
            None => None,
        }
    }

    /// Session `id` at `now`: `Invalid` when unknown; `Revoked` or `Expired` when it was revoked
    /// or has reached its expiry, and then it is removed, revoked and handed back.
    pub fn lookup_or_evict(&mut self, id: &SessionId, now: i128) -> (r: Result<&UserSession<C>, (SessionLookupError, Option<UserSession<C>>)>)
        requires
            old(self).wf(),
        ensures
            final(self).wf(),
            match r {
                Ok(s) => spec_lookup_session(old(self)@, id@, now) == Ok::<UserSession<C>, SessionLookupError>(*s),
                Err((e, _)) => spec_lookup_session(old(self)@, id@, now) == Err::<UserSession<C>, SessionLookupError>(e),
            },
            final(self)@ == if spec_lookup_session(old(self)@, id@, now) is Ok || !old(self)@.contains_key(id@) {
                old(self)@
            } else {
                old(self)@.remove(id@)
            },
            r matches Ok(s) ==> {
                &&& s.spec_id() == id@
                &&& now < s.spec_expires_at()
                &&& !s.spec_revoked()
            },
            r matches Err((e, evicted)) ==> match evicted {
                Some(s) => e != SessionLookupError::Invalid && s.spec_revoked() && s.spec_id() == id@
                    && s.spec_context() == old(self)@[id@].spec_context()
                    && s.spec_expires_at() == old(self)@[id@].spec_expires_at(),
                None => e == SessionLookupError::Invalid,
            },
    {
        let (revoked, expired) = match self.entries.get(id.expose()) {
            None => return Err((SessionLookupError::Invalid, None)),
            Some(s) => (s.is_revoked(), s.expires_at() <= now),
        };
        if revoked {
            let removed = self.remove(id);
            return Err((SessionLookupError::Revoked, removed));
        }
        if expired {
            let removed = self.remove(id);
            return Err((SessionLookupError::Expired, removed));
        }
        match self.entries.get(id.expose()) {
            Some(s) => Ok(s),
            None => Err((SessionLookupError::Invalid, None)),
        }
    }

    /// Session `id` at `now`: `Invalid` when unknown; `Revoked` or `Expired` (and removed, revoked)
    /// when it was revoked or has reached its expiry.
    pub fn lookup(&mut self, id: &SessionId, now: i128) -> (r: Result<&UserSession<C>, SessionLookupError>)
        requires
            old(self).wf(),
        ensures
            final(self).wf(),
            match r {
                Ok(s) => spec_lookup_session(old(self)@, id@, now) == Ok::<UserSession<C>, SessionLookupError>(*s),
                Err(e) => spec_lookup_session(old(self)@, id@, now) == Err::<UserSession<C>, SessionLookupError>(e),
            },
            final(self)@ == if r is Ok || r == Err::<&UserSession<C>, SessionLookupError>(SessionLookupError::Invalid) {
                old(self)@
            } else {
                old(self)@.remove(id@)
            },
            r matches Ok(s) ==> {
                &&& s.spec_id() == id@
                &&& now < s.spec_expires_at()
                &&& !s.spec_revoked()
            },
    {
        match self.lookup_or_evict(id, now) {
            Ok(s) => Ok(s),
            Err((e, _)) => Err(e),
        }
    }

    /// Session `id` while it is active at `now`.
    pub fn get_active(&mut self, id: &SessionId, now: i128) -> (r: Option<&UserSession<C>>)
        requires
            old(self).wf(),
        ensures
            final(self).wf(),
            match r {
                Some(s) => spec_lookup_session(old(self)@, id@, now) == Ok::<UserSession<C>, SessionLookupError>(*s),
                None => spec_lookup_session(old(self)@, id@, now) is Err,
            },
            final(self)@ == if spec_lookup_session(old(self)@, id@, now) is Ok || !old(self)@.contains_key(id@) {
                old(self)@
            } else {
                old(self)@.remove(id@)
            },
    {
        match self.lookup(id, now) {
            Ok(s) => Some(s),
            Err(_) => None,
        }
    }

    /// Removes every session that has reached its expiry at `now`; gives how many were removed.
    pub fn cleanup_expired(&mut self, now: i128) -> (r: usize)
        requires
            old(self).wf(),
        ensures
            final(self).wf(),
            forall|k: Seq<char>| #[trigger] final(self)@.contains_key(k) <==> old(self)@.contains_key(k) && old(self)@[k].spec_expires_at() > now,
            forall|k: Seq<char>| final(self)@.contains_key(k) ==> #[trigger] final(self)@[k] == old(self)@[k],
            r == old(self)@.len() - final(self)@.len(),
    {
        let keep = |s: &UserSession<C>| -> (b: bool)
            ensures
                b <==> s.spec_expires_at() > now,
        { s.expires_at() > now };
        self.entries.retain(keep, Ghost(|s: UserSession<C>| s.spec_expires_at() > now))
    }

    /// Revokes and removes every session; gives how many there were.
    pub fn revoke_all(&mut self) -> (r: usize)
        requires
            old(self).wf(),
        ensures
            final(self).wf(),
            final(self)@ == Map::<Seq<char>, UserSession<C>>::empty(),
            r == old(self)@.len(),
    {
        let n = self.entries.len();
        self.entries.clear();
        n
    }

    /// Number of sessions.
    pub fn len(&self) -> (r: usize)
        requires
            self.wf(),
        ensures
            r == self@.len(),
    {
        self.entries.len()
    }

    /// Whether there are no sessions.
    pub fn is_empty(&self) -> (r: bool)
        requires
            self.wf(),
        ensures
            r == (self@.len() == 0),
    {
        self.entries.len() == 0
    }
}

/// Law: a session just stored is found until it expires, then reported expired; once removed it
/// is unknown.
pub proof fn lemma_session_lifecycle<C>(m: Map<Seq<char>, UserSession<C>>, s: UserSession<C>, now: i128)
    requires
        !s.spec_revoked(),
    ensures
        spec_lookup_session(m.insert(s.spec_id(), s), s.spec_id(), now) == if now < s.spec_expires_at() {
            Ok::<UserSession<C>, SessionLookupError>(s)
        } else {
            Err(SessionLookupError::Expired)
        },
        spec_lookup_session(m.insert(s.spec_id(), s).remove(s.spec_id()), s.spec_id(), now) == Err::<UserSession<C>, SessionLookupError>(SessionLookupError::Invalid),
{
}

} // verus!
