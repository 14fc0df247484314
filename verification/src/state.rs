//! The server's shared stores of sessions, pending logins and download tickets, and the
//! operations that span them.

use vstd::prelude::*;
use crate::ids::{PendingLoginId, SessionId};
use crate::pending::PendingLogin;
use crate::pending_store::PendingLoginStore;
use crate::session_store::{spec_lookup_session, SessionLookupError, SessionStore, UserSession};
use crate::ticket::{spec_lookup, DownloadTicket, DownloadTicketStore};

verus! {

/// How many entries one cleanup pass removed from each store.
#[derive(Debug, Clone, Copy, PartialEq, Eq, Structural)]
pub struct CleanupSummary {
    pub sessions: usize,
    pub pending_logins: usize,
    pub tickets: usize,
}

/// The stores: sessions carrying `C`, pending logins holding `L`, tickets naming resources `R`.
pub struct Stores<C, L, R> {
    pub sessions: SessionStore<C>,
    pub pending_logins: PendingLoginStore<L>,
    pub tickets: DownloadTicketStore<R>,
}

impl<C, L, R> Stores<C, L, R> {
    pub open spec fn wf(&self) -> bool {
        &&& self.sessions.wf()
        &&& self.pending_logins.wf()
        &&& self.tickets.wf()
    }

    /// Empty stores, with room for `max_pending_logins` pending logins.
    pub fn new(max_pending_logins: usize) -> (r: Self)
        ensures
            r.wf(),
            r.sessions@ == Map::<Seq<char>, UserSession<C>>::empty(),
            r.pending_logins@ == Map::<Seq<char>, PendingLogin<L>>::empty(),
            r.pending_logins.spec_max() == max_pending_logins,
            r.tickets@ == Map::<Seq<char>, DownloadTicket<R>>::empty(),
    {
        Stores {
            sessions: SessionStore::new(),
            pending_logins: PendingLoginStore::new(max_pending_logins),
            tickets: DownloadTicketStore::new(),
        }
    }

    /// Removes what has expired at `now` from every store; gives the counts and the pending
    /// logins that expired.
    pub fn cleanup_expired(&mut self, now: i128) -> (r: (CleanupSummary, Vec<PendingLoginId>))
        requires
            old(self).wf(),
        ensures
            final(self).wf(),
            forall|k: Seq<char>| #[trigger] final(self).sessions@.contains_key(k) <==> old(self).sessions@.contains_key(k) && old(self).sessions@[k].spec_expires_at() > now,
            forall|k: Seq<char>| #[trigger] final(self).pending_logins@.contains_key(k) <==> old(self).pending_logins@.contains_key(k) && old(self).pending_logins@[k].spec_effective_expires_at() > now,
            forall|k: Seq<char>| #[trigger] final(self).tickets@.contains_key(k) <==> old(self).tickets@.contains_key(k) && old(self).tickets@[k].spec_expires_at() > now,
            forall|k: Seq<char>| final(self).sessions@.contains_key(k) ==> #[trigger] final(self).sessions@[k] == old(self).sessions@[k],
            forall|k: Seq<char>| final(self).pending_logins@.contains_key(k) ==> #[trigger] final(self).pending_logins@[k] == old(self).pending_logins@[k],
            forall|k: Seq<char>| final(self).tickets@.contains_key(k) ==> #[trigger] final(self).tickets@[k] == old(self).tickets@[k],
            r.0.sessions == old(self).sessions@.len() - final(self).sessions@.len(),
            r.0.pending_logins == old(self).pending_logins@.len() - final(self).pending_logins@.len(),
            r.0.pending_logins == r.1@.len(),
            r.0.tickets == old(self).tickets@.len() - final(self).tickets@.len(),
    {
        let sessions = self.sessions.cleanup_expired(now);
        let expired = self.pending_logins.expire(now);
        let tickets = self.tickets.cleanup_expired(now);
        (CleanupSummary { sessions, pending_logins: expired.len(), tickets }, expired)
    }

    /// Shutting down: every pending login is cancelled, every session revoked, every ticket
    /// dropped.
    pub fn begin_shutdown(&mut self)
        requires
            old(self).wf(),
        ensures
            final(self).wf(),
            final(self).sessions@ == Map::<Seq<char>, UserSession<C>>::empty(),
            final(self).pending_logins@ == Map::<Seq<char>, PendingLogin<L>>::empty(),
            final(self).tickets@ == Map::<Seq<char>, DownloadTicket<R>>::empty(),
    {
        self.pending_logins.cancel_all();
        self.sessions.revoke_all();
        self.tickets.clear();
    }

    /// Signs session `id` out: the session is removed (revoked) and so are its tickets.
    pub fn logout(&mut self, id: &SessionId) -> (r: Option<UserSession<C>>)
        requires
            old(self).wf(),
        ensures
            final(self).wf(),
            final(self).sessions@ == old(self).sessions@.remove(id@),
            forall|k: Seq<char>| #[trigger] final(self).tickets@.contains_key(k) <==> old(self).tickets@.contains_key(k) && old(self).tickets@[k].spec_session() != id@,
            forall|k: Seq<char>| final(self).tickets@.contains_key(k) ==> #[trigger] final(self).tickets@[k] == old(self).tickets@[k],
            final(self).pending_logins@ == old(self).pending_logins@,
            r is Some <==> old(self).sessions@.contains_key(id@),
            r matches Some(s) ==> s.spec_revoked() && s.spec_id() == id@,
    {
        let removed = self.sessions.remove(id);
        self.tickets.remove_for_session(id);
        removed
    }
}

/// Law: after signing out, the session is unknown and none of its tickets resolves for it.
pub proof fn lemma_logout_forgets_session<C, R>(
    sessions: Map<Seq<char>, UserSession<C>>,
    tickets: Map<Seq<char>, DownloadTicket<R>>,
    id: Seq<char>,
    ticket: Seq<char>,
    now: i128,
)
    requires
        forall|k: Seq<char>| #[trigger] tickets.contains_key(k) ==> tickets[k].spec_session() != id,
    ensures
        spec_lookup_session(sessions.remove(id), id, now) == Err::<UserSession<C>, SessionLookupError>(SessionLookupError::Invalid),
        spec_lookup(tickets, ticket, id, now) is Err,
{
}

} // verus!
