//! The store of pending QR logins, bounded by a capacity, and the operations the login workflow
//! performs on one login by its identifier.

use vstd::prelude::*;
use vstd::string::StringExecFns;
use crate::entries::KeyedEntries;
use crate::ids::{BrowserBinding, PendingLoginId};
use crate::invite::InviteReservation;
use crate::pending::{
    spec_push_event, spec_valid_transition, LoginEvent, PendingLogin, PendingLoginState,
    PendingStoreError, COMPLETED_RETENTION_NANOS,
};

verus! {

/// What looking up a pending login for a browser finds.
#[derive(Debug, Clone, Copy, PartialEq, Eq, Structural)]
pub enum PendingAccess {
    /// No such login.
    Missing,
    /// The login had passed its deadline; it has been removed.
    Expired,
    /// The login belongs to another browser.
    Forbidden,
    /// The login is live and belongs to this browser.
    Granted,
}

/// What a lookup of `id` for `binding` at `now` finds in `m`.
pub open spec fn spec_access<L>(m: Map<Seq<char>, PendingLogin<L>>, id: Seq<char>, binding: Seq<char>, now: i128) -> PendingAccess {
    if !m.contains_key(id) {
        PendingAccess::Missing
    } else if m[id].spec_effective_expires_at() <= now {
        PendingAccess::Expired
    } else if m[id].spec_binding() != binding {
        PendingAccess::Forbidden
    } else {
        PendingAccess::Granted
    }
}

/// What claiming `id` for `binding` at `now` hands out from `m`.
pub open spec fn spec_claim<L>(m: Map<Seq<char>, PendingLogin<L>>, id: Seq<char>, binding: Seq<char>, now: i128) -> Option<L> {
    if spec_access(m, id, binding, now) == PendingAccess::Granted && m[id].spec_state() == PendingLoginState::Completed {
        m[id].spec_authenticated()
    } else {
        None
    }
}

/// Pending logins by identifier, never more than `max_entries` reserved at once.
pub struct PendingLoginStore<L> {
    entries: KeyedEntries<PendingLogin<L>>,
    count: usize,
    max_entries: usize,
}

impl<L> View for PendingLoginStore<L> {
    type V = Map<Seq<char>, PendingLogin<L>>;

    closed spec fn view(&self) -> Map<Seq<char>, PendingLogin<L>> {
        self.entries@
    }
}

impl<L> PendingLoginStore<L> {
    /// Number of reserved places.
    pub closed spec fn spec_count(&self) -> nat {
        self.count as nat
    }

    /// The capacity.
    pub closed spec fn spec_max(&self) -> nat {
        self.max_entries as nat
    }

    /// Every login is stored under its own identifier and is well formed, and the reserved
    /// places cover the stored logins without exceeding the capacity.
    pub closed spec fn wf(&self) -> bool {
        &&& self.entries.wf()
        &&& self.entries@.dom().finite()
        &&& self.entries@.len() <= self.count <= self.max_entries
        &&& forall|k: Seq<char>| #[trigger] self.entries@.contains_key(k) ==> self.entries@[k].wf() && self.entries@[k].spec_id() == k
    }

    /// Law: a well-formed store never holds more logins than places it counts, nor counts more
    /// places than its maximum.
    pub proof fn lemma_wf(&self)
        requires
            self.wf(),
        ensures
            self@.dom().finite(),
            self@.len() <= self.spec_count() <= self.spec_max(),
    {
        self.entries.lemma_len();
    }

    /// No pending logins, room for `max_entries`.
    pub fn new(max_entries: usize) -> (r: Self)
        ensures
            r.wf(),
            r@ == Map::<Seq<char>, PendingLogin<L>>::empty(),
            r.spec_count() == 0,
            r.spec_max() == max_entries,
    {
        let r = PendingLoginStore { entries: KeyedEntries::new(), count: 0, max_entries };
        proof {
            r.entries.lemma_len();
        }
        r
    }

    /// Starts a login valid from `now` for `ttl`, holding `invite`: refused with `Capacity` when
    /// every place is taken, and with `Random` (nothing changed) when no identifier could be
    /// made.
    pub fn create_with_invite(&mut self, now: i128, ttl: i128, invite: Option<InviteReservation>) -> (r: Result<PendingLoginId, PendingStoreError>)
        requires
            old(self).wf(),
            i128::MIN <= now + ttl <= i128::MAX,
        ensures
            final(self).wf(),
            final(self).spec_max() == old(self).spec_max(),
            (r == Err::<PendingLoginId, PendingStoreError>(PendingStoreError::Capacity)) <==> old(self).spec_count() >= old(self).spec_max(),
            r is Err ==> final(self)@ == old(self)@ && final(self).spec_count() == old(self).spec_count(),
            r matches Err(e) ==> !(e is InvalidState),
            r matches Ok(id) ==> {
                &&& final(self).spec_count() == old(self).spec_count() + 1
                &&& final(self)@.contains_key(id@)
                &&& final(self)@ == old(self)@.insert(id@, final(self)@[id@])
                &&& final(self)@[id@].spec_state() == PendingLoginState::Starting
                &&& final(self)@[id@].spec_events() == Seq::<LoginEvent>::empty()
                &&& final(self)@[id@].spec_authenticated() is None
                &&& final(self)@[id@].spec_completed_expires_at() is None
                &&& final(self)@[id@].spec_invite() == invite
                &&& final(self)@[id@].spec_created_at() == now
                &&& final(self)@[id@].spec_expires_at() == now + ttl
                &&& !final(self)@[id@].spec_cancelled()
            },
    {
        proof {
            self.lemma_wf();
        }
        if self.count >= self.max_entries {
            return Err(PendingStoreError::Capacity);
        }
        let pending = match PendingLogin::new(now, now + ttl, invite) {
            Ok(p) => p,
            Err(e) => return Err(PendingStoreError::Random(e)),
        };
        let id = pending.id().duplicate();
        let key = String::from_str(id.expose());
        self.entries.insert(key, pending);
        self.count = self.count + 1;
        proof {
            self.entries.lemma_len();
            assert(self.entries@.len() <= old(self).entries@.len() + 1) by {
                if old(self).entries@.contains_key(id@) {
                    assert(self.entries@.dom() =~= old(self).entries@.dom());
                } else {
                    assert(self.entries@.dom() =~= old(self).entries@.dom().insert(id@));
                }
            }
        }
        Ok(id)
    }

    /// Starts a login without an invitation.
    pub fn create(&mut self, now: i128, ttl: i128) -> (r: Result<PendingLoginId, PendingStoreError>)
        requires
            old(self).wf(),
            i128::MIN <= now + ttl <= i128::MAX,
        ensures
            final(self).wf(),
            final(self).spec_max() == old(self).spec_max(),
            (r == Err::<PendingLoginId, PendingStoreError>(PendingStoreError::Capacity)) <==> old(self).spec_count() >= old(self).spec_max(),
            r is Err ==> final(self)@ == old(self)@ && final(self).spec_count() == old(self).spec_count(),
            r matches Err(e) ==> !(e is InvalidState),
            r matches Ok(id) ==> {
                &&& final(self).spec_count() == old(self).spec_count() + 1
                &&& final(self)@.contains_key(id@)
                &&& final(self)@ == old(self)@.insert(id@, final(self)@[id@])
                &&& final(self)@[id@].spec_state() == PendingLoginState::Starting
                &&& final(self)@[id@].spec_events() == Seq::<LoginEvent>::empty()
                &&& final(self)@[id@].spec_authenticated() is None
                &&& final(self)@[id@].spec_completed_expires_at() is None
                &&& final(self)@[id@].spec_invite() is None
                &&& final(self)@[id@].spec_created_at() == now
                &&& final(self)@[id@].spec_expires_at() == now + ttl
                &&& !final(self)@[id@].spec_cancelled()
            },
    {
        self.create_with_invite(now, ttl, None)
    }

    /// The login `id`, if stored.
    pub fn get(&self, id: &PendingLoginId) -> (r: Option<&PendingLogin<L>>)
        requires
            self.wf(),
        ensures
            match r {
                Some(p) => self@.contains_key(id@) && *p == self@[id@],
                None => !self@.contains_key(id@),
            },
    {
        self.entries.get(id.expose())
    }

    /// Takes `id` out of the store, giving back the place it held.
    fn take_out(&mut self, id: &PendingLoginId) -> (r: Option<PendingLogin<L>>)
        requires
            old(self).wf(),
        ensures
            final(self).wf(),
            final(self).spec_max() == old(self).spec_max(),
            final(self)@ == old(self)@.remove(id@),
            match r {
                Some(p) => old(self)@.contains_key(id@) && p == old(self)@[id@] && final(self).spec_count() == old(self).spec_count() - 1,
                None => !old(self)@.contains_key(id@) && final(self).spec_count() == old(self).spec_count(),
            },
    {
        proof {
            self.lemma_wf();
        }
        let r = self.entries.remove(id.expose());
        if r.is_some() {
            self.count = self.count - 1;
        }
        r
    }

    /// Looks `id` up for the browser holding `binding` at `now`; a login past its effective
    /// deadline is removed and reported as `Expired`.
    pub fn access(&mut self, id: &PendingLoginId, binding: &BrowserBinding, now: i128) -> (r: PendingAccess)
        requires
            old(self).wf(),
        ensures
            final(self).wf(),
            final(self).spec_max() == old(self).spec_max(),
            r == spec_access(old(self)@, id@, binding@, now),
            r == PendingAccess::Expired ==> final(self)@ == old(self)@.remove(id@) && final(self).spec_count() == old(self).spec_count() - 1,
            r != PendingAccess::Expired ==> final(self)@ == old(self)@ && final(self).spec_count() == old(self).spec_count(),
    {
        let (expired, matches) = match self.entries.get(id.expose()) {
            None => return PendingAccess::Missing,
            Some(p) => (p.effective_expires_at() <= now, crate::pending::binding_matches(p.browser_binding(), binding)),
        };
        if expired {
            self.take_out(id);
            return PendingAccess::Expired;
        }
        if matches {
            PendingAccess::Granted
        } else {
            PendingAccess::Forbidden
        }
    }

    /// The login `id` when it is live and belongs to the browser holding `binding`; a login past
    /// its effective deadline is removed.
    pub fn get_authorized(&mut self, id: &PendingLoginId, binding: &BrowserBinding, now: i128) -> (r: Option<&PendingLogin<L>>)
        requires
            old(self).wf(),
        ensures
            final(self).wf(),
            r is Some <==> spec_access(old(self)@, id@, binding@, now) == PendingAccess::Granted,
            r matches Some(p) ==> *p == old(self)@[id@],
            final(self)@ == if spec_access(old(self)@, id@, binding@, now) == PendingAccess::Expired {
                old(self)@.remove(id@)
            } else {
                old(self)@
            },
    {
        if self.access(id, binding, now) != PendingAccess::Granted {
            return None;
        }
        self.entries.get(id.expose())
    }

    /// Whether `id` is live and belongs to the browser holding `binding`.
    pub fn authorize(&mut self, id: &PendingLoginId, binding: &BrowserBinding, now: i128) -> (r: bool)
        requires
            old(self).wf(),
        ensures
            final(self).wf(),
            r == (spec_access(old(self)@, id@, binding@, now) == PendingAccess::Granted),
            final(self)@ == if spec_access(old(self)@, id@, binding@, now) == PendingAccess::Expired {
                old(self)@.remove(id@)
            } else {
                old(self)@
            },
    {
        self.access(id, binding, now) == PendingAccess::Granted
    }

    /// Hands out the authenticated login of `id` to the browser holding `binding`, once: the
    /// login leaves the store when it is handed out, and one past its deadline is removed.
    pub fn claim_authenticated(&mut self, id: &PendingLoginId, binding: &BrowserBinding, now: i128) -> (r: Option<L>)
        requires
            old(self).wf(),
        ensures
            final(self).wf(),
            final(self).spec_max() == old(self).spec_max(),
            r == spec_claim(old(self)@, id@, binding@, now),
            final(self)@ == if r is Some || spec_access(old(self)@, id@, binding@, now) == PendingAccess::Expired {
                old(self)@.remove(id@)
            } else {
                old(self)@
            },
            final(self).spec_count() == if r is Some || spec_access(old(self)@, id@, binding@, now) == PendingAccess::Expired {
                old(self).spec_count() - 1
            } else {
                old(self).spec_count() as int
            },
    {
        if self.access(id, binding, now) != PendingAccess::Granted {
            return None;
        }
        let ghost before = self@;
        let mut pending = match self.take_out(id) {
            Some(p) => p,
            None => return None,
        };
        let login = pending.take_authenticated(binding, now);
        match login {
            Some(l) => Some(l),
            None => {
                self.reinsert(pending);
                assert(self@ =~= before);
                None
            },
        }
    }

    /// Puts back a login taken out with `take_out`.
    fn reinsert(&mut self, pending: PendingLogin<L>)
        requires
            old(self).wf(),
            pending.wf(),
            !old(self)@.contains_key(pending.spec_id()),
            old(self).spec_count() < old(self).spec_max(),
        ensures
            final(self).wf(),
            final(self).spec_max() == old(self).spec_max(),
            final(self).spec_count() == old(self).spec_count() + 1,
            final(self)@ == old(self)@.insert(pending.spec_id(), pending),
    {
        proof {
            self.lemma_wf();
        }
        let key = String::from_str(pending.id().expose());
        self.entries.insert(key, pending);
        self.count = self.count + 1;
        proof {
            self.entries.lemma_len();
            assert(self.entries@.dom() =~= old(self).entries@.dom().insert(pending.spec_id()));
        }
    }

    /// Removes every login whose effective deadline has come at `now`; gives their identifiers.
    pub fn expire(&mut self, now: i128) -> (r: Vec<PendingLoginId>)
        requires
            old(self).wf(),
        ensures
            final(self).wf(),
            final(self).spec_max() == old(self).spec_max(),
            forall|k: Seq<char>| #[trigger] final(self)@.contains_key(k) <==> old(self)@.contains_key(k) && old(self)@[k].spec_effective_expires_at() > now,
            forall|k: Seq<char>| final(self)@.contains_key(k) ==> #[trigger] final(self)@[k] == old(self)@[k],
            forall|a: int| 0 <= a < r@.len() ==> #[trigger] old(self)@.contains_key(r@[a]@) && old(self)@[r@[a]@].spec_effective_expires_at() <= now,
            forall|k: Seq<char>| #[trigger] old(self)@.contains_key(k) && old(self)@[k].spec_effective_expires_at() <= now ==> exists|a: int| 0 <= a < r@.len() && r@[a]@ == k,
            final(self).spec_count() == old(self).spec_count() - r@.len(),
            r@.len() == old(self)@.len() - final(self)@.len(),
    {
        proof {
            self.lemma_wf();
        }
        let keys = self.entries.keys();
        let ghost start = self.entries@;
        let ghost count0 = self.count;
        let mut removed: Vec<PendingLoginId> = Vec::new();
        let mut i: usize = 0;
        while i < keys.len()
            invariant
                self.wf(),
                self.max_entries == old(self).max_entries,
                i <= keys@.len(),
                forall|j: int| 0 <= j < keys@.len() ==> #[trigger] start.contains_key(keys@[j]@),
                forall|a: int, b: int| 0 <= a < b < keys@.len() ==> keys@[a]@ != keys@[b]@,
                forall|k: Seq<char>| #[trigger] self.entries@.contains_key(k) ==> start.contains_key(k) && self.entries@[k] == start[k],
                forall|k: Seq<char>| start.contains_key(k) && start[k].spec_effective_expires_at() > now ==> #[trigger] self.entries@.contains_key(k),
                forall|j: int| 0 <= j < i && start[keys@[j]@].spec_effective_expires_at() <= now ==> !self.entries@.contains_key(#[trigger] keys@[j]@),
                forall|j: int| i <= j < keys@.len() ==> self.entries@.contains_key(#[trigger] keys@[j]@),
                forall|a: int| 0 <= a < removed@.len() ==> #[trigger] start.contains_key(removed@[a]@) && start[removed@[a]@].spec_effective_expires_at() <= now,
                forall|j: int| 0 <= j < i && start[keys@[j]@].spec_effective_expires_at() <= now ==> exists|a: int| 0 <= a < removed@.len() && removed@[a]@ == #[trigger] keys@[j]@,
                start.dom().finite(),
                start.len() == keys@.len(),
                start.len() <= count0,
                self.count == count0 - removed@.len(),
                removed@.len() == start.len() - self.entries@.len(),
            decreases keys.len() - i,
        {
            let key = &keys[i];
            let expired = match self.entries.get(key.as_str()) {
                Some(p) => p.effective_expires_at() <= now,
                None => false,
            };
            if expired {
                proof {
                    self.lemma_wf();
                }
                let ghost prev = removed@;
                let gone = self.entries.remove(key.as_str());
                assert(gone is Some);
                match gone {
                    Some(p) => {
                        assert(p == start[keys@[i as int]@]);
                        assert(p.spec_id() == keys@[i as int]@);
                        removed.push(p.id().duplicate());
                    },
                    None => {},
                }
                assert forall|a: int| 0 <= a < removed@.len() implies #[trigger] start.contains_key(removed@[a]@) && start[removed@[a]@].spec_effective_expires_at() <= now by {
                    if a < prev.len() {
                        assert(removed@[a] == prev[a]);
                    }
                }
                assert forall|j: int| 0 <= j <= i && start[keys@[j]@].spec_effective_expires_at() <= now implies exists|a: int| 0 <= a < removed@.len() && removed@[a]@ == #[trigger] keys@[j]@ by {
                    if j < i {
                        let a = choose|a: int| 0 <= a < prev.len() && prev[a]@ == keys@[j]@;
                        assert(removed@[a] == prev[a]);
                    } else {
                        assert(removed@[prev.len() as int]@ == keys@[j]@);
                    }
                }
                self.count = self.count - 1;
                assert forall|j: int| i < j < keys@.len() implies self.entries@.contains_key(#[trigger] keys@[j]@) by {
                    assert(keys@[j]@ != keys@[i as int]@);
                }
                proof {
                    self.entries.lemma_len();
                }
            }
            i = i + 1;
        }
        proof {
            self.lemma_wf();
            assert forall|k: Seq<char>| #[trigger] old(self)@.contains_key(k) && old(self)@[k].spec_effective_expires_at() <= now implies exists|a: int| 0 <= a < removed@.len() && removed@[a]@ == k by {
                let j = choose|j: int| 0 <= j < keys@.len() && keys@[j]@ == k;
                assert(start[keys@[j]@].spec_effective_expires_at() <= now);
            }
            assert forall|k: Seq<char>| #[trigger] self@.contains_key(k) <==> old(self)@.contains_key(k) && old(self)@[k].spec_effective_expires_at() > now by {
                if old(self)@.contains_key(k) && old(self)@[k].spec_effective_expires_at() <= now {
                    let j = choose|j: int| 0 <= j < keys@.len() && keys@[j]@ == k;
                    assert(!self.entries@.contains_key(keys@[j]@));
                }
            }
        }
        removed
    }

    /// Cancels and removes every login; gives how many there were.
    pub fn cancel_all(&mut self) -> (r: usize)
        requires
            old(self).wf(),
        ensures
            final(self).wf(),
            final(self).spec_max() == old(self).spec_max(),
            final(self)@ == Map::<Seq<char>, PendingLogin<L>>::empty(),
            r == old(self)@.len(),
            final(self).spec_count() == old(self).spec_count() - old(self)@.len(),
    {
        proof {
            self.lemma_wf();
        }
        let n = self.entries.len();
        self.entries.clear();
        self.count = self.count - n;
        proof {
            self.entries.lemma_len();
        }
        n
    }

    /// Number of reserved places.
    pub fn len(&self) -> (r: usize)
        ensures
            r == self.spec_count(),
    {
        self.count
    }

    /// Whether no place is reserved.
    pub fn is_empty(&self) -> (r: bool)
        ensures
            r == (self.spec_count() == 0),
    {
        self.count == 0
    }

    /// The state of login `id`, if stored.
    pub fn state_of(&self, id: &PendingLoginId) -> (r: Option<PendingLoginState>)
        requires
            self.wf(),
        ensures
            match r {
                Some(s) => self@.contains_key(id@) && s == self@[id@].spec_state(),
                None => !self@.contains_key(id@),
            },
    {
        match self.entries.get(id.expose()) {
            Some(p) => Some(p.state()),
            None => None,
        }
    }

    /// Moves login `id` to `next`; a login no longer stored is refused like one in a terminal
    /// state.
    pub fn transition(&mut self, id: &PendingLoginId, next: PendingLoginState) -> (r: Result<(), PendingStoreError>)
        requires
            old(self).wf(),
        ensures
            final(self).wf(),
            final(self).spec_max() == old(self).spec_max(),
            final(self).spec_count() == old(self).spec_count(),
            r is Ok <==> old(self)@.contains_key(id@) && spec_valid_transition(old(self)@[id@].spec_state(), next),
            r matches Err(e) ==> e == PendingStoreError::InvalidState && final(self)@ == old(self)@,
            r is Ok ==> final(self)@.contains_key(id@) && final(self)@[id@].spec_state() == next
                && final(self)@[id@].spec_events() == old(self)@[id@].spec_events()
                && final(self)@ == old(self)@.insert(id@, final(self)@[id@]),
    {
        let ghost before = self@;
        let mut pending = match self.take_out(id) {
            Some(p) => p,
            None => return Err(PendingStoreError::InvalidState),
        };
        let r = pending.transition(next);
        self.reinsert(pending);
        proof {
            if r is Err {
                assert(self@ =~= before);
            }
        }
        r
    }

    /// Records `event` in the history of login `id`; gives whether the login is stored.
    pub fn publish(&mut self, id: &PendingLoginId, event: LoginEvent) -> (r: bool)
        requires
            old(self).wf(),
        ensures
            final(self).wf(),
            final(self).spec_max() == old(self).spec_max(),
            final(self).spec_count() == old(self).spec_count(),
            r == old(self)@.contains_key(id@),
            !r ==> final(self)@ == old(self)@,
            r ==> final(self)@.contains_key(id@)
                && final(self)@[id@].spec_events() == spec_push_event(old(self)@[id@].spec_events(), event)
                && final(self)@[id@].spec_state() == old(self)@[id@].spec_state()
                && final(self)@ == old(self)@.insert(id@, final(self)@[id@]),
    {
        let mut pending = match self.take_out(id) {
            Some(p) => p,
            None => return false,
        };
        pending.publish(event);
        self.reinsert(pending);
        true
    }

    /// Completes login `id` with `login` at `now`; a login no longer stored is refused like one
    /// in a terminal state.
    pub fn complete(&mut self, id: &PendingLoginId, login: L, now: i128) -> (r: Result<(), PendingStoreError>)
        requires
            old(self).wf(),
            now <= i128::MAX - COMPLETED_RETENTION_NANOS,
        ensures
            final(self).wf(),
            final(self).spec_max() == old(self).spec_max(),
            final(self).spec_count() == old(self).spec_count(),
            r is Ok <==> old(self)@.contains_key(id@) && spec_valid_transition(old(self)@[id@].spec_state(), PendingLoginState::Completed),
            r matches Err(e) ==> e == PendingStoreError::InvalidState && final(self)@ == old(self)@,
            r is Ok ==> {
                &&& final(self)@ == old(self)@.insert(id@, final(self)@[id@])
                &&& final(self)@[id@].spec_state() == PendingLoginState::Completed
                &&& final(self)@[id@].spec_authenticated() == Some(login)
                &&& final(self)@[id@].spec_completed_expires_at() == Some((now + COMPLETED_RETENTION_NANOS) as i128)
                &&& final(self)@[id@].spec_events() == spec_push_event(old(self)@[id@].spec_events(), LoginEvent::Authenticated)
            },
    {
        let ghost before = self@;
        let mut pending = match self.take_out(id) {
            Some(p) => p,
            None => return Err(PendingStoreError::InvalidState),
        };
        let r = pending.complete(login, now);
        self.reinsert(pending);
        proof {
            if r is Err {
                assert(self@ =~= before);
            }
        }
        r
    }
}

/// Law: the store never holds more logins than its capacity.
pub proof fn lemma_capacity_bound<L>(store: PendingLoginStore<L>)
    requires
        store.wf(),
    ensures
        store@.len() <= store.spec_max(),
{
    store.lemma_wf();
}

/// Law: a login handed out once cannot be handed out again, to any browser at any time.
pub proof fn lemma_claimed_login_is_gone<L>(m: Map<Seq<char>, PendingLogin<L>>, id: Seq<char>, later_binding: Seq<char>, later: i128)
    ensures
        spec_claim(m.remove(id), id, later_binding, later) is None,
{
}

/// Law: a login is handed out only to the browser that started it, and only before its
/// effective deadline.
pub proof fn lemma_claim_needs_binding_and_time<L>(m: Map<Seq<char>, PendingLogin<L>>, id: Seq<char>, binding: Seq<char>, now: i128)
    requires
        spec_claim(m, id, binding, now) is Some,
    ensures
        m.contains_key(id),
        m[id].spec_binding() == binding,
        now < m[id].spec_effective_expires_at(),
        m[id].spec_state() == PendingLoginState::Completed,
{
}

/// Law: a login that has not completed is granted to the browser holding its binding until its
/// expiry, refused to any other browser before then, and expired from then on.
pub proof fn lemma_fresh_login_access<L>(m: Map<Seq<char>, PendingLogin<L>>, id: Seq<char>, binding: Seq<char>, t: i128)
    requires
        m.contains_key(id),
        m[id].spec_completed_expires_at() is None,
    ensures
        spec_access(m, id, binding, t) == if m[id].spec_expires_at() <= t {
            PendingAccess::Expired
        } else if binding != m[id].spec_binding() {
            PendingAccess::Forbidden
        } else {
            PendingAccess::Granted
        },
{
}

/// Law: a login is claimed at most once: once a claim hands it out, it has left the store, and
/// any later claim of it hands out nothing, whatever the binding and time.
pub proof fn lemma_claim_at_most_once<L>(
    m: Map<Seq<char>, PendingLogin<L>>,
    id: Seq<char>,
    binding: Seq<char>,
    now: i128,
    later_binding: Seq<char>,
    later: i128,
)
    requires
        spec_claim(m, id, binding, now) is Some,
    ensures
        m.contains_key(id),
        spec_claim(m.remove(id), id, later_binding, later) is None,
{
}

} // verus!
