//! A pending QR login: its state machine, its bounded event history and the login it holds once
//! authenticated. Times are nanoseconds since the Unix epoch.

use vstd::prelude::*;
use crate::ids::{is_opaque_text, BrowserBinding, PendingLoginId, RandomIdError};
use crate::invite::InviteReservation;
use crate::secret::secrets_match;

verus! {

/// How many events a pending login remembers for late subscribers.
pub const EVENT_HISTORY_CAPACITY: usize = 16;

/// How long an authenticated login may still be claimed after it completed (30 seconds).
pub const COMPLETED_RETENTION_NANOS: i128 = 30_000_000_000;

/// Where a pending login stands.
#[derive(Debug, Clone, Copy, PartialEq, Eq, Structural)]
pub enum PendingLoginState {
    Starting,
    WaitingForQr,
    WaitingForScan,
    Authenticating,
    Completed,
    Failed,
    Expired,
    Cancelled,
}

impl PendingLoginState {
    /// The states that end a login.
    pub open spec fn spec_is_terminal(self) -> bool {
        match self {
            PendingLoginState::Completed | PendingLoginState::Failed | PendingLoginState::Expired
            | PendingLoginState::Cancelled => true,
            _ => false,
        }
    }

    /// Whether the state ends the login.
    pub fn is_terminal(self) -> (r: bool)
        ensures
            r == self.spec_is_terminal(),
    {
        match self {
            PendingLoginState::Completed | PendingLoginState::Failed | PendingLoginState::Expired
            | PendingLoginState::Cancelled => true,
            _ => false,
        }
    }

    /// How far along the login is: every allowed transition goes strictly forward.
    pub open spec fn progress(self) -> nat {
        match self {
            PendingLoginState::Starting => 0,
            PendingLoginState::WaitingForQr => 1,
            PendingLoginState::WaitingForScan => 2,
            PendingLoginState::Authenticating => 3,
            _ => 4,
        }
    }
}

/// Whether `next` may follow `current`: each waiting state moves to the next one, and every
/// non-terminal state may end in `Failed`, `Expired` or `Cancelled`.
pub open spec fn spec_valid_transition(current: PendingLoginState, next: PendingLoginState) -> bool {
    let ends = next is Failed || next is Expired || next is Cancelled;
    match current {
        PendingLoginState::Starting => next is WaitingForQr || ends,
        PendingLoginState::WaitingForQr => next is WaitingForScan || ends,
        PendingLoginState::WaitingForScan => next is Authenticating || ends,
        PendingLoginState::Authenticating => next is Completed || ends,
        _ => false,
    }
}

/// Whether the state machine allows going from `current` to `next`.
pub fn valid_transition(current: PendingLoginState, next: PendingLoginState) -> (r: bool)
    ensures
        r == spec_valid_transition(current, next),
{
    let ends = match next {
        PendingLoginState::Failed | PendingLoginState::Expired | PendingLoginState::Cancelled => true,
        _ => false,
    };
    match current {
        PendingLoginState::Starting => ends || next == PendingLoginState::WaitingForQr,
        PendingLoginState::WaitingForQr => ends || next == PendingLoginState::WaitingForScan,
        PendingLoginState::WaitingForScan => ends || next == PendingLoginState::Authenticating,
        PendingLoginState::Authenticating => ends || next == PendingLoginState::Completed,
        _ => false,
    }
}

/// Law: terminal states admit no transition, and every allowed transition moves forward, so a
/// login takes at most four transitions and never returns to an earlier state.
pub proof fn lemma_transitions_move_forward(current: PendingLoginState, next: PendingLoginState)
    ensures
        current.spec_is_terminal() ==> !spec_valid_transition(current, next),
        spec_valid_transition(current, next) ==> current.progress() < next.progress(),
        spec_valid_transition(current, next) ==> !current.spec_is_terminal(),
{
}

/// The QR code URL shown to the browser.
#[derive(Clone, PartialEq, Eq)]
pub struct BrowserQrUrl(String);

impl BrowserQrUrl {
    /// Wraps the URL.
    pub fn new(value: String) -> (r: Self)
        ensures
            r.spec_url() == value@,
    {
        BrowserQrUrl(value)
    }

    /// The URL's text.
    pub closed spec fn spec_url(&self) -> Seq<char> {
        self.0@
    }

    /// The URL.
    pub fn expose(&self) -> (r: &str)
        ensures
            r@ == self.spec_url(),
    {
        self.0.as_str()
    }
}

/// What a pending login reports to the browser.
#[derive(Clone, PartialEq, Eq)]
pub enum LoginEvent {
    Started,
    Qr { url: BrowserQrUrl },
    Scanned,
    Authenticating,
    Authenticated,
    Rejected,
    Expired,
    Error { code: String, message: String },
}

impl LoginEvent {
    /// The events after which nothing more is reported.
    pub open spec fn spec_is_terminal(&self) -> bool {
        match self {
            LoginEvent::Authenticated | LoginEvent::Rejected | LoginEvent::Expired | LoginEvent::Error { .. } => true,
            _ => false,
        }
    }

    /// Whether the event ends the login.
    pub fn is_terminal(&self) -> (r: bool)
        ensures
            r == self.spec_is_terminal(),
    {
        match self {
            LoginEvent::Authenticated | LoginEvent::Rejected | LoginEvent::Expired | LoginEvent::Error { .. } => true,
            _ => false,
        }
    }
}

/// Why a pending-login operation was refused.
#[derive(Debug, Clone, Copy, PartialEq, Eq)]
pub enum PendingStoreError {
    Capacity,
    Random(RandomIdError),
    InvalidState,
}

/// The history after `event` is recorded: the oldest event leaves once the history is full.
pub open spec fn spec_push_event(events: Seq<LoginEvent>, event: LoginEvent) -> Seq<LoginEvent> {
    if events.len() >= EVENT_HISTORY_CAPACITY {
        events.drop_first().push(event)
    } else {
        events.push(event)
    }
}

/// Records `event`, dropping the oldest event when the history is full.
pub fn push_event(events: &mut Vec<LoginEvent>, event: LoginEvent)
    requires
        old(events)@.len() <= EVENT_HISTORY_CAPACITY,
    ensures
        final(events)@ == spec_push_event(old(events)@, event),
        final(events)@.len() <= EVENT_HISTORY_CAPACITY,
{
    if events.len() == EVENT_HISTORY_CAPACITY {
        events.remove(0);
    }
    events.push(event);
}

/// Law: the history never holds more than its capacity, always ends with the newest event, and
/// keeps the events before it in order.
pub proof fn lemma_history_keeps_latest(events: Seq<LoginEvent>, event: LoginEvent)
    requires
        events.len() <= EVENT_HISTORY_CAPACITY,
    ensures
        spec_push_event(events, event).len() <= EVENT_HISTORY_CAPACITY,
        spec_push_event(events, event).last() == event,
        spec_push_event(events, event).drop_last() == (if events.len() == EVENT_HISTORY_CAPACITY {
            events.drop_first()
        } else {
            events
        }),
{
    assert(spec_push_event(events, event).drop_last() =~= (if events.len() == EVENT_HISTORY_CAPACITY {
        events.drop_first()
    } else {
        events
    }));
}

/// A QR login in progress, bound to one browser. `L` is the authenticated login it holds once
/// completed.
pub struct PendingLogin<L> {
    id: PendingLoginId,
    browser_binding: BrowserBinding,
    state: PendingLoginState,
    events: Vec<LoginEvent>,
    authenticated: Option<L>,
    completed_expires_at: Option<i128>,
    invite_reservation: Option<InviteReservation>,
    created_at: i128,
    expires_at: i128,
    cancelled: bool,
}

/// The earlier of the login's deadline and, once completed, its claim deadline.
pub open spec fn spec_effective_expiry(completed: Option<i128>, expires_at: i128) -> i128 {
    match completed {
        Some(c) => if c < expires_at { c } else { expires_at },
        None => expires_at,
    }
}

/// What handing out the login of `p` to the browser holding `binding` at `now` gives: the held
/// login, when `p` has completed, `binding` is its own and its effective deadline is still ahead.
pub open spec fn spec_take<L>(p: PendingLogin<L>, binding: Seq<char>, now: i128) -> Option<L> {
    if now < p.spec_effective_expires_at() && binding == p.spec_binding() && p.spec_state()
        == PendingLoginState::Completed {
        p.spec_authenticated()
    } else {
        None
    }
}

/// Law: a login is handed out at most once: after `take_authenticated` has handed it out the
/// login holds none, and then no call hands anything out, whatever the binding and time.
pub proof fn lemma_taken_once<L>(p: PendingLogin<L>, binding: Seq<char>, now: i128)
    requires
        p.spec_authenticated() is None,
    ensures
        spec_take(p, binding, now) is None,
{
}

impl<L> PendingLogin<L> {
    pub closed spec fn spec_id(&self) -> Seq<char> {
        self.id@
    }

    pub closed spec fn spec_binding(&self) -> Seq<char> {
        self.browser_binding@
    }

    pub closed spec fn spec_state(&self) -> PendingLoginState {
        self.state
    }

    pub closed spec fn spec_events(&self) -> Seq<LoginEvent> {
        self.events@
    }

    pub closed spec fn spec_authenticated(&self) -> Option<L> {
        self.authenticated
    }

    pub closed spec fn spec_completed_expires_at(&self) -> Option<i128> {
        self.completed_expires_at
    }

    pub closed spec fn spec_invite(&self) -> Option<InviteReservation> {
        self.invite_reservation
    }

    pub closed spec fn spec_created_at(&self) -> i128 {
        self.created_at
    }

    pub closed spec fn spec_expires_at(&self) -> i128 {
        self.expires_at
    }

    pub closed spec fn spec_cancelled(&self) -> bool {
        self.cancelled
    }

    /// When the login stops being usable.
    pub open spec fn spec_effective_expires_at(&self) -> i128 {
        spec_effective_expiry(self.spec_completed_expires_at(), self.spec_expires_at())
    }

    /// The history is within capacity, and only a completed login holds a login or a claim
    /// deadline.
    pub closed spec fn wf(&self) -> bool {
        &&& self.events@.len() <= EVENT_HISTORY_CAPACITY
        &&& self.authenticated is Some ==> self.state == PendingLoginState::Completed
        &&& self.completed_expires_at is Some ==> self.state == PendingLoginState::Completed
    }

    /// Everything but the state machine, the history and the held login is as in `other`.
    pub open spec fn same_identity(&self, other: &Self) -> bool {
        &&& self.spec_id() == other.spec_id()
        &&& self.spec_binding() == other.spec_binding()
        &&& self.spec_invite() == other.spec_invite()
        &&& self.spec_created_at() == other.spec_created_at()
        &&& self.spec_expires_at() == other.spec_expires_at()
    }

    /// A new login in `Starting`, with fresh identifier and browser binding.
    pub fn new(created_at: i128, expires_at: i128, invite_reservation: Option<InviteReservation>) -> (r: Result<Self, RandomIdError>)
        ensures
            r matches Ok(p) ==> {
                &&& p.wf()
                &&& p.spec_state() == PendingLoginState::Starting
                &&& p.spec_events() == Seq::<LoginEvent>::empty()
                &&& p.spec_authenticated() is None
                &&& p.spec_completed_expires_at() is None
                &&& p.spec_invite() == invite_reservation
                &&& p.spec_created_at() == created_at
                &&& p.spec_expires_at() == expires_at
                &&& !p.spec_cancelled()
                &&& is_opaque_text(p.spec_id())
                &&& is_opaque_text(p.spec_binding())
            },
    {
        let id = PendingLoginId::generate()?;
        let browser_binding = BrowserBinding::generate()?;
        Ok(PendingLogin {
            id,
            browser_binding,
            state: PendingLoginState::Starting,
            events: Vec::new(),
            authenticated: None,
            completed_expires_at: None,
            invite_reservation,
            created_at,
            expires_at,
            cancelled: false,
        })
    }

    /// The login's identifier.
    pub fn id(&self) -> (r: &PendingLoginId)
        ensures
            r@ == self.spec_id(),
    {
        &self.id
    }

    /// The secret that binds the login to the browser that started it.
    pub fn browser_binding(&self) -> (r: &BrowserBinding)
        ensures
            r@ == self.spec_binding(),
    {
        &self.browser_binding
    }

    /// When the login was started.
    pub fn created_at(&self) -> (r: i128)
        ensures
            r == self.spec_created_at(),
    {
        self.created_at
    }

    /// The login's own deadline.
    pub fn expires_at(&self) -> (r: i128)
        ensures
            r == self.spec_expires_at(),
    {
        self.expires_at
    }

    /// The current state.
    pub fn state(&self) -> (r: PendingLoginState)
        ensures
            r == self.spec_state(),
    {
        self.state
    }

    /// The remembered events, oldest first.
    pub fn event_history(&self) -> (r: &Vec<LoginEvent>)
        ensures
            r@ == self.spec_events(),
    {
        &self.events
    }

    /// The invitation reserved for this login, if any.
    pub fn invite_reservation(&self) -> (r: Option<InviteReservation>)
        ensures
            match (r, self.spec_invite()) {
                (Some(a), Some(b)) => a.token_hash@ == b.token_hash@ && a.reservation_hash@ == b.reservation_hash@,
                (None, None) => true,
                _ => false,
            },
    {
        match &self.invite_reservation {
            Some(v) => Some(v.duplicate()),
            None => None,
        }
    }

    /// Whether the login's work has been told to stop.
    pub fn is_cancelled(&self) -> (r: bool)
        ensures
            r == self.spec_cancelled(),
    {
        self.cancelled
    }

    /// Moves to `next` when the state machine allows it; otherwise refuses with `InvalidState`
    /// and changes nothing.
    pub fn transition(&mut self, next: PendingLoginState) -> (r: Result<(), PendingStoreError>)
        requires
            old(self).wf(),
        ensures
            final(self).wf(),
            r is Ok <==> spec_valid_transition(old(self).spec_state(), next),
            r matches Err(e) ==> e == PendingStoreError::InvalidState && *final(self) == *old(self),
            r is Ok ==> final(self).spec_state() == next,
            final(self).same_identity(old(self)),
            final(self).spec_events() == old(self).spec_events(),
            final(self).spec_authenticated() == old(self).spec_authenticated(),
            final(self).spec_completed_expires_at() == old(self).spec_completed_expires_at(),
            final(self).spec_cancelled() == old(self).spec_cancelled(),
    {
        if !valid_transition(self.state, next) {
            return Err(PendingStoreError::InvalidState);
        }
        self.state = next;
        Ok(())
    }

    /// Records `event` in the history.
    pub fn publish(&mut self, event: LoginEvent)
        requires
            old(self).wf(),
        ensures
            final(self).wf(),
            final(self).spec_events() == spec_push_event(old(self).spec_events(), event),
            final(self).same_identity(old(self)),
            final(self).spec_state() == old(self).spec_state(),
            final(self).spec_authenticated() == old(self).spec_authenticated(),
            final(self).spec_completed_expires_at() == old(self).spec_completed_expires_at(),
            final(self).spec_cancelled() == old(self).spec_cancelled(),
    {
        push_event(&mut self.events, event);
    }

    /// Completes the login with `login` at `now`: refused with `InvalidState` (nothing changed)
    /// unless the login is `Authenticating`; otherwise it becomes `Completed`, holds the login,
    /// may be claimed for 30 seconds, and records `Authenticated`.
    pub fn complete(&mut self, login: L, now: i128) -> (r: Result<(), PendingStoreError>)
        requires
            old(self).wf(),
            now <= i128::MAX - COMPLETED_RETENTION_NANOS,
        ensures
            final(self).wf(),
            r is Ok <==> spec_valid_transition(old(self).spec_state(), PendingLoginState::Completed),
            r matches Err(e) ==> e == PendingStoreError::InvalidState && *final(self) == *old(self),
            r is Ok ==> {
                &&& final(self).spec_state() == PendingLoginState::Completed
                &&& final(self).spec_authenticated() == Some(login)
                &&& final(self).spec_completed_expires_at() == Some((now + COMPLETED_RETENTION_NANOS) as i128)
                &&& final(self).spec_events() == spec_push_event(old(self).spec_events(), LoginEvent::Authenticated)
                &&& final(self).spec_cancelled() == old(self).spec_cancelled()
            },
            final(self).same_identity(old(self)),
    {
        if !valid_transition(self.state, PendingLoginState::Completed) {
            return Err(PendingStoreError::InvalidState);
        }
        self.state = PendingLoginState::Completed;
        self.authenticated = Some(login);
        self.completed_expires_at = Some(now + COMPLETED_RETENTION_NANOS);
        push_event(&mut self.events, LoginEvent::Authenticated);
        Ok(())
    }

    /// Expires the login unless it already expired or was cancelled: the state becomes
    /// `Expired`, any held login is dropped, `Expired` is recorded and the work is told to stop.
    /// Gives whether anything changed.
    pub fn expire(&mut self) -> (r: bool)
        requires
            old(self).wf(),
        ensures
            final(self).wf(),
            r == !(old(self).spec_state() is Expired || old(self).spec_state() is Cancelled),
            !r ==> *final(self) == *old(self),
            r ==> {
                &&& final(self).spec_state() == PendingLoginState::Expired
                &&& final(self).spec_authenticated() is None
                &&& final(self).spec_completed_expires_at() is None
                &&& final(self).spec_events() == spec_push_event(old(self).spec_events(), LoginEvent::Expired)
                &&& final(self).spec_cancelled()
            },
            final(self).same_identity(old(self)),
    {
        match self.state {
            PendingLoginState::Expired | PendingLoginState::Cancelled => {
                return false;
            },
            _ => {},
        }
        self.state = PendingLoginState::Expired;
        self.authenticated = None;
        self.completed_expires_at = None;
        push_event(&mut self.events, LoginEvent::Expired);
        self.cancelled = true;
        true
    }

    /// The login's effective deadline.
    pub fn effective_expires_at(&self) -> (r: i128)
        ensures
            r == self.spec_effective_expires_at(),
    {
        match self.completed_expires_at {
            Some(c) => if c < self.expires_at { c } else { self.expires_at },
            None => self.expires_at,
        }
    }

    /// Hands out the authenticated login, once, to the browser holding `binding` before the
    /// effective deadline. Nothing changes when the deadline has passed, the binding differs,
    /// or the login has not completed.
    pub fn take_authenticated(&mut self, binding: &BrowserBinding, now: i128) -> (r: Option<L>)
        requires
            old(self).wf(),
        ensures
            final(self).wf(),
            r == spec_take(*old(self), binding@, now),
            r is Some ==> final(self).spec_authenticated() is None,
            r is None ==> *final(self) == *old(self),
            final(self).same_identity(old(self)),
            final(self).spec_state() == old(self).spec_state(),
            final(self).spec_events() == old(self).spec_events(),
            final(self).spec_completed_expires_at() == old(self).spec_completed_expires_at(),
            final(self).spec_cancelled() == old(self).spec_cancelled(),
    {
        if now >= self.effective_expires_at() || !binding_matches(&self.browser_binding, binding) {
            return None;
        }
        if self.state == PendingLoginState::Completed {
            self.authenticated.take()
        } else {
            None
        }
    }

    /// Cancels the login: any held login is dropped, a non-terminal state becomes `Cancelled`,
    /// and the work is told to stop.
    pub fn cancel(&mut self)
        requires
            old(self).wf(),
        ensures
            final(self).wf(),
            final(self).spec_authenticated() is None,
            final(self).spec_completed_expires_at() is None,
            final(self).spec_state() == (if old(self).spec_state().spec_is_terminal() {
                old(self).spec_state()
            } else {
                PendingLoginState::Cancelled
            }),
            final(self).spec_cancelled(),
            final(self).spec_events() == old(self).spec_events(),
            final(self).same_identity(old(self)),
    {
        self.authenticated = None;
        self.completed_expires_at = None;
        if !self.state.is_terminal() {
            self.state = PendingLoginState::Cancelled;
        }
        self.cancelled = true;
    }
}

/// Whether `candidate` is the browser binding `expected`, compared in constant time.
pub fn binding_matches(expected: &BrowserBinding, candidate: &BrowserBinding) -> (r: bool)
    ensures
        r == (expected@ == candidate@),
{
    secrets_match(expected.expose(), candidate.expose())
}

/// Law: a login is never usable past its own deadline, and a completed login stays claimable for
/// at most its claim window.
pub proof fn lemma_effective_expiry_bounds(completed: Option<i128>, expires_at: i128)
    ensures
        spec_effective_expiry(completed, expires_at) <= expires_at,
        completed matches Some(c) ==> spec_effective_expiry(completed, expires_at) <= c,
        completed is None ==> spec_effective_expiry(completed, expires_at) == expires_at,
{
}

} // verus!
