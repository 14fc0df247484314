//! What the QR login workflow does to a pending login at each step. Each step changes the
//! store and gives back the events to send to the browser's live stream.

use vstd::prelude::*;
use vstd::string::StringExecFns;
use crate::ids::PendingLoginId;
use crate::pending::{spec_push_event, spec_valid_transition, BrowserQrUrl, LoginEvent, PendingLoginState, PendingStoreError, COMPLETED_RETENTION_NANOS};
use crate::pending_store::PendingLoginStore;

verus! {

/// How the login attempt itself ended.
pub enum LoginOutcome<L> {
    /// The login provider failed or timed out.
    Failed,
    /// The user signed in but is not on the allow-list.
    NotAllowed,
    /// The user signed in and is allowed.
    Allowed(L),
}

/// The error event of a failed login.
pub open spec fn is_login_failed_event(e: LoginEvent) -> bool {
    (e matches LoginEvent::Error { code, message } && code@ == "LOGIN_FAILED"@ && message@ == "登录失败，请重新扫码。"@)
}

fn login_failed_event() -> (r: LoginEvent)
    ensures
        is_login_failed_event(r),
{
    LoginEvent::Error {
        code: String::from_str("LOGIN_FAILED"),
        message: String::from_str("登录失败，请重新扫码。"),
    }
}

/// The workflow starts: `Started` is recorded, then the login waits for its QR code. Gives the
/// events to send and whether the workflow goes on (the login was still `Starting`).
pub fn begin<L>(store: &mut PendingLoginStore<L>, id: &PendingLoginId) -> (r: (Vec<LoginEvent>, bool))
    requires
        old(store).wf(),
    ensures
        final(store).wf(),
        final(store).spec_count() == old(store).spec_count(),
        r.0@ == seq![LoginEvent::Started],
        r.1 <==> old(store)@.contains_key(id@) && old(store)@[id@].spec_state() == PendingLoginState::Starting,
        old(store)@.contains_key(id@) ==> final(store)@.contains_key(id@)
            && final(store)@[id@].spec_events() == spec_push_event(old(store)@[id@].spec_events(), LoginEvent::Started)
            && final(store)@[id@].spec_state() == if r.1 { PendingLoginState::WaitingForQr } else { old(store)@[id@].spec_state() },
        !old(store)@.contains_key(id@) ==> final(store)@ == old(store)@,
{
    store.publish(id, LoginEvent::Started);
    let ok = store.transition(id, PendingLoginState::WaitingForQr).is_ok();
    (vec![LoginEvent::Started], ok)
}

/// A QR code is ready: a login waiting for it now waits for the scan, and the code is
/// recorded and sent.
pub fn qr_ready<L>(store: &mut PendingLoginStore<L>, id: &PendingLoginId, url: &str) -> (r: LoginEvent)
    requires
        old(store).wf(),
    ensures
        final(store).wf(),
        final(store).spec_count() == old(store).spec_count(),
        (r matches LoginEvent::Qr { url: u } && u.spec_url() == url@),
        old(store)@.contains_key(id@) ==> final(store)@.contains_key(id@)
            && final(store)@[id@].spec_events() == spec_push_event(old(store)@[id@].spec_events(), final(store)@[id@].spec_events().last())
            && (final(store)@[id@].spec_events().last() matches LoginEvent::Qr { url: u } && u.spec_url() == url@)
            && final(store)@[id@].spec_state() == if old(store)@[id@].spec_state() == PendingLoginState::WaitingForQr {
                PendingLoginState::WaitingForScan
            } else {
                old(store)@[id@].spec_state()
            },
        !old(store)@.contains_key(id@) ==> final(store)@ == old(store)@,
{
    if store.state_of(id) == Some(PendingLoginState::WaitingForQr) {
        let _ = store.transition(id, PendingLoginState::WaitingForScan);
    }
    store.publish(id, LoginEvent::Qr { url: BrowserQrUrl::new(String::from_str(url)) });
    LoginEvent::Qr { url: BrowserQrUrl::new(String::from_str(url)) }
}

/// The code was scanned: a login waiting for the scan starts authenticating, and `Scanned` and
/// `Authenticating` are recorded and sent; otherwise nothing happens.
pub fn scanned<L>(store: &mut PendingLoginStore<L>, id: &PendingLoginId) -> (r: Vec<LoginEvent>)
    requires
        old(store).wf(),
    ensures
        final(store).wf(),
        final(store).spec_count() == old(store).spec_count(),
        ({
            let moved = old(store)@.contains_key(id@) && spec_valid_transition(old(store)@[id@].spec_state(), PendingLoginState::Authenticating);
            &&& moved ==> r@ == seq![LoginEvent::Scanned, LoginEvent::Authenticating]
                && final(store)@[id@].spec_state() == PendingLoginState::Authenticating
                && final(store)@[id@].spec_events() == spec_push_event(spec_push_event(old(store)@[id@].spec_events(), LoginEvent::Scanned), LoginEvent::Authenticating)
            &&& !moved ==> r@.len() == 0 && final(store)@ == old(store)@
        }),
{
    if store.transition(id, PendingLoginState::Authenticating).is_ok() {
        store.publish(id, LoginEvent::Scanned);
        store.publish(id, LoginEvent::Authenticating);
        vec![LoginEvent::Scanned, LoginEvent::Authenticating]
    } else {
        Vec::new()
    }
}

/// The QR code expired upstream: a live login becomes `Expired`, `Expired` is recorded and
/// sent, and the workflow is told to stop; otherwise nothing happens.
pub fn qr_expired<L>(store: &mut PendingLoginStore<L>, id: &PendingLoginId) -> (r: Vec<LoginEvent>)
    requires
        old(store).wf(),
    ensures
        final(store).wf(),
        final(store).spec_count() == old(store).spec_count(),
        ({
            let moved = old(store)@.contains_key(id@) && spec_valid_transition(old(store)@[id@].spec_state(), PendingLoginState::Expired);
            &&& moved ==> r@ == seq![LoginEvent::Expired]
                && final(store)@[id@].spec_state() == PendingLoginState::Expired
                && final(store)@[id@].spec_events() == spec_push_event(old(store)@[id@].spec_events(), LoginEvent::Expired)
            &&& !moved ==> r@.len() == 0 && final(store)@ == old(store)@
        }),
{
    if store.transition(id, PendingLoginState::Expired).is_ok() {
        store.publish(id, LoginEvent::Expired);
        vec![LoginEvent::Expired]
    } else {
        Vec::new()
    }
}

/// Fails the login: it moves to `Failed` where it can, and records and sends the `LOGIN_FAILED`
/// error, whatever state it was in.
pub fn fail<L>(store: &mut PendingLoginStore<L>, id: &PendingLoginId) -> (r: Vec<LoginEvent>)
    requires
        old(store).wf(),
    ensures
        final(store).wf(),
        final(store).spec_count() == old(store).spec_count(),
        !old(store)@.contains_key(id@) ==> r@.len() == 0 && final(store)@ == old(store)@,
        old(store)@.contains_key(id@) ==> {
            &&& r@.len() == 1 && is_login_failed_event(r@[0])
            &&& final(store)@[id@].spec_events() == spec_push_event(old(store)@[id@].spec_events(), final(store)@[id@].spec_events().last())
            &&& is_login_failed_event(final(store)@[id@].spec_events().last())
            &&& final(store)@[id@].spec_state() == if spec_valid_transition(old(store)@[id@].spec_state(), PendingLoginState::Failed) {
                PendingLoginState::Failed
            } else {
                old(store)@[id@].spec_state()
            }
        },
{
    if store.state_of(id).is_none() {
        return Vec::new();
    }
    let _ = store.transition(id, PendingLoginState::Failed);
    store.publish(id, login_failed_event());
    vec![login_failed_event()]
}

/// Ends the workflow with the login's outcome at `now`:
/// - failed: unless the login already expired, it moves to `Failed` where it can and records
///   and sends the `LOGIN_FAILED` error;
/// - not allowed: it moves to `Failed` where it can and records and sends `Rejected`;
/// - allowed: the login completes (recording and sending `Authenticated`) where it can.
pub fn finish<L>(store: &mut PendingLoginStore<L>, id: &PendingLoginId, outcome: LoginOutcome<L>, now: i128) -> (r: Vec<LoginEvent>)
    requires
        old(store).wf(),
        now <= i128::MAX - COMPLETED_RETENTION_NANOS,
    ensures
        final(store).wf(),
        final(store).spec_count() == old(store).spec_count(),
        !old(store)@.contains_key(id@) ==> r@.len() == 0 && final(store)@ == old(store)@,
        old(store)@.contains_key(id@) ==> match outcome {
            LoginOutcome::Failed => if old(store)@[id@].spec_state() == PendingLoginState::Expired {
                r@.len() == 0 && final(store)@ == old(store)@
            } else {
                r@.len() == 1 && is_login_failed_event(r@[0])
                    && final(store)@[id@].spec_events() == spec_push_event(old(store)@[id@].spec_events(), final(store)@[id@].spec_events().last())
                    && is_login_failed_event(final(store)@[id@].spec_events().last())
                    && final(store)@[id@].spec_state() == if spec_valid_transition(old(store)@[id@].spec_state(), PendingLoginState::Failed) {
                        PendingLoginState::Failed
                    } else {
                        old(store)@[id@].spec_state()
                    }
            },
            LoginOutcome::NotAllowed => r@ == seq![LoginEvent::Rejected]
                && final(store)@[id@].spec_events() == spec_push_event(old(store)@[id@].spec_events(), LoginEvent::Rejected)
                && final(store)@[id@].spec_state() == if spec_valid_transition(old(store)@[id@].spec_state(), PendingLoginState::Failed) {
                    PendingLoginState::Failed
                } else {
                    old(store)@[id@].spec_state()
                },
            LoginOutcome::Allowed(login) => if spec_valid_transition(old(store)@[id@].spec_state(), PendingLoginState::Completed) {
                r@ == seq![LoginEvent::Authenticated]
                    && final(store)@[id@].spec_state() == PendingLoginState::Completed
                    && final(store)@[id@].spec_authenticated() == Some(login)
                    && final(store)@[id@].spec_events() == spec_push_event(old(store)@[id@].spec_events(), LoginEvent::Authenticated)
            } else {
                r@.len() == 0 && final(store)@ == old(store)@
            },
        },
{
    let state = match store.state_of(id) {
        Some(s) => s,
        None => return Vec::new(),
    };
    match outcome {
        LoginOutcome::Failed => {
            if state == PendingLoginState::Expired {
                return Vec::new();
            }
            fail(store, id)
        },
        LoginOutcome::NotAllowed => {
            let _ = store.transition(id, PendingLoginState::Failed);
            store.publish(id, LoginEvent::Rejected);
            vec![LoginEvent::Rejected]
        },
        LoginOutcome::Allowed(login) => {
            match store.complete(id, login, now) {
                Ok(()) => vec![LoginEvent::Authenticated],
                Err(_) => Vec::new(),
            }
        },
    }
}

} // verus!
