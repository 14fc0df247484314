use server::ids::BrowserBinding;
use server::pending::{
    binding_matches, push_event, valid_transition, LoginEvent, PendingLogin, PendingLoginState,
    PendingStoreError, COMPLETED_RETENTION_NANOS, EVENT_HISTORY_CAPACITY,
};
use server::pending_store::{PendingAccess, PendingLoginStore};
use server::workflow::{begin, fail, finish, qr_expired, qr_ready, scanned, LoginOutcome};

use PendingLoginState::{Authenticating, Cancelled, Completed, Expired, Failed, Starting, WaitingForQr, WaitingForScan};

const ALL: [PendingLoginState; 8] =
    [Starting, WaitingForQr, WaitingForScan, Authenticating, Completed, Failed, Expired, Cancelled];

#[test]
fn transitions_follow_the_login_flow() {
    assert!(valid_transition(Starting, WaitingForQr));
    assert!(valid_transition(WaitingForQr, WaitingForScan));
    assert!(valid_transition(WaitingForScan, Authenticating));
    assert!(valid_transition(Authenticating, Completed));
    assert!(!valid_transition(Starting, Completed));
    assert!(!valid_transition(WaitingForQr, Authenticating));
    for state in [Starting, WaitingForQr, WaitingForScan, Authenticating] {
        assert!(!state.is_terminal());
        assert!(valid_transition(state, Failed));
        assert!(valid_transition(state, Expired));
        assert!(valid_transition(state, Cancelled));
    }
}

#[test]
fn terminal_states_are_final() {
    for state in [Completed, Failed, Expired, Cancelled] {
        assert!(state.is_terminal());
        for next in ALL {
            assert!(!valid_transition(state, next));
        }
    }
}

#[test]
fn terminal_events_are_recognised() {
    assert!(LoginEvent::Authenticated.is_terminal());
    assert!(LoginEvent::Rejected.is_terminal());
    assert!(LoginEvent::Expired.is_terminal());
    assert!(LoginEvent::Error { code: "X".to_owned(), message: "y".to_owned() }.is_terminal());
    assert!(!LoginEvent::Started.is_terminal());
    assert!(!LoginEvent::Scanned.is_terminal());
}

#[test]
fn history_keeps_the_latest_sixteen_events() {
    let mut events = Vec::new();
    push_event(&mut events, LoginEvent::Started);
    for _ in 0..EVENT_HISTORY_CAPACITY {
        push_event(&mut events, LoginEvent::Scanned);
    }
    push_event(&mut events, LoginEvent::Expired);
    assert_eq!(events.len(), EVENT_HISTORY_CAPACITY);
    assert!(events[0] == LoginEvent::Scanned);
    assert!(events[EVENT_HISTORY_CAPACITY - 1] == LoginEvent::Expired);
}

#[test]
fn a_login_completes_and_is_claimed_once() {
    let mut pending: PendingLogin<&str> = PendingLogin::new(0, 1_000_000_000_000, None).expect("random source");
    assert_eq!(pending.state(), Starting);
    assert!(pending.complete("user", 10).is_err());
    pending.transition(WaitingForQr).expect("allowed");
    pending.transition(WaitingForScan).expect("allowed");
    assert!(matches!(pending.transition(Starting), Err(PendingStoreError::InvalidState)));
    pending.transition(Authenticating).expect("allowed");
    pending.complete("user", 10).expect("allowed");
    assert_eq!(pending.state(), Completed);
    assert_eq!(pending.effective_expires_at(), 10 + COMPLETED_RETENTION_NANOS);
    assert!(pending.event_history()[0] == LoginEvent::Authenticated);
    let binding = pending.browser_binding().duplicate();
    let other = BrowserBinding::generate().expect("random source");
    assert_eq!(pending.take_authenticated(&other, 11), None);
    assert_eq!(pending.take_authenticated(&binding, 10 + COMPLETED_RETENTION_NANOS), None);
    assert_eq!(pending.take_authenticated(&binding, 11), Some("user"));
    assert_eq!(pending.take_authenticated(&binding, 12), None);
}

#[test]
fn expiring_and_cancelling() {
    let mut pending: PendingLogin<u8> = PendingLogin::new(0, 100, None).expect("random source");
    assert!(pending.expire());
    assert_eq!(pending.state(), Expired);
    assert!(pending.is_cancelled());
    assert!(!pending.expire());
    let mut other: PendingLogin<u8> = PendingLogin::new(0, 100, None).expect("random source");
    other.transition(WaitingForQr).expect("allowed");
    other.cancel();
    assert_eq!(other.state(), Cancelled);
    let mut done: PendingLogin<u8> = PendingLogin::new(0, 100, None).expect("random source");
    done.transition(Failed).expect("allowed");
    done.cancel();
    assert_eq!(done.state(), Failed);
}

#[test]
fn bindings_compare_exactly() {
    let a = BrowserBinding::generate().expect("random source");
    let b = BrowserBinding::generate().expect("random source");
    assert!(binding_matches(&a, &a.duplicate()));
    assert!(!binding_matches(&a, &b));
}

#[test]
fn store_bounds_pending_logins() {
    let mut store: PendingLoginStore<u8> = PendingLoginStore::new(2);
    let first = store.create(0, 100).expect("room");
    store.create(0, 100).expect("room");
    assert!(matches!(store.create(0, 100), Err(PendingStoreError::Capacity)));
    assert_eq!(store.len(), 2);
    let binding = store.get(&first).expect("stored").browser_binding().duplicate();
    assert!(store.authorize(&first, &binding, 50));
    assert!(store.get_authorized(&first, &binding, 50).is_some_and(|p| p.id().same(&first)));
    let stranger = BrowserBinding::generate().expect("random source");
    assert_eq!(store.access(&first, &stranger, 50), PendingAccess::Forbidden);
    assert_eq!(store.access(&first, &binding, 100), PendingAccess::Expired);
    assert_eq!(store.len(), 1);
    assert_eq!(store.access(&first, &binding, 50), PendingAccess::Missing);
    store.create(0, 100).expect("room again");
    assert_eq!(store.cancel_all(), 2);
    assert!(store.is_empty());
}

#[test]
fn store_expires_by_effective_deadline() {
    let mut store: PendingLoginStore<u8> = PendingLoginStore::new(5);
    let short = store.create(0, 10).expect("room");
    let long = store.create(0, 1_000).expect("room");
    let expired = store.expire(10);
    assert_eq!(expired.len(), 1);
    assert!(expired[0].same(&short));
    assert!(store.get(&short).is_none());
    assert!(store.get(&long).is_some());
    assert_eq!(store.len(), 1);
}

#[test]
fn workflow_walks_a_login_to_its_claim() {
    let mut store: PendingLoginStore<&str> = PendingLoginStore::new(5);
    let id = store.create_with_invite(0, 1_000_000_000_000, None).expect("room");
    let binding = store.get(&id).expect("stored").browser_binding().duplicate();
    let (events, go_on) = begin(&mut store, &id);
    assert!(go_on && events.len() == 1 && events[0] == LoginEvent::Started);
    let qr = qr_ready(&mut store, &id, "https://qr.example/1");
    match qr {
        LoginEvent::Qr { url } => assert_eq!(url.expose(), "https://qr.example/1"),
        _ => panic!("expected a QR event"),
    }
    assert_eq!(store.state_of(&id), Some(WaitingForScan));
    assert_eq!(scanned(&mut store, &id).len(), 2);
    assert_eq!(store.state_of(&id), Some(Authenticating));
    assert!(scanned(&mut store, &id).is_empty());
    let done = finish(&mut store, &id, LoginOutcome::Allowed("user"), 5);
    assert!(done.len() == 1 && done[0] == LoginEvent::Authenticated);
    assert_eq!(store.get(&id).expect("stored").event_history().len(), 5);
    assert_eq!(store.claim_authenticated(&id, &binding, 6), Some("user"));
    assert_eq!(store.claim_authenticated(&id, &binding, 7), None);
    assert_eq!(store.len(), 0);
}

#[test]
fn workflow_reports_rejection_failure_and_expiry() {
    let mut store: PendingLoginStore<u8> = PendingLoginStore::new(5);
    let rejected = store.create(0, 1_000).expect("room");
    begin(&mut store, &rejected);
    let events = finish(&mut store, &rejected, LoginOutcome::NotAllowed, 1);
    assert!(events.len() == 1 && events[0] == LoginEvent::Rejected);
    assert_eq!(store.state_of(&rejected), Some(Failed));

    let failed = store.create(0, 1_000).expect("room");
    begin(&mut store, &failed);
    let events = finish(&mut store, &failed, LoginOutcome::Failed, 1);
    match &events[0] {
        LoginEvent::Error { code, .. } => assert_eq!(code, "LOGIN_FAILED"),
        _ => panic!("expected an error event"),
    }
    assert_eq!(store.state_of(&failed), Some(Failed));

    let expired = store.create(0, 1_000).expect("room");
    begin(&mut store, &expired);
    assert_eq!(qr_expired(&mut store, &expired).len(), 1);
    assert_eq!(store.state_of(&expired), Some(Expired));
    assert!(finish(&mut store, &expired, LoginOutcome::Failed, 1).is_empty());
}

#[test]
fn created_login_starts_fresh_and_claims_free_its_place() {
    let mut store: PendingLoginStore<&str> = PendingLoginStore::new(2);
    let id = store.create(40, 100).expect("room");
    let pending = store.get(&id).expect("stored");
    assert_eq!(pending.created_at(), 40);
    assert_eq!(pending.expires_at(), 140);
    assert_eq!(pending.state(), Starting);
    assert!(!pending.is_cancelled());
    assert!(pending.event_history().is_empty());
    let binding = pending.browser_binding().duplicate();
    assert_eq!(store.access(&id, &binding, 139), PendingAccess::Granted);
    let other = store.create(0, 10).expect("room");
    assert_eq!(store.len(), 2);
    assert!(store.create(0, 10).is_err());
    let other_binding = store.get(&other).expect("stored").browser_binding().duplicate();
    assert_eq!(store.claim_authenticated(&other, &other_binding, 20), None);
    assert_eq!(store.len(), 1);
}

#[test]
fn failing_before_the_login_runs_always_reports() {
    let mut store: PendingLoginStore<u8> = PendingLoginStore::new(3);
    let started = store.create(0, 1_000).expect("room");
    begin(&mut store, &started);
    let events = fail(&mut store, &started);
    assert_eq!(events.len(), 1);
    match &events[0] {
        LoginEvent::Error { code, .. } => assert_eq!(code, "LOGIN_FAILED"),
        _ => panic!("expected an error event"),
    }
    assert_eq!(store.state_of(&started), Some(Failed));

    let expired = store.create(0, 1_000).expect("room");
    begin(&mut store, &expired);
    qr_expired(&mut store, &expired);
    assert_eq!(fail(&mut store, &expired).len(), 1);
    assert_eq!(store.state_of(&expired), Some(Expired));
    let missing = server::ids::PendingLoginId::generate().expect("random source");
    assert!(fail(&mut store, &missing).is_empty());
}
