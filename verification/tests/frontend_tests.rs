use server::frontend::{accepts_html, check_assets, FrontendError};
use server::live_events::{same_event, LiveFilter};
use server::pending::{BrowserQrUrl, LoginEvent};

#[test]
fn html_is_recognised_in_accept_headers() {
    assert!(accepts_html(Some("text/html")));
    assert!(accepts_html(Some("application/json, text/html;q=0.9")));
    assert!(accepts_html(Some("application/xhtml+xml ; q=1")));
    assert!(!accepts_html(Some("application/json")));
    assert!(!accepts_html(Some("text/htmlx")));
    assert!(!accepts_html(Some("")));
    assert!(!accepts_html(None));
}

#[test]
fn built_assets_are_checked() {
    assert_eq!(check_assets(true, 10), Ok(()));
    assert_eq!(check_assets(false, 10), Err(FrontendError::NotDirectory));
    assert_eq!(check_assets(true, 0), Err(FrontendError::EmptyIndex));
}

#[test]
fn live_stream_forwards_each_event_once_until_terminal() {
    let mut filter = LiveFilter::new(vec![LoginEvent::Started]);
    assert!(!filter.is_done());
    assert!(filter.accept(LoginEvent::Started).is_none());
    let qr = LoginEvent::Qr { url: BrowserQrUrl::new("https://qr/1".to_owned()) };
    assert!(filter.accept(qr.clone()).is_some());
    assert!(filter.accept(qr).is_none());
    assert!(filter.accept(LoginEvent::Qr { url: BrowserQrUrl::new("https://qr/2".to_owned()) }).is_some());
    assert!(filter.accept(LoginEvent::Authenticated).is_some());
    assert!(filter.is_done());
    assert!(filter.accept(LoginEvent::Scanned).is_none());
}

#[test]
fn lagging_ends_the_stream() {
    let mut filter = LiveFilter::new(vec![]);
    match filter.lagged() {
        LoginEvent::Error { code, .. } => assert_eq!(code, "SSE_LAGGED"),
        _ => panic!("expected an error event"),
    }
    assert!(filter.is_done());
    let done = LiveFilter::new(vec![LoginEvent::Rejected]);
    assert!(done.is_done());
}

#[test]
fn events_compare_by_content() {
    let a = LoginEvent::Error { code: "X".to_owned(), message: "m".to_owned() };
    let b = LoginEvent::Error { code: "X".to_owned(), message: "n".to_owned() };
    assert!(same_event(&a, &a.clone()));
    assert!(!same_event(&a, &b));
    assert!(!same_event(&LoginEvent::Scanned, &LoginEvent::Started));
}
