use server::range::ByteRange;
use server::stream::{
    filter_upstream_response_headers, is_allowed_upstream_response_header, keeps_content_length,
    requested_range, response_has_body, validate_status, StreamOutcome, StreamProgress,
};
use server::web_error::WebErrorCode;

#[test]
fn requested_range_maps_errors() {
    assert!(matches!(requested_range(None), Ok(None)));
    assert!(matches!(
        requested_range(Some(Some("bytes=1-2"))),
        Ok(Some(ByteRange::Closed { start: 1, end: 2 }))
    ));
    assert_eq!(requested_range(Some(None)).err().map(|e| e.code()), Some(WebErrorCode::InvalidRange));
    assert_eq!(
        requested_range(Some(Some("bytes=1-2,3-4"))).err().map(|e| e.code()),
        Some(WebErrorCode::MultipleRangesUnsupported)
    );
    assert_eq!(requested_range(Some(Some("bytes=x"))).err().map(|e| e.status()), Some(416));
}

#[test]
fn upstream_statuses_are_checked() {
    assert!(validate_status(206, true, true).is_ok());
    assert!(validate_status(200, true, false).is_ok());
    assert!(validate_status(200, false, true).is_ok());
    assert!(validate_status(416, true, true).is_ok());
    assert_eq!(validate_status(200, true, true).err().map(|e| e.code()), Some(WebErrorCode::UpstreamRejectedRange));
    assert_eq!(validate_status(404, true, false).err().map(|e| e.code()), Some(WebErrorCode::UpstreamUnavailable));
    assert!(response_has_body(false, 200));
    assert!(!response_has_body(true, 200));
    assert!(!response_has_body(false, 416));
    assert!(keeps_content_length(206));
    assert!(!keeps_content_length(416));
}

#[test]
fn only_allowlisted_headers_pass_in_allowlist_order() {
    assert!(is_allowed_upstream_response_header("etag"));
    assert!(is_allowed_upstream_response_header("content-range"));
    assert!(!is_allowed_upstream_response_header("set-cookie"));
    let upstream = vec![
        ("set-cookie".to_owned(), b"a=b".to_vec()),
        ("etag".to_owned(), b"\"v1\"".to_vec()),
        ("content-length".to_owned(), b"10".to_vec()),
        ("accept-ranges".to_owned(), b"bytes".to_vec()),
        ("etag".to_owned(), b"\"v2\"".to_vec()),
    ];
    let filtered = filter_upstream_response_headers(&upstream);
    let names: Vec<&str> = filtered.iter().map(|(n, _)| n.as_str()).collect();
    assert_eq!(names, vec!["accept-ranges", "content-length", "etag", "etag"]);
    assert_eq!(filtered[3].1, b"\"v2\"".to_vec());
}

#[test]
fn stream_outcomes_are_reported() {
    let mut progress = StreamProgress::new();
    progress.on_chunk(10);
    progress.on_chunk(5);
    assert_eq!(progress.bytes_streamed, 15);
    progress.on_end();
    assert_eq!(progress.outcome, StreamOutcome::Complete);
    assert_eq!(progress.outcome.as_str(), "complete");
    let mut failed = StreamProgress::new();
    failed.on_upstream_error();
    failed.on_end();
    assert_eq!(failed.outcome.as_str(), "upstream_error");
    let mut stopped = StreamProgress::new();
    stopped.finish(StreamOutcome::SessionRevoked);
    assert_eq!(stopped.outcome.as_str(), "session_revoked");
    assert_eq!(StreamOutcome::Open.as_str(), "client_disconnected");
    assert_eq!(StreamOutcome::ShuttingDown.as_str(), "shutting_down");
}

#[test]
fn download_responses_carry_fixed_headers() {
    let headers = server::stream::download_headers("lecture.mp4");
    assert_eq!(headers.len(), 3);
    assert_eq!(headers[0].0, "content-disposition");
    assert_eq!(headers[0].1, "attachment; filename=\"lecture.mp4\"; filename*=UTF-8''lecture.mp4");
    assert_eq!(headers[1], ("cache-control", "private, no-store".to_owned()));
    assert_eq!(headers[2], ("x-content-type-options", "nosniff".to_owned()));
}
