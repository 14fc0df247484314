use server::invite::InviteError;
use server::range::RangeParseError;
use server::session_store::SessionLookupError;
use server::ticket::TicketLookupError;
use server::web_error::{
    ensure_active, invite_web_error, map_lookup_error, map_range_error, map_ticket_error, WebError,
    WebErrorCode,
};

#[test]
fn constructors_set_status_code_and_retry() {
    let limited = WebError::qr_start_rate_limited();
    assert_eq!(limited.status(), 429);
    assert_eq!(limited.code(), WebErrorCode::QrStartRateLimited);
    assert_eq!(limited.retry_after(), Some("60"));
    assert_eq!(WebError::download_limit_exceeded().retry_after(), Some("5"));
    assert_eq!(WebError::internal().status(), 500);
    assert_eq!(WebError::internal().retry_after(), None);
    assert_eq!(WebError::origin_rejected().message(), "请求来源校验失败。");
    assert_eq!(WebError::invite_expired().status(), 410);
    assert_eq!(WebError::request_too_large().status(), 413);
    assert_eq!(WebError::api_route_not_found().code().name(), "API_ROUTE_NOT_FOUND");
    assert_eq!(WebErrorCode::DownloadTicketSessionMismatch.name(), "DOWNLOAD_TICKET_SESSION_MISMATCH");
}

#[test]
fn errors_map_to_answers() {
    assert_eq!(map_range_error(RangeParseError::MultipleRanges).code(), WebErrorCode::MultipleRangesUnsupported);
    assert_eq!(map_range_error(RangeParseError::Overflow).code(), WebErrorCode::InvalidRange);
    assert_eq!(map_ticket_error(TicketLookupError::Invalid).status(), 404);
    assert_eq!(map_ticket_error(TicketLookupError::Expired).status(), 410);
    assert_eq!(map_ticket_error(TicketLookupError::SessionMismatch).status(), 403);
    assert_eq!(map_lookup_error(SessionLookupError::Expired).code(), WebErrorCode::SessionExpired);
    assert_eq!(map_lookup_error(SessionLookupError::Revoked).code(), WebErrorCode::Unauthorized);
    assert_eq!(invite_web_error(InviteError::Reserved).code(), WebErrorCode::InviteAlreadyUsed);
    assert_eq!(invite_web_error(InviteError::Consumed).code(), WebErrorCode::InviteAlreadyUsed);
    assert_eq!(invite_web_error(InviteError::Database).code(), WebErrorCode::Internal);
    assert_eq!(invite_web_error(InviteError::Invalid).status(), 403);
    assert!(ensure_active(false).is_ok());
    assert_eq!(ensure_active(true).err().map(|e| e.status()), Some(401));
}
