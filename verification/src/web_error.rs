//! The errors the web API answers with: an HTTP status, a stable machine-readable code, a
//! message for the user and, for rate limits, a `Retry-After` value.

use vstd::prelude::*;
use crate::invite::InviteError;
use crate::range::RangeParseError;
use crate::session_store::SessionLookupError;
use crate::ticket::TicketLookupError;

verus! {

/// The machine-readable error codes.
#[derive(Debug, Clone, Copy, PartialEq, Eq, Structural)]
pub enum WebErrorCode {
    Unauthorized,
    SessionExpired,
    CsrfRejected,
    OriginRejected,
    UserNotAllowed,
    TooManyPendingLogins,
    QrStartRateLimited,
    InviteInvalid,
    InviteExpired,
    InviteAlreadyUsed,
    PendingLoginNotFound,
    PendingLoginExpired,
    CourseHandleInvalid,
    VideoHandleInvalid,
    TrackHandleInvalid,
    SubtitleNotFound,
    DownloadTicketInvalid,
    DownloadTicketExpired,
    DownloadTicketSessionMismatch,
    DownloadLimitExceeded,
    InvalidRange,
    MultipleRangesUnsupported,
    RequestTooLarge,
    ApiRouteNotFound,
    UpstreamRejectedRange,
    UpstreamUnavailable,
    Internal,
}

/// The name the API writes for `code`, in upper snake case.
pub open spec fn code_name(code: WebErrorCode) -> Seq<char> {
    match code {
        WebErrorCode::Unauthorized => "UNAUTHORIZED"@,
        WebErrorCode::SessionExpired => "SESSION_EXPIRED"@,
        WebErrorCode::CsrfRejected => "CSRF_REJECTED"@,
        WebErrorCode::OriginRejected => "ORIGIN_REJECTED"@,
        WebErrorCode::UserNotAllowed => "USER_NOT_ALLOWED"@,
        WebErrorCode::TooManyPendingLogins => "TOO_MANY_PENDING_LOGINS"@,
        WebErrorCode::QrStartRateLimited => "QR_START_RATE_LIMITED"@,
        WebErrorCode::InviteInvalid => "INVITE_INVALID"@,
        WebErrorCode::InviteExpired => "INVITE_EXPIRED"@,
        WebErrorCode::InviteAlreadyUsed => "INVITE_ALREADY_USED"@,
        WebErrorCode::PendingLoginNotFound => "PENDING_LOGIN_NOT_FOUND"@,
        WebErrorCode::PendingLoginExpired => "PENDING_LOGIN_EXPIRED"@,
        WebErrorCode::CourseHandleInvalid => "COURSE_HANDLE_INVALID"@,
        WebErrorCode::VideoHandleInvalid => "VIDEO_HANDLE_INVALID"@,
        WebErrorCode::TrackHandleInvalid => "TRACK_HANDLE_INVALID"@,
        WebErrorCode::SubtitleNotFound => "SUBTITLE_NOT_FOUND"@,
        WebErrorCode::DownloadTicketInvalid => "DOWNLOAD_TICKET_INVALID"@,
        WebErrorCode::DownloadTicketExpired => "DOWNLOAD_TICKET_EXPIRED"@,
        WebErrorCode::DownloadTicketSessionMismatch => "DOWNLOAD_TICKET_SESSION_MISMATCH"@,
        WebErrorCode::DownloadLimitExceeded => "DOWNLOAD_LIMIT_EXCEEDED"@,
        WebErrorCode::InvalidRange => "INVALID_RANGE"@,
        WebErrorCode::MultipleRangesUnsupported => "MULTIPLE_RANGES_UNSUPPORTED"@,
        WebErrorCode::RequestTooLarge => "REQUEST_TOO_LARGE"@,
        WebErrorCode::ApiRouteNotFound => "API_ROUTE_NOT_FOUND"@,
        WebErrorCode::UpstreamRejectedRange => "UPSTREAM_REJECTED_RANGE"@,
        WebErrorCode::UpstreamUnavailable => "UPSTREAM_UNAVAILABLE"@,
        WebErrorCode::Internal => "INTERNAL"@,
    }
}

impl WebErrorCode {
    /// The code as the API writes it, in upper snake case.
    pub fn name(self) -> (r: &'static str)
        ensures
            r@ == code_name(self),
    {
        match self {
            WebErrorCode::Unauthorized => "UNAUTHORIZED",
            WebErrorCode::SessionExpired => "SESSION_EXPIRED",
            WebErrorCode::CsrfRejected => "CSRF_REJECTED",
            WebErrorCode::OriginRejected => "ORIGIN_REJECTED",
            WebErrorCode::UserNotAllowed => "USER_NOT_ALLOWED",
            WebErrorCode::TooManyPendingLogins => "TOO_MANY_PENDING_LOGINS",
            WebErrorCode::QrStartRateLimited => "QR_START_RATE_LIMITED",
            WebErrorCode::InviteInvalid => "INVITE_INVALID",
            WebErrorCode::InviteExpired => "INVITE_EXPIRED",
            WebErrorCode::InviteAlreadyUsed => "INVITE_ALREADY_USED",
            WebErrorCode::PendingLoginNotFound => "PENDING_LOGIN_NOT_FOUND",
            WebErrorCode::PendingLoginExpired => "PENDING_LOGIN_EXPIRED",
            WebErrorCode::CourseHandleInvalid => "COURSE_HANDLE_INVALID",
            WebErrorCode::VideoHandleInvalid => "VIDEO_HANDLE_INVALID",
            WebErrorCode::TrackHandleInvalid => "TRACK_HANDLE_INVALID",
            WebErrorCode::SubtitleNotFound => "SUBTITLE_NOT_FOUND",
            WebErrorCode::DownloadTicketInvalid => "DOWNLOAD_TICKET_INVALID",
            WebErrorCode::DownloadTicketExpired => "DOWNLOAD_TICKET_EXPIRED",
            WebErrorCode::DownloadTicketSessionMismatch => "DOWNLOAD_TICKET_SESSION_MISMATCH",
            WebErrorCode::DownloadLimitExceeded => "DOWNLOAD_LIMIT_EXCEEDED",
            WebErrorCode::InvalidRange => "INVALID_RANGE",
            WebErrorCode::MultipleRangesUnsupported => "MULTIPLE_RANGES_UNSUPPORTED",
            WebErrorCode::RequestTooLarge => "REQUEST_TOO_LARGE",
            WebErrorCode::ApiRouteNotFound => "API_ROUTE_NOT_FOUND",
            WebErrorCode::UpstreamRejectedRange => "UPSTREAM_REJECTED_RANGE",
            WebErrorCode::UpstreamUnavailable => "UPSTREAM_UNAVAILABLE",
            WebErrorCode::Internal => "INTERNAL",
        }
    }
}

/// An error answer of the web API.
#[derive(Debug)]
pub struct WebError {
    status: u16,
    code: WebErrorCode,
    message: &'static str,
    retry_after: Option<&'static str>,
}

impl WebError {
    pub closed spec fn spec_status(&self) -> u16 {
        self.status
    }

    pub closed spec fn spec_code(&self) -> WebErrorCode {
        self.code
    }

    pub closed spec fn spec_message(&self) -> Seq<char> {
        self.message@
    }

    pub closed spec fn spec_retry_after(&self) -> Option<Seq<char>> {
        match self.retry_after {
            Some(v) => Some(v@),
            None => None,
        }
    }

    /// The HTTP status.
    pub fn status(&self) -> (r: u16)
        ensures
            r == self.spec_status(),
    {
        self.status
    }

    /// The error code.
    pub fn code(&self) -> (r: WebErrorCode)
        ensures
            r == self.spec_code(),
    {
        self.code
    }

    /// The message for the user.
    pub fn message(&self) -> (r: &'static str)
        ensures
            r@ == self.spec_message(),
    {
        self.message
    }

    /// The `Retry-After` value, for rate limits.
    pub fn retry_after(&self) -> (r: Option<&'static str>)
        ensures
            match r {
                Some(v) => self.spec_retry_after() == Some(v@),
                None => self.spec_retry_after() is None,
            },
    {
        self.retry_after
    }

    fn new(status: u16, code: WebErrorCode, message: &'static str) -> (r: Self)
        ensures
            r.spec_status() == status,
            r.spec_code() == code,
            r.spec_message() == message@,
            r.spec_retry_after() is None,
    {
        WebError { status, code, message, retry_after: None }
    }

    /// 403 `ORIGIN_REJECTED`.
    pub fn origin_rejected() -> (r: Self)
        ensures
            r.spec_status() == 403,
            r.spec_code() == WebErrorCode::OriginRejected,
            r.spec_message() == "请求来源校验失败。"@,
            r.spec_retry_after() is None,
    {
        Self::new(403, WebErrorCode::OriginRejected, "请求来源校验失败。")
    }

    /// 429 `TOO_MANY_PENDING_LOGINS`.
    pub fn too_many_pending() -> (r: Self)
        ensures
            r.spec_status() == 429,
            r.spec_code() == WebErrorCode::TooManyPendingLogins,
            r.spec_message() == "当前扫码登录请求过多，请稍后重试。"@,
            r.spec_retry_after() is None,
    {
        Self::new(429, WebErrorCode::TooManyPendingLogins, "当前扫码登录请求过多，请稍后重试。")
    }

    /// 429 `QR_START_RATE_LIMITED`, retry after 60 seconds.
    pub fn qr_start_rate_limited() -> (r: Self)
        ensures
            r.spec_status() == 429,
            r.spec_code() == WebErrorCode::QrStartRateLimited,
            r.spec_message() == "扫码登录请求过于频繁，请稍后重试。"@,
            r.spec_retry_after() == Some("60"@),
    {
        let mut error = Self::new(429, WebErrorCode::QrStartRateLimited, "扫码登录请求过于频繁，请稍后重试。");
        error.retry_after = Some("60");
        error
    }

    /// 403 `INVITE_INVALID`.
    pub fn invite_invalid() -> (r: Self)
        ensures
            r.spec_status() == 403,
            r.spec_code() == WebErrorCode::InviteInvalid,
            r.spec_message() == "邀请链接无效。"@,
            r.spec_retry_after() is None,
    {
        Self::new(403, WebErrorCode::InviteInvalid, "邀请链接无效。")
    }

    /// 410 `INVITE_EXPIRED`.
    pub fn invite_expired() -> (r: Self)
        ensures
            r.spec_status() == 410,
            r.spec_code() == WebErrorCode::InviteExpired,
            r.spec_message() == "邀请链接已过期。"@,
            r.spec_retry_after() is None,
    {
        Self::new(410, WebErrorCode::InviteExpired, "邀请链接已过期。")
    }

    /// 410 `INVITE_ALREADY_USED`.
    pub fn invite_already_used() -> (r: Self)
        ensures
            r.spec_status() == 410,
            r.spec_code() == WebErrorCode::InviteAlreadyUsed,
            r.spec_message() == "邀请链接已使用或正在使用。"@,
            r.spec_retry_after() is None,
    {
        Self::new(410, WebErrorCode::InviteAlreadyUsed, "邀请链接已使用或正在使用。")
    }

    /// 404 `PENDING_LOGIN_NOT_FOUND`.
    pub fn pending_not_found() -> (r: Self)
        ensures
            r.spec_status() == 404,
            r.spec_code() == WebErrorCode::PendingLoginNotFound,
            r.spec_message() == "扫码登录状态不存在或已过期。"@,
            r.spec_retry_after() is None,
    {
        Self::new(404, WebErrorCode::PendingLoginNotFound, "扫码登录状态不存在或已过期。")
    }

    /// 403 `CSRF_REJECTED`.
    pub fn csrf_rejected() -> (r: Self)
        ensures
            r.spec_status() == 403,
            r.spec_code() == WebErrorCode::CsrfRejected,
            r.spec_message() == "CSRF 校验失败，请刷新页面后重试。"@,
            r.spec_retry_after() is None,
    {
        Self::new(403, WebErrorCode::CsrfRejected, "CSRF 校验失败，请刷新页面后重试。")
    }

    /// 401 `UNAUTHORIZED`.
    pub fn unauthorized() -> (r: Self)
        ensures
            r.spec_status() == 401,
            r.spec_code() == WebErrorCode::Unauthorized,
            r.spec_message() == "请先使用 jAccount 扫码登录。"@,
            r.spec_retry_after() is None,
    {
        Self::new(401, WebErrorCode::Unauthorized, "请先使用 jAccount 扫码登录。")
    }

    /// 401 `SESSION_EXPIRED`.
    pub fn session_expired() -> (r: Self)
        ensures
            r.spec_status() == 401,
            r.spec_code() == WebErrorCode::SessionExpired,
            r.spec_message() == "登录状态已过期，请重新扫码登录。"@,
            r.spec_retry_after() is None,
    {
        Self::new(401, WebErrorCode::SessionExpired, "登录状态已过期，请重新扫码登录。")
    }

    /// 404 `COURSE_HANDLE_INVALID`.
    pub fn invalid_course_handle() -> (r: Self)
        ensures
            r.spec_status() == 404,
            r.spec_code() == WebErrorCode::CourseHandleInvalid,
            r.spec_message() == "课程不存在或访问句柄已过期。"@,
            r.spec_retry_after() is None,
    {
        Self::new(404, WebErrorCode::CourseHandleInvalid, "课程不存在或访问句柄已过期。")
    }

    /// 404 `VIDEO_HANDLE_INVALID`.
    pub fn invalid_video_handle() -> (r: Self)
        ensures
            r.spec_status() == 404,
            r.spec_code() == WebErrorCode::VideoHandleInvalid,
            r.spec_message() == "录像不存在或访问句柄已过期。"@,
            r.spec_retry_after() is None,
    {
        Self::new(404, WebErrorCode::VideoHandleInvalid, "录像不存在或访问句柄已过期。")
    }

    /// 404 `TRACK_HANDLE_INVALID`.
    pub fn invalid_track_handle() -> (r: Self)
        ensures
            r.spec_status() == 404,
            r.spec_code() == WebErrorCode::TrackHandleInvalid,
            r.spec_message() == "视频轨道不存在或访问句柄已过期。"@,
            r.spec_retry_after() is None,
    {
        Self::new(404, WebErrorCode::TrackHandleInvalid, "视频轨道不存在或访问句柄已过期。")
    }

    /// 404 `SUBTITLE_NOT_FOUND`.
    pub fn subtitle_missing() -> (r: Self)
        ensures
            r.spec_status() == 404,
            r.spec_code() == WebErrorCode::SubtitleNotFound,
            r.spec_message() == "这段录像暂时没有可用字幕。"@,
            r.spec_retry_after() is None,
    {
        Self::new(404, WebErrorCode::SubtitleNotFound, "这段录像暂时没有可用字幕。")
    }

    /// 502 `UPSTREAM_UNAVAILABLE`.
    pub fn upstream_unavailable() -> (r: Self)
        ensures
            r.spec_status() == 502,
            r.spec_code() == WebErrorCode::UpstreamUnavailable,
            r.spec_message() == "上游课程录像服务暂时不可用。"@,
            r.spec_retry_after() is None,
    {
        Self::new(502, WebErrorCode::UpstreamUnavailable, "上游课程录像服务暂时不可用。")
    }

    /// 404 `DOWNLOAD_TICKET_INVALID`.
    pub fn invalid_download_ticket() -> (r: Self)
        ensures
            r.spec_status() == 404,
            r.spec_code() == WebErrorCode::DownloadTicketInvalid,
            r.spec_message() == "下载凭证无效。"@,
            r.spec_retry_after() is None,
    {
        Self::new(404, WebErrorCode::DownloadTicketInvalid, "下载凭证无效。")
    }

    /// 410 `DOWNLOAD_TICKET_EXPIRED`.
    pub fn expired_download_ticket() -> (r: Self)
        ensures
            r.spec_status() == 410,
            r.spec_code() == WebErrorCode::DownloadTicketExpired,
            r.spec_message() == "下载凭证已过期，请重新获取。"@,
            r.spec_retry_after() is None,
    {
        Self::new(410, WebErrorCode::DownloadTicketExpired, "下载凭证已过期，请重新获取。")
    }

    /// 403 `DOWNLOAD_TICKET_SESSION_MISMATCH`.
    pub fn download_ticket_session_mismatch() -> (r: Self)
        ensures
            r.spec_status() == 403,
            r.spec_code() == WebErrorCode::DownloadTicketSessionMismatch,
            r.spec_message() == "下载凭证不属于当前登录会话。"@,
            r.spec_retry_after() is None,
    {
        Self::new(403, WebErrorCode::DownloadTicketSessionMismatch, "下载凭证不属于当前登录会话。")
    }

    /// 429 `DOWNLOAD_LIMIT_EXCEEDED`, retry after 5 seconds.
    pub fn download_limit_exceeded() -> (r: Self)
        ensures
            r.spec_status() == 429,
            r.spec_code() == WebErrorCode::DownloadLimitExceeded,
            r.spec_message() == "同时下载数量已达到限制，请稍后重试。"@,
            r.spec_retry_after() == Some("5"@),
    {
        let mut error = Self::new(429, WebErrorCode::DownloadLimitExceeded, "同时下载数量已达到限制，请稍后重试。");
        error.retry_after = Some("5");
        error
    }

    /// 416 `INVALID_RANGE`.
    pub fn invalid_range() -> (r: Self)
        ensures
            r.spec_status() == 416,
            r.spec_code() == WebErrorCode::InvalidRange,
            r.spec_message() == "Range 请求格式无效。"@,
            r.spec_retry_after() is None,
    {
        Self::new(416, WebErrorCode::InvalidRange, "Range 请求格式无效。")
    }

    /// 416 `MULTIPLE_RANGES_UNSUPPORTED`.
    pub fn multiple_ranges_unsupported() -> (r: Self)
        ensures
            r.spec_status() == 416,
            r.spec_code() == WebErrorCode::MultipleRangesUnsupported,
            r.spec_message() == "暂不支持多个 Range 区间。"@,
            r.spec_retry_after() is None,
    {
        Self::new(416, WebErrorCode::MultipleRangesUnsupported, "暂不支持多个 Range 区间。")
    }

    /// 502 `UPSTREAM_REJECTED_RANGE`.
    pub fn upstream_rejected_range() -> (r: Self)
        ensures
            r.spec_status() == 502,
            r.spec_code() == WebErrorCode::UpstreamRejectedRange,
            r.spec_message() == "上游服务未接受续传请求。"@,
            r.spec_retry_after() is None,
    {
        Self::new(502, WebErrorCode::UpstreamRejectedRange, "上游服务未接受续传请求。")
    }

    /// 413 `REQUEST_TOO_LARGE`.
    pub fn request_too_large() -> (r: Self)
        ensures
            r.spec_status() == 413,
            r.spec_code() == WebErrorCode::RequestTooLarge,
            r.spec_message() == "请求内容超过大小限制。"@,
            r.spec_retry_after() is None,
    {
        Self::new(413, WebErrorCode::RequestTooLarge, "请求内容超过大小限制。")
    }

    /// 500 `INTERNAL`.
    pub fn internal() -> (r: Self)
        ensures
            r.spec_status() == 500,
            r.spec_code() == WebErrorCode::Internal,
            r.spec_message() == "服务暂时不可用，请稍后重试。"@,
            r.spec_retry_after() is None,
    {
        Self::new(500, WebErrorCode::Internal, "服务暂时不可用，请稍后重试。")
    }

    /// 404 `API_ROUTE_NOT_FOUND`.
    pub fn api_route_not_found() -> (r: Self)
        ensures
            r.spec_status() == 404,
            r.spec_code() == WebErrorCode::ApiRouteNotFound,
            r.spec_message() == "API 路径不存在。"@,
            r.spec_retry_after() is None,
    {
        Self::new(404, WebErrorCode::ApiRouteNotFound, "API 路径不存在。")
    }
}

/// The answer to a refused `Range` header: several ranges are reported as such, anything else
/// as an invalid range.
pub fn map_range_error(error: RangeParseError) -> (r: WebError)
    ensures
        r.spec_code() == if error == RangeParseError::MultipleRanges {
            WebErrorCode::MultipleRangesUnsupported
        } else {
            WebErrorCode::InvalidRange
        },
        r.spec_status() == 416,
{
    match error {
        RangeParseError::MultipleRanges => WebError::multiple_ranges_unsupported(),
        _ => WebError::invalid_range(),
    }
}

/// The answer to a failed ticket lookup.
pub fn map_ticket_error(error: TicketLookupError) -> (r: WebError)
    ensures
        match error {
            TicketLookupError::Invalid => r.spec_code() == WebErrorCode::DownloadTicketInvalid && r.spec_status() == 404,
            TicketLookupError::Expired => r.spec_code() == WebErrorCode::DownloadTicketExpired && r.spec_status() == 410,
            TicketLookupError::SessionMismatch => r.spec_code() == WebErrorCode::DownloadTicketSessionMismatch && r.spec_status() == 403,
        },
{
    match error {
        TicketLookupError::Invalid => WebError::invalid_download_ticket(),
        TicketLookupError::Expired => WebError::expired_download_ticket(),
        TicketLookupError::SessionMismatch => WebError::download_ticket_session_mismatch(),
    }
}

/// The answer to a failed session lookup: an expired session is reported as such, anything
/// else as unauthorized.
pub fn map_lookup_error(error: SessionLookupError) -> (r: WebError)
    ensures
        r.spec_status() == 401,
        r.spec_code() == if error == SessionLookupError::Expired {
            WebErrorCode::SessionExpired
        } else {
            WebErrorCode::Unauthorized
        },
{
    match error {
        SessionLookupError::Expired => WebError::session_expired(),
        SessionLookupError::Invalid | SessionLookupError::Revoked => WebError::unauthorized(),
    }
}

/// The answer to a failed invitation reservation.
pub fn invite_web_error(error: InviteError) -> (r: WebError)
    ensures
        r.spec_code() == match error {
            InviteError::Invalid => WebErrorCode::InviteInvalid,
            InviteError::Expired => WebErrorCode::InviteExpired,
            InviteError::Reserved | InviteError::Consumed => WebErrorCode::InviteAlreadyUsed,
            _ => WebErrorCode::Internal,
        },
{
    match error {
        InviteError::Invalid => WebError::invite_invalid(),
        InviteError::Expired => WebError::invite_expired(),
        InviteError::Reserved | InviteError::Consumed => WebError::invite_already_used(),
        InviteError::Database | InviteError::Io | InviteError::Random => WebError::internal(),
    }
}

/// Refuses with `UNAUTHORIZED` once the session has been revoked.
pub fn ensure_active(revoked: bool) -> (r: Result<(), WebError>)
    ensures
        r is Ok <==> !revoked,
        r matches Err(e) ==> e.spec_code() == WebErrorCode::Unauthorized && e.spec_status() == 401,
{
    if revoked {
        Err(WebError::unauthorized())
    } else {
        Ok(())
    }
}

} // verus!
