//! Download streaming decisions: the requested range, which upstream statuses and headers pass
//! through, whether a body is sent, and how a finished stream is reported.

use vstd::prelude::*;
use vstd::string::StringExecFns;
use crate::filename::{attachment_content_disposition, spec_attachment_content_disposition};
use crate::ids::same_text;
use crate::range::{parse_single_range, spec_parse_range, ByteRange, RangeParseError};
use crate::web_error::{map_range_error, WebError, WebErrorCode};

verus! {

/// The `Range` request header: absent, present but not visible ASCII, or its text.
pub open spec fn spec_requested_range(header: Option<Option<Seq<char>>>) -> Result<Option<ByteRange>, WebErrorCode> {
    match header {
        None => Ok(None),
        Some(None) => Err(WebErrorCode::InvalidRange),
        Some(Some(v)) => match spec_parse_range(v) {
            Ok(r) => Ok(Some(r)),
            Err(e) => Err(if e == RangeParseError::MultipleRanges {
                WebErrorCode::MultipleRangesUnsupported
            } else {
                WebErrorCode::InvalidRange
            }),
        },
    }
}

/// The byte range a download asks for; `header` is `None` without a `Range` header and
/// `Some(None)` when its value is not visible ASCII.
pub fn requested_range(header: Option<Option<&str>>) -> (r: Result<Option<ByteRange>, WebError>)
    ensures
        match r {
            Ok(v) => spec_requested_range(match header { None => None, Some(None) => Some(None), Some(Some(s)) => Some(Some(s@)) }) == Ok::<Option<ByteRange>, WebErrorCode>(v),
            Err(e) => spec_requested_range(match header { None => None, Some(None) => Some(None), Some(Some(s)) => Some(Some(s@)) }) == Err::<Option<ByteRange>, WebErrorCode>(e.spec_code()),
        },
{
    match header {
        None => Ok(None),
        Some(None) => Err(WebError::invalid_range()),
        Some(Some(v)) => match parse_single_range(v) {
            Ok(range) => Ok(Some(range)),
            Err(e) => Err(map_range_error(e)),
        },
    }
}

/// Statuses passed through from upstream: 200, 206 and 416, except that a ranged GET answered
/// with a plain 200 means upstream ignored the range.
pub open spec fn spec_validate_status(status: u16, is_get: bool, has_range: bool) -> Result<(), WebErrorCode> {
    if is_get && has_range && status == 200 {
        Err(WebErrorCode::UpstreamRejectedRange)
    } else if status == 200 || status == 206 || status == 416 {
        Ok(())
    } else {
        Err(WebErrorCode::UpstreamUnavailable)
    }
}

/// Checks the upstream status of a download.
pub fn validate_status(status: u16, is_get: bool, has_range: bool) -> (r: Result<(), WebError>)
    ensures
        match r {
            Ok(()) => spec_validate_status(status, is_get, has_range) is Ok,
            Err(e) => spec_validate_status(status, is_get, has_range) == Err::<(), WebErrorCode>(e.spec_code()),
        },
{
    if is_get && has_range && status == 200 {
        return Err(WebError::upstream_rejected_range());
    }
    if status == 200 || status == 206 || status == 416 {
        Ok(())
    } else {
        Err(WebError::upstream_unavailable())
    }
}

/// Whether the download response carries a body: not for HEAD, not for 416.
pub fn response_has_body(is_head: bool, status: u16) -> (r: bool)
    ensures
        r == (!is_head && status != 416),
{
    !is_head && status != 416
}

/// Whether the upstream `Content-Length` is passed on: not for 416.
pub fn keeps_content_length(status: u16) -> (r: bool)
    ensures
        r == (status != 416),
{
    status != 416
}

/// The headers that every download response carries, after those passed on from upstream: the
/// attachment name, no caching outside the browser, and no content sniffing.
pub open spec fn spec_download_headers(filename: Seq<char>) -> Seq<(Seq<char>, Seq<char>)> {
    seq![
        ("content-disposition"@, spec_attachment_content_disposition(filename)),
        ("cache-control"@, "private, no-store"@),
        ("x-content-type-options"@, "nosniff"@),
    ]
}

/// The headers that every download response offered as `filename` carries.
pub fn download_headers(filename: &str) -> (r: Vec<(&'static str, String)>)
    ensures
        r@.len() == 3,
        forall|i: int| 0 <= i < 3 ==> (#[trigger] r@[i]).0@ == spec_download_headers(filename@)[i].0
            && r@[i].1@ == spec_download_headers(filename@)[i].1,
{
    let r = vec![
        ("content-disposition", attachment_content_disposition(filename)),
        ("cache-control", String::from_str("private, no-store")),
        ("x-content-type-options", String::from_str("nosniff")),
    ];
    assert forall|i: int| 0 <= i < 3 implies (#[trigger] r@[i]).0@ == spec_download_headers(filename@)[i].0
        && r@[i].1@ == spec_download_headers(filename@)[i].1 by {
        if i == 0 {
        } else if i == 1 {
        } else {
        }
    }
    r
}

/// The upstream response headers passed on to the browser, in this order.
pub open spec fn upstream_header_allowlist() -> Seq<Seq<char>> {
    seq!["accept-ranges"@, "content-range"@, "content-length"@, "content-type"@, "last-modified"@, "etag"@]
}

/// The allow-list as exec values.
pub fn upstream_response_header_allowlist() -> (r: Vec<&'static str>)
    ensures
        r@.len() == 6,
        forall|i: int| 0 <= i < 6 ==> #[trigger] r@[i]@ == upstream_header_allowlist()[i],
{
    let r = vec!["accept-ranges", "content-range", "content-length", "content-type", "last-modified", "etag"];
    assert forall|i: int| 0 <= i < 6 implies #[trigger] r@[i]@ == upstream_header_allowlist()[i] by {
        if i == 0 {
        } else if i == 1 {
        } else if i == 2 {
        } else if i == 3 {
        } else if i == 4 {
        } else {
        }
    }
    r
}

/// Whether the (lower-case) header name `name` is passed on from upstream.
pub fn is_allowed_upstream_response_header(name: &str) -> (r: bool)
    ensures
        r == upstream_header_allowlist().contains(name@),
{
    let allow = upstream_response_header_allowlist();
    let mut i: usize = 0;
    while i < allow.len()
        invariant
            allow@.len() == 6,
            forall|j: int| 0 <= j < 6 ==> #[trigger] allow@[j]@ == upstream_header_allowlist()[j],
            i <= 6,
            forall|j: int| 0 <= j < i ==> upstream_header_allowlist()[j] != name@,
        decreases allow.len() - i,
    {
        if same_text(allow[i], name) {
            assert(upstream_header_allowlist()[i as int] == name@);
            return true;
        }
        i = i + 1;
    }
    false
}

/// Headers as plain values.
pub open spec fn header_views(h: Seq<(String, Vec<u8>)>) -> Seq<(Seq<char>, Seq<u8>)> {
    h.map_values(|p: (String, Vec<u8>)| (p.0@, p.1@))
}

/// The headers of `h` named `name`, in order.
pub open spec fn headers_named(h: Seq<(Seq<char>, Seq<u8>)>, name: Seq<char>) -> Seq<(Seq<char>, Seq<u8>)>
    decreases h.len(),
{
    if h.len() == 0 {
        Seq::empty()
    } else if h.last().0 == name {
        headers_named(h.drop_last(), name).push(h.last())
    } else {
        headers_named(h.drop_last(), name)
    }
}

/// The headers named by the first `k` allow-list entries, name by name.
pub open spec fn headers_allowed_upto(h: Seq<(Seq<char>, Seq<u8>)>, k: nat) -> Seq<(Seq<char>, Seq<u8>)>
    decreases k,
{
    if k == 0 {
        Seq::empty()
    } else {
        headers_allowed_upto(h, (k - 1) as nat) + headers_named(h, upstream_header_allowlist()[k - 1])
    }
}

fn copy_bytes(v: &Vec<u8>) -> (r: Vec<u8>)
    ensures
        r@ == v@,
{
    let mut r: Vec<u8> = Vec::new();
    let mut i: usize = 0;
    while i < v.len()
        invariant
            i <= v@.len(),
            r@ == v@.take(i as int),
        decreases v.len() - i,
    {
        r.push(v[i]);
        i = i + 1;
        assert(r@ =~= v@.take(i as int));
    }
    assert(v@.take(i as int) =~= v@);
    r
}

/// The upstream headers passed on: for each allowed name in allow-list order, every value
/// upstream sent under it, in order.
pub fn filter_upstream_response_headers(upstream: &Vec<(String, Vec<u8>)>) -> (r: Vec<(String, Vec<u8>)>)
    ensures
        header_views(r@) == headers_allowed_upto(header_views(upstream@), 6),
{
    let allow = upstream_response_header_allowlist();
    let ghost h = header_views(upstream@);
    let mut out: Vec<(String, Vec<u8>)> = Vec::new();
    let mut k: usize = 0;
    while k < 6
        invariant
            allow@.len() == 6,
            forall|j: int| 0 <= j < 6 ==> #[trigger] allow@[j]@ == upstream_header_allowlist()[j],
            h == header_views(upstream@),
            k <= 6,
            header_views(out@) == headers_allowed_upto(h, k as nat),
        decreases 6 - k,
    {
        let name = allow[k];
        let ghost base = header_views(out@);
        let mut j: usize = 0;
        while j < upstream.len()
            invariant
                h == header_views(upstream@),
                j <= upstream@.len(),
                name@ == upstream_header_allowlist()[k as int],
                k < 6,
                base == headers_allowed_upto(h, k as nat),
                header_views(out@) == base + headers_named(h.take(j as int), name@),
            decreases upstream.len() - j,
        {
            let ghost prev = out@;
            assert(h.take(j + 1).drop_last() =~= h.take(j as int));
            assert(h.take(j + 1).last() == h[j as int]);
            if same_text(upstream[j].0.as_str(), name) {
                let pair = (String::from_str(upstream[j].0.as_str()), copy_bytes(&upstream[j].1));
                out.push(pair);
                assert(header_views(out@) =~= header_views(prev).push(h[j as int]));
            }
            j = j + 1;
            assert(header_views(out@) =~= base + headers_named(h.take(j as int), name@));
        }
        assert(h.take(j as int) =~= h);
        k = k + 1;
    }
    out
}

/// How a download stream ended.
#[derive(Debug, Clone, Copy, PartialEq, Eq, Structural)]
pub enum StreamOutcome {
    Open,
    Complete,
    UpstreamError,
    SessionRevoked,
    ShuttingDown,
}

impl StreamOutcome {
    /// The outcome as it is logged; a stream still open when dropped was left by the client.
    pub fn as_str(self) -> (r: &'static str)
        ensures
            r@ == match self {
                StreamOutcome::Open => "client_disconnected"@,
                StreamOutcome::Complete => "complete"@,
                StreamOutcome::UpstreamError => "upstream_error"@,
                StreamOutcome::SessionRevoked => "session_revoked"@,
                StreamOutcome::ShuttingDown => "shutting_down"@,
            },
    {
        match self {
            StreamOutcome::Open => "client_disconnected",
            StreamOutcome::Complete => "complete",
            StreamOutcome::UpstreamError => "upstream_error",
            StreamOutcome::SessionRevoked => "session_revoked",
            StreamOutcome::ShuttingDown => "shutting_down",
        }
    }
}

/// What a download stream has done so far.
#[derive(Debug, Clone, Copy, PartialEq, Eq, Structural)]
pub struct StreamProgress {
    pub bytes_streamed: u64,
    pub outcome: StreamOutcome,
}

impl StreamProgress {
    /// A stream that has sent nothing yet.
    pub fn new() -> (r: Self)
        ensures
            r == (StreamProgress { bytes_streamed: 0, outcome: StreamOutcome::Open }),
    {
        StreamProgress { bytes_streamed: 0, outcome: StreamOutcome::Open }
    }

    /// A chunk of `len` bytes was passed on.
    pub fn on_chunk(&mut self, len: u64)
        requires
            old(self).bytes_streamed + len <= u64::MAX,
        ensures
            final(self).bytes_streamed == old(self).bytes_streamed + len,
            final(self).outcome == old(self).outcome,
    {
        self.bytes_streamed = self.bytes_streamed + len;
    }

    /// Upstream failed mid-stream.
    pub fn on_upstream_error(&mut self)
        ensures
            *final(self) == (StreamProgress { outcome: StreamOutcome::UpstreamError, ..*old(self) }),
    {
        self.outcome = StreamOutcome::UpstreamError;
    }

    /// Upstream ended: a stream still open is complete.
    pub fn on_end(&mut self)
        ensures
            final(self).bytes_streamed == old(self).bytes_streamed,
            final(self).outcome == if old(self).outcome == StreamOutcome::Open {
                StreamOutcome::Complete
            } else {
                old(self).outcome
            },
    {
        if self.outcome == StreamOutcome::Open {
            self.outcome = StreamOutcome::Complete;
        }
    }

    /// The stream was stopped because the session was revoked or the server is shutting down.
    pub fn finish(&mut self, outcome: StreamOutcome)
        ensures
            *final(self) == (StreamProgress { outcome, ..*old(self) }),
    {
        self.outcome = outcome;
    }
}

/// Whether `name` is one of the upstream headers that a download passes on: `accept-ranges`,
/// `content-range`, `content-length`, `content-type`, `last-modified` and `etag`.
pub open spec fn is_passed_on_header(name: Seq<char>) -> bool {
    ||| name == "accept-ranges"@
    ||| name == "content-range"@
    ||| name == "content-length"@
    ||| name == "content-type"@
    ||| name == "last-modified"@
    ||| name == "etag"@
}

/// The headers named `name` are those of `h` with that name.
proof fn lemma_headers_named_contains(h: Seq<(Seq<char>, Seq<u8>)>, name: Seq<char>, p: (Seq<char>, Seq<u8>))
    ensures
        headers_named(h, name).contains(p) <==> h.contains(p) && p.0 == name,
    decreases h.len(),
{
    if h.len() > 0 {
        let init = h.drop_last();
        lemma_headers_named_contains(init, name, p);
        assert(h =~= init.push(h.last()));
        if h.contains(p) && p.0 == name && !init.contains(p) {
            let i = choose|i: int| 0 <= i < h.len() && h[i] == p;
            if i < init.len() {
                assert(init[i] == p);
            }
        }
        if init.contains(p) {
            let i = choose|i: int| 0 <= i < init.len() && init[i] == p;
            assert(h[i] == p);
        }
        let r0 = headers_named(init, name);
        if h.last().0 == name {
            if r0.push(h.last()).contains(p) && !r0.contains(p) {
                let i = choose|i: int| 0 <= i < r0.len() + 1 && r0.push(h.last())[i] == p;
                if i < r0.len() {
                    assert(r0[i] == p);
                }
            }
            if r0.contains(p) {
                let i = choose|i: int| 0 <= i < r0.len() && r0[i] == p;
                assert(r0.push(h.last())[i] == p);
            }
            if p == h.last() {
                assert(r0.push(h.last())[r0.len() as int] == p);
            }
        }
    }
}

/// The headers kept by the first `k` allow-list names are those of `h` named by one of them.
proof fn lemma_headers_allowed_contains(h: Seq<(Seq<char>, Seq<u8>)>, k: nat, p: (Seq<char>, Seq<u8>))
    requires
        k <= 6,
    ensures
        headers_allowed_upto(h, k).contains(p) <==> h.contains(p) && exists|j: int|
            0 <= j < k && upstream_header_allowlist()[j] == p.0,
    decreases k,
{
    if k > 0 {
        lemma_headers_allowed_contains(h, (k - 1) as nat, p);
        let a = headers_allowed_upto(h, (k - 1) as nat);
        let b = headers_named(h, upstream_header_allowlist()[k - 1]);
        lemma_headers_named_contains(h, upstream_header_allowlist()[k - 1], p);
        if (a + b).contains(p) {
            let i = choose|i: int| 0 <= i < (a + b).len() && (a + b)[i] == p;
            if i < a.len() {
                assert(a[i] == p);
            } else {
                assert(b[i - a.len()] == p);
            }
        }
        if a.contains(p) {
            let i = choose|i: int| 0 <= i < a.len() && a[i] == p;
            assert((a + b)[i] == p);
        }
        if b.contains(p) {
            let i = choose|i: int| 0 <= i < b.len() && b[i] == p;
            assert((a + b)[a.len() + i] == p);
        }
        if h.contains(p) && exists|j: int| 0 <= j < k && upstream_header_allowlist()[j] == p.0 {
            let j = choose|j: int| 0 <= j < k && upstream_header_allowlist()[j] == p.0;
            if j == k - 1 {
                assert(b.contains(p));
            } else {
                assert(a.contains(p));
            }
        }
    }
}

/// Law: a download passes on exactly the upstream headers named `accept-ranges`, `content-range`,
/// `content-length`, `content-type`, `last-modified` or `etag`, each with its value unchanged,
/// and no other header.
pub proof fn lemma_passed_on_headers(h: Seq<(Seq<char>, Seq<u8>)>, p: (Seq<char>, Seq<u8>))
    ensures
        upstream_header_allowlist().contains(p.0) == is_passed_on_header(p.0),
        headers_allowed_upto(h, 6).contains(p) <==> h.contains(p) && is_passed_on_header(p.0),
{
    let l = upstream_header_allowlist();
    reveal_strlit("accept-ranges");
    reveal_strlit("content-range");
    reveal_strlit("content-length");
    reveal_strlit("content-type");
    reveal_strlit("last-modified");
    reveal_strlit("etag");
    lemma_headers_allowed_contains(h, 6, p);
    assert(l[0] == "accept-ranges"@ && l[1] == "content-range"@ && l[2] == "content-length"@);
    assert(l[3] == "content-type"@ && l[4] == "last-modified"@ && l[5] == "etag"@);
    if is_passed_on_header(p.0) {
        if p.0 == "accept-ranges"@ {
            assert(l[0] == p.0);
        } else if p.0 == "content-range"@ {
            assert(l[1] == p.0);
        } else if p.0 == "content-length"@ {
            assert(l[2] == p.0);
        } else if p.0 == "content-type"@ {
            assert(l[3] == p.0);
        } else if p.0 == "last-modified"@ {
            assert(l[4] == p.0);
        } else {
            assert(l[5] == p.0);
        }
    }
}

} // verus!
