//! The same-origin check for state-changing requests: fetch metadata, then the `Origin` header
//! against the configured public origin.

use vstd::prelude::*;
use crate::filename::{eq_ignore_ascii_case, eq_ignore_case};
use crate::ids::same_text;
use crate::net::{parse_url, parsed_url, UrlHost, UrlHostView, UrlParts, UrlPartsView};
use crate::text::chars_of;

verus! {

/// Why the request's origin was refused.
#[derive(Debug, Clone, Copy, PartialEq, Eq, Structural)]
pub enum OriginError {
    InvalidOrigin,
    CrossSite,
}

/// An `Origin` value with nothing after the host and port: no user, no password, path empty or
/// `/`, no query, no fragment.
pub open spec fn spec_is_bare_origin(u: UrlPartsView) -> bool {
    &&& u.username.len() == 0
    &&& !u.has_password
    &&& (u.path.len() == 0 || u.path == "/"@)
    &&& !u.has_query
    &&& !u.has_fragment
}

/// Hosts that are the same up to ASCII case.
pub open spec fn spec_same_host(a: Option<UrlHostView>, b: Option<UrlHostView>) -> bool {
    match (a, b) {
        (None, None) => true,
        (Some(UrlHostView::Domain(x)), Some(UrlHostView::Domain(y))) => eq_ignore_ascii_case(x, y),
        (Some(UrlHostView::Ipv4(x)), Some(UrlHostView::Ipv4(y))) => x == y,
        (Some(UrlHostView::Ipv6(x)), Some(UrlHostView::Ipv6(y))) => x == y,
        _ => false,
    }
}

/// Same scheme, same host up to ASCII case, same port once defaults are filled in.
pub open spec fn spec_same_origin(a: UrlPartsView, b: UrlPartsView) -> bool {
    a.scheme == b.scheme && spec_same_host(a.host, b.host) && a.port == b.port
}

/// The verdict on a request with `Sec-Fetch-Site` value `fetch_site` and `Origin` value
/// `origin` (each when present and readable) for the public origin `public`.
pub open spec fn spec_verify(fetch_site: Option<Seq<char>>, origin: Option<Seq<char>>, public: UrlPartsView) -> Result<(), OriginError> {
    if fetch_site matches Some(v) && v != "same-origin"@ && v != "none"@ {
        Err(OriginError::CrossSite)
    } else {
        match origin {
            None => Err(OriginError::InvalidOrigin),
            Some(raw) => match parsed_url(raw) {
                Some(u) => if spec_is_bare_origin(u) && spec_same_origin(u, public) {
                    Ok(())
                } else {
                    Err(OriginError::InvalidOrigin)
                },
                None => Err(OriginError::InvalidOrigin),
            },
        }
    }
}

/// Whether a parsed origin is bare.
pub fn is_bare_origin(u: &UrlParts) -> (r: bool)
    ensures
        r == spec_is_bare_origin(u@),
{
    let username = chars_of(u.username.as_str());
    let path = chars_of(u.path.as_str());
    username.len() == 0 && !u.has_password && (path.len() == 0 || same_text(u.path.as_str(), "/"))
        && !u.has_query && !u.has_fragment
}

/// Whether two parsed URLs have the same origin.
pub fn same_origin(left: &UrlParts, right: &UrlParts) -> (r: bool)
    ensures
        r == spec_same_origin(left@, right@),
{
    if !same_text(left.scheme.as_str(), right.scheme.as_str()) || left.port != right.port {
        return false;
    }
    match (&left.host, &right.host) {
        (None, None) => true,
        (Some(UrlHost::Domain(x)), Some(UrlHost::Domain(y))) => eq_ignore_case(&chars_of(x.as_str()), &chars_of(y.as_str())),
        (Some(UrlHost::Ipv4(x)), Some(UrlHost::Ipv4(y))) => *x == *y,
        (Some(UrlHost::Ipv6(x)), Some(UrlHost::Ipv6(y))) => *x == *y,
        _ => false,
    }
}

/// Refuses cross-site fetches: a `Sec-Fetch-Site` other than `same-origin` or `none`.
pub fn verify_fetch_metadata(fetch_site: Option<&str>) -> (r: Result<(), OriginError>)
    ensures
        r is Ok <==> !(fetch_site matches Some(v) && v@ != "same-origin"@ && v@ != "none"@),
        r matches Err(e) ==> e == OriginError::CrossSite,
{
    match fetch_site {
        None => Ok(()),
        Some(v) => {
            if same_text(v, "same-origin") || same_text(v, "none") {
                Ok(())
            } else {
                Err(OriginError::CrossSite)
            }
        },
    }
}

/// Checks a state-changing request: its fetch metadata must not be cross-site, and its `Origin`
/// must be a bare origin equal to the public origin.
pub fn verify(fetch_site: Option<&str>, origin: Option<&str>, public_origin: &UrlParts) -> (r: Result<(), OriginError>)
    ensures
        r == spec_verify(
            match fetch_site { Some(v) => Some(v@), None => None },
            match origin { Some(v) => Some(v@), None => None },
            public_origin@,
        ),
{
    verify_fetch_metadata(fetch_site)?;
    let raw = match origin {
        Some(raw) => raw,
        None => return Err(OriginError::InvalidOrigin),
    };
    let supplied = match parse_url(raw) {
        Some(u) => u,
        None => return Err(OriginError::InvalidOrigin),
    };
    if is_bare_origin(&supplied) && same_origin(&supplied, public_origin) {
        return Ok(());
    }
    Err(OriginError::InvalidOrigin)
}

/// Law: a request without fetch metadata whose `Origin` parses to the public origin itself
/// (bare) is accepted, and any cross-site fetch is refused whatever its `Origin`.
pub proof fn lemma_same_origin_accepted(origin: Seq<char>, public: UrlPartsView, site: Seq<char>)
    requires
        parsed_url(origin) matches Some(u) && spec_is_bare_origin(u) && spec_same_origin(u, public),
        site != "same-origin"@,
        site != "none"@,
    ensures
        spec_verify(None, Some(origin), public) == Ok::<(), OriginError>(()),
        spec_verify(Some(site), Some(origin), public) == Err::<(), OriginError>(OriginError::CrossSite),
{
}

/// Law: every origin is the same origin as itself, and sameness does not depend on the order,
/// whatever kind of host (domain, IPv4 or IPv6 address) it has.
pub proof fn lemma_same_origin_reflexive_symmetric(a: UrlPartsView, b: UrlPartsView)
    ensures
        spec_same_origin(a, a),
        spec_same_origin(a, b) == spec_same_origin(b, a),
{
    match a.host {
        Some(UrlHostView::Domain(x)) => {
            assert(eq_ignore_ascii_case(x, x));
            match b.host {
                Some(UrlHostView::Domain(y)) => {
                    assert(eq_ignore_ascii_case(x, y) == eq_ignore_ascii_case(y, x));
                },
                _ => {},
            }
        },
        _ => {},
    }
}

/// Law: a request without cross-site fetch metadata whose `Origin` parses to the public origin,
/// when that origin is bare, is accepted.
pub proof fn lemma_public_origin_accepted(fetch_site: Option<Seq<char>>, origin: Seq<char>, public: UrlPartsView)
    requires
        parsed_url(origin) == Some(public),
        spec_is_bare_origin(public),
        fetch_site is None || fetch_site == Some("same-origin"@) || fetch_site == Some("none"@),
    ensures
        spec_verify(fetch_site, Some(origin), public) == Ok::<(), OriginError>(()),
{
    lemma_same_origin_reflexive_symmetric(public, public);
}

} // verus!
