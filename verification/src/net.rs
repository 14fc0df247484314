//! Addresses and URLs as plain values.

use vstd::prelude::*;

verus! {

/// A literal IP address: IPv4 as its 32-bit value, IPv6 as its 128-bit value.
#[derive(Debug, Clone, Copy, PartialEq, Eq, Structural, Hash)]
pub enum IpLiteral {
    V4(u32),
    V6(u128),
}

impl IpLiteral {
    /// Loopback: `127.0.0.0/8` for IPv4, `::1` for IPv6.
    pub open spec fn spec_is_loopback(self) -> bool {
        match self {
            IpLiteral::V4(a) => a / 16777216 == 127,
            IpLiteral::V6(a) => a == 1,
        }
    }

    /// Whether the address is a loopback address.
    pub fn is_loopback(&self) -> (r: bool)
        ensures
            r == self.spec_is_loopback(),
    {
        match self {
            IpLiteral::V4(a) => *a / 16777216 == 127,
            IpLiteral::V6(a) => *a == 1,
        }
    }
}

/// The host of a parsed URL.
#[derive(Debug, Clone, PartialEq, Eq)]
pub enum UrlHost {
    Domain(String),
    Ipv4(u32),
    Ipv6(u128),
}

/// The host of a parsed URL as plain values.
pub enum UrlHostView {
    Domain(Seq<char>),
    Ipv4(u32),
    Ipv6(u128),
}

/// The parts of a parsed URL that origin checks read.
#[derive(Debug, Clone)]
pub struct UrlParts {
    pub scheme: String,
    pub host: Option<UrlHost>,
    pub username: String,
    pub has_password: bool,
    pub path: String,
    pub has_query: bool,
    pub has_fragment: bool,
    pub port: Option<u16>,
}

/// `UrlParts` as plain values.
pub struct UrlPartsView {
    pub scheme: Seq<char>,
    pub host: Option<UrlHostView>,
    pub username: Seq<char>,
    pub has_password: bool,
    pub path: Seq<char>,
    pub has_query: bool,
    pub has_fragment: bool,
    pub port: Option<u16>,
}

impl View for UrlHost {
    type V = UrlHostView;

    open spec fn view(&self) -> UrlHostView {
        match self {
            UrlHost::Domain(d) => UrlHostView::Domain(d@),
            UrlHost::Ipv4(a) => UrlHostView::Ipv4(*a),
            UrlHost::Ipv6(a) => UrlHostView::Ipv6(*a),
        }
    }
}

impl View for UrlParts {
    type V = UrlPartsView;

    open spec fn view(&self) -> UrlPartsView {
        UrlPartsView {
            scheme: self.scheme@,
            host: match self.host {
                Some(h) => Some(h@),
                None => None,
            },
            username: self.username@,
            has_password: self.has_password,
            path: self.path@,
            has_query: self.has_query,
            has_fragment: self.has_fragment,
            port: self.port,
        }
    }
}

/// What `url::Url::parse` makes of `input`, as plain values, or `None` where it fails.
pub uninterp spec fn parsed_url(input: Seq<char>) -> Option<UrlPartsView>;

/// `url::Url::parse` (WHATWG URL parsing), read back through `scheme`, `host`, `username`,
/// `password`, `path`, `query`, `fragment` and `port_or_known_default`. The contract names the
/// result `parsed_url(input)`; the parsing algorithm itself is not stated.
#[verifier::external_body]
pub(crate) fn parse_url(input: &str) -> (r: Option<UrlParts>)
    ensures
        match r {
            Some(u) => parsed_url(input@) == Some(u@),
            None => parsed_url(input@) is None,
        },
{
    let u = url::Url::parse(input).ok()?;
    let host = match u.host() {
        Some(url::Host::Domain(d)) => Some(UrlHost::Domain(d.to_owned())),
        Some(url::Host::Ipv4(a)) => Some(UrlHost::Ipv4(a.into())),
        Some(url::Host::Ipv6(a)) => Some(UrlHost::Ipv6(a.into())),
        None => None,
    };
    Some(UrlParts { scheme: u.scheme().to_owned(), host, username:
        u.username().to_owned(), has_password: u.password().is_some(), path: u.path().to_owned(),
        has_query: u.query().is_some(), has_fragment: u.fragment().is_some(), port:
        u.port_or_known_default() })
}

} // verus!
