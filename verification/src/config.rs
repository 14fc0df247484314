//! Server configuration and its validation.

use vstd::prelude::*;
use vstd::string::StringExecFns;
use crate::filename::eq_ignore_ascii_case;
use crate::net::{IpLiteral, UrlHost, UrlHostView, UrlParts, UrlPartsView, parse_url, parsed_url};
use crate::text::chars_of;

verus! {

/// The whole configuration.
#[derive(Clone)]
pub struct AppConfig {
    pub server: ServerConfig,
    pub auth: AuthConfig,
    pub cookie: CookieConfig,
    pub security: SecurityConfig,
}

/// Listening address, public origin, lifetimes and limits.
#[derive(Debug, Clone)]
pub struct ServerConfig {
    pub host: String,
    pub port: u16,
    pub public_origin: String,
    pub shutdown_grace_seconds: u64,
    pub session_ttl_hours: u64,
    pub pending_login_ttl_minutes: u64,
    pub download_ticket_ttl_seconds: u64,
    pub max_global_downloads: usize,
    pub max_downloads_per_user: usize,
    pub max_pending_logins: usize,
    pub max_qr_starts_per_minute: usize,
    pub api_timeout_seconds: u64,
    pub upstream_connect_timeout_seconds: u64,
}

/// Stable identities allowed to sign in, as raw values or `sha256:` digests.
#[derive(Clone)]
pub struct AuthConfig {
    pub allowed_stable_ids: Vec<String>,
    pub allowed_stable_id_hashes: Vec<String>,
}

/// The website session cookie.
#[derive(Debug, Clone)]
pub struct CookieConfig {
    pub name: String,
    pub secure: bool,
    pub http_only: bool,
    pub same_site: SameSite,
    pub path: String,
    pub domain: Option<String>,
}

/// `SameSite` as configured.
#[derive(Debug, Clone, Copy, PartialEq, Eq)]
pub enum SameSite {
    Strict,
    Lax,
}

/// Request checks.
#[derive(Debug, Clone)]
pub struct SecurityConfig {
    pub csrf_header: String,
    pub trust_proxy_headers: bool,
    pub max_request_body_bytes: usize,
}

/// Why a configuration was refused.
#[derive(Debug, Clone, PartialEq, Eq)]
pub enum ConfigError {
    InvalidHost(String),
    PublicBindForbidden(IpLiteral),
    InvalidPublicOrigin(String),
    InvalidHostCookie,
    InsecureCookie,
    InvalidDownloadLimits,
    InvalidDurations,
    InvalidPendingLimit,
    EmptyAllowlist,
}

/// `http_only` when the file leaves it out.
pub fn default_true() -> (r: bool)
    ensures
        r,
{
    true
}

/// The cookie path when the file leaves it out: `/`.
pub fn default_cookie_path() -> (r: String)
    ensures
        r@ == "/"@,
{
    String::from_str("/")
}

/// The request body limit when the file leaves it out: 64 KiB.
pub fn default_max_request_body_bytes() -> (r: usize)
    ensures
        r == 65536,
{
    64 * 1024
}

/// The per-address QR start limit when the file leaves it out.
pub fn default_max_qr_starts_per_minute() -> (r: usize)
    ensures
        r == 6,
{
    6
}

/// `localhost` in any ASCII case.
pub open spec fn is_localhost(d: Seq<char>) -> bool {
    eq_ignore_ascii_case(d, "localhost"@)
}

/// An origin whose host is a loopback address or `localhost`.
pub open spec fn spec_is_loopback_origin(u: UrlPartsView) -> bool {
    match u.host {
        Some(UrlHostView::Ipv4(a)) => IpLiteral::V4(a).spec_is_loopback(),
        Some(UrlHostView::Ipv6(a)) => IpLiteral::V6(a).spec_is_loopback(),
        Some(UrlHostView::Domain(d)) => is_localhost(d),
        None => false,
    }
}

/// A bare `http` or `https` origin: a host, no user, no password, path `/`, no query, no
/// fragment.
pub open spec fn spec_is_bare_origin_url(u: UrlPartsView) -> bool {
    &&& (u.scheme == "http"@ || u.scheme == "https"@)
    &&& u.host is Some
    &&& u.username.len() == 0
    &&& !u.has_password
    &&& u.path == "/"@
    &&& !u.has_query
    &&& !u.has_fragment
}

/// A public origin the server accepts: bare, and HTTPS unless it is a loopback origin.
pub open spec fn spec_valid_public_origin(origin: Option<UrlPartsView>) -> bool {
    match origin {
        Some(u) => spec_is_bare_origin_url(u) && (u.scheme == "https"@ || spec_is_loopback_origin(u)),
        None => false,
    }
}

/// A cookie named `__Host-...` without `Secure`, with a path other than `/`, or with a domain.
pub open spec fn spec_invalid_host_cookie(c: CookieConfig) -> bool {
    c.name@.len() >= 7 && c.name@.take(7) == "__Host-"@ && (!c.secure || c.path@ != "/"@
        || c.domain is Some)
}

impl ServerConfig {
    /// Every lifetime and timeout is positive.
    pub open spec fn spec_has_positive_durations(&self) -> bool {
        &&& self.shutdown_grace_seconds > 0
        &&& self.session_ttl_hours > 0
        &&& self.pending_login_ttl_minutes > 0
        &&& self.download_ticket_ttl_seconds > 0
        &&& self.api_timeout_seconds > 0
        &&& self.upstream_connect_timeout_seconds > 0
    }

    /// Whether every lifetime and timeout is positive.
    pub fn has_positive_durations(&self) -> (r: bool)
        ensures
            r == self.spec_has_positive_durations(),
    {
        self.shutdown_grace_seconds > 0 && self.session_ttl_hours > 0
            && self.pending_login_ttl_minutes > 0 && self.download_ticket_ttl_seconds > 0
            && self.api_timeout_seconds > 0 && self.upstream_connect_timeout_seconds > 0
    }

    /// What the limits check gives.
    pub open spec fn spec_validate_limits(&self) -> Result<(), ConfigError> {
        if !(self.max_global_downloads > 0 && self.max_downloads_per_user > 0
            && self.max_downloads_per_user <= self.max_global_downloads) {
            Err(ConfigError::InvalidDownloadLimits)
        } else if self.max_pending_logins == 0 || self.max_qr_starts_per_minute == 0 {
            Err(ConfigError::InvalidPendingLimit)
        } else if !self.spec_has_positive_durations() {
            Err(ConfigError::InvalidDurations)
        } else {
            Ok(())
        }
    }
}

impl AppConfig {
    /// What validation gives for the configuration, the parsed listen host and the parsed public
    /// origin.
    pub open spec fn spec_validate(
        self,
        parsed_host: Option<IpLiteral>,
        origin: Option<UrlPartsView>,
    ) -> Result<(), ConfigError> {
        match parsed_host {
            None => Err(ConfigError::InvalidHost(self.server.host)),
            Some(ip) => if !ip.spec_is_loopback() {
                Err(ConfigError::PublicBindForbidden(ip))
            } else if !spec_valid_public_origin(origin) {
                Err(ConfigError::InvalidPublicOrigin(self.server.public_origin))
            } else if spec_invalid_host_cookie(self.cookie) {
                Err(ConfigError::InvalidHostCookie)
            } else if !self.cookie.secure && !spec_is_loopback_origin(origin->Some_0) {
                Err(ConfigError::InsecureCookie)
            } else if self.server.spec_validate_limits() is Err {
                self.server.spec_validate_limits()
            } else if self.auth.allowed_stable_ids@.len() == 0
                && self.auth.allowed_stable_id_hashes@.len() == 0 {
                Err(ConfigError::EmptyAllowlist)
            } else if !self.cookie.http_only || self.cookie.path@ != "/"@
                || self.cookie.domain is Some {
                Err(ConfigError::InvalidHostCookie)
            } else if self.security.max_request_body_bytes == 0 {
                Err(ConfigError::InvalidDurations)
            } else {
                Ok(())
            }
        }
    }

    /// The listen address: the configured host, which must be a loopback address, and port.
    /// `parsed_host` is the host string parsed as an IP address.
    pub fn listen_addr(&self, parsed_host: Option<IpLiteral>) -> (r: Result<(IpLiteral, u16), ConfigError>)
        ensures
            match parsed_host {
                None => r == Err::<(IpLiteral, u16), ConfigError>(ConfigError::InvalidHost(self.server.host)),
                Some(ip) => if ip.spec_is_loopback() {
                    r == Ok::<(IpLiteral, u16), ConfigError>((ip, self.server.port))
                } else {
                    r == Err::<(IpLiteral, u16), ConfigError>(ConfigError::PublicBindForbidden(ip))
                },
            },
    {
        let host = self.parse_host(parsed_host)?;
        Ok((host, self.server.port))
    }

    /// The host as a loopback IP address.
    fn parse_host(&self, parsed_host: Option<IpLiteral>) -> (r: Result<IpLiteral, ConfigError>)
        ensures
            match parsed_host {
                None => r == Err::<IpLiteral, ConfigError>(ConfigError::InvalidHost(self.server.host)),
                Some(ip) => if ip.spec_is_loopback() {
                    r == Ok::<IpLiteral, ConfigError>(ip)
                } else {
                    r == Err::<IpLiteral, ConfigError>(ConfigError::PublicBindForbidden(ip))
                },
            },
    {
        match parsed_host {
            None => Err(ConfigError::InvalidHost(self.server.host.clone())),
            Some(ip) => {
                if !ip.is_loopback() {
                    return Err(ConfigError::PublicBindForbidden(ip));
                }
                Ok(ip)
            },
        }
    }

    /// Validates the configuration. `parsed_host` is `server.host` parsed as an IP address;
    /// the public origin is parsed with `url::Url::parse`.
    pub fn validate(&self, parsed_host: Option<IpLiteral>) -> (r: Result<(), ConfigError>)
        ensures
            r == self.spec_validate(parsed_host, parsed_url(self.server.public_origin@)),
    {
        let origin = parse_url(self.server.public_origin.as_str());
        self.validate_parsed(parsed_host, &origin)
    }

    /// Validates the configuration against an already parsed listen host and public origin.
    pub fn validate_parsed(&self, parsed_host: Option<IpLiteral>, origin: &Option<UrlParts>) -> (r: Result<(), ConfigError>)
        ensures
            r == self.spec_validate(
                parsed_host,
                match origin {
                    Some(u) => Some(u@),
                    None => None,
                },
            ),
    {
        self.parse_host(parsed_host)?;
        if !valid_public_origin(origin) {
            return Err(ConfigError::InvalidPublicOrigin(self.server.public_origin.clone()));
        }
        let parts = match origin {
            Some(u) => u,
            None => return Err(ConfigError::InvalidPublicOrigin(self.server.public_origin.clone())),
        };
        if invalid_host_cookie(&self.cookie) {
            return Err(ConfigError::InvalidHostCookie);
        }
        if !self.cookie.secure && !is_loopback_origin(parts) {
            return Err(ConfigError::InsecureCookie);
        }
        self.validate_limits()?;
        if self.auth.allowed_stable_ids.len() == 0 && self.auth.allowed_stable_id_hashes.len() == 0 {
            return Err(ConfigError::EmptyAllowlist);
        }
        if !self.cookie.http_only || !is_root_path(&self.cookie.path) || self.cookie.domain.is_some() {
            return Err(ConfigError::InvalidHostCookie);
        }
        if self.security.max_request_body_bytes == 0 {
            return Err(ConfigError::InvalidDurations);
        }
        Ok(())
    }

    /// Download limits positive with the per-user one within the global one, pending and QR
    /// start limits positive, lifetimes positive.
    pub fn validate_limits(&self) -> (r: Result<(), ConfigError>)
        ensures
            r == self.server.spec_validate_limits(),
    {
        let server = &self.server;
        let downloads_valid = server.max_global_downloads > 0 && server.max_downloads_per_user > 0
            && server.max_downloads_per_user <= server.max_global_downloads;
        if !downloads_valid {
            return Err(ConfigError::InvalidDownloadLimits);
        }
        if server.max_pending_logins == 0 || server.max_qr_starts_per_minute == 0 {
            return Err(ConfigError::InvalidPendingLimit);
        }
        if !server.has_positive_durations() {
            return Err(ConfigError::InvalidDurations);
        }
        Ok(())
    }
}

/// Whether `s` is exactly `/`.
fn is_root_path(s: &String) -> (r: bool)
    ensures
        r == (s@ == "/"@),
{
    let v = chars_of(s.as_str());
    proof {
        reveal_strlit("/");
    }
    let r = v.len() == 1 && v[0] == '/';
    assert(r ==> v@ =~= "/"@);
    r
}

/// Whether `v` equals the ASCII literal `lit` given as characters.
fn chars_are(v: &Vec<char>, lit: &Vec<char>) -> (r: bool)
    ensures
        r == (v@ == lit@),
{
    crate::text::chars_eq(v, lit)
}

/// Whether the cookie name starts `__Host-` and breaks its rules.
fn invalid_host_cookie(c: &CookieConfig) -> (r: bool)
    ensures
        r == spec_invalid_host_cookie(*c),
{
    let name = chars_of(c.name.as_str());
    let prefix = vec!['_', '_', 'H', 'o', 's', 't', '-'];
    proof {
        reveal_strlit("__Host-");
    }
    assert(prefix@ =~= "__Host-"@);
    let starts = name.len() >= 7 && chars_are(&crate::text::sub_chars(&name, 0, 7), &prefix);
    assert(starts == (name@.len() >= 7 && name@.take(7) == "__Host-"@)) by {
        if name@.len() >= 7 {
            assert(name@.subrange(0, 7) == name@.take(7));
        }
    }
    starts && (!c.secure || !is_root_path(&c.path) || c.domain.is_some())
}

/// Whether an origin's host is loopback or `localhost`.
pub fn is_loopback_origin(origin: &UrlParts) -> (r: bool)
    ensures
        r == spec_is_loopback_origin(origin@),
{
    match &origin.host {
        Some(UrlHost::Ipv4(a)) => IpLiteral::V4(*a).is_loopback(),
        Some(UrlHost::Ipv6(a)) => IpLiteral::V6(*a).is_loopback(),
        Some(UrlHost::Domain(d)) => {
            let v = chars_of(d.as_str());
            let lit = vec!['l', 'o', 'c', 'a', 'l', 'h', 'o', 's', 't'];
            proof {
                reveal_strlit("localhost");
            }
            assert(lit@ =~= "localhost"@);
            crate::filename::eq_ignore_case(&v, &lit)
        },
        None => false,
    }
}

/// Whether a parsed URL is a bare `http` or `https` origin.
pub fn is_bare_origin_url(u: &UrlParts) -> (r: bool)
    ensures
        r == spec_is_bare_origin_url(u@),
{
    let scheme = chars_of(u.scheme.as_str());
    let http = vec!['h', 't', 't', 'p'];
    let https = vec!['h', 't', 't', 'p', 's'];
    proof {
        reveal_strlit("http");
        reveal_strlit("https");
    }
    assert(http@ =~= "http"@);
    assert(https@ =~= "https"@);
    let scheme_ok = chars_are(&scheme, &http) || chars_are(&scheme, &https);
    let username = chars_of(u.username.as_str());
    scheme_ok && u.host.is_some() && username.len() == 0 && !u.has_password && is_root_path(&u.path)
        && !u.has_query && !u.has_fragment
}

/// Whether a parsed public origin is acceptable: bare, and HTTPS unless loopback.
pub fn valid_public_origin(origin: &Option<UrlParts>) -> (r: bool)
    ensures
        r == spec_valid_public_origin(
            match origin {
                Some(u) => Some(u@),
                None => None,
            },
        ),
{
    match origin {
        Some(u) => {
            let scheme = chars_of(u.scheme.as_str());
            let https = vec!['h', 't', 't', 'p', 's'];
            proof {
                reveal_strlit("https");
            }
            assert(https@ =~= "https"@);
            is_bare_origin_url(u) && (chars_are(&scheme, &https) || is_loopback_origin(u))
        },
        None => false,
    }
}


/// `c` in ASCII upper case.
pub open spec fn ascii_upper(c: char) -> char {
    if 'a' <= c && c <= 'z' {
        ((c as u32) - 32) as char
    } else {
        c
    }
}

/// `s` in ASCII upper case.
pub open spec fn upper_seq(s: Seq<char>) -> Seq<char> {
    s.map_values(|c: char| ascii_upper(c))
}

/// Whether `s`, in ASCII upper case, reads `REPLACE_ME` from position `i`.
pub open spec fn replace_me_at(s: Seq<char>, i: int) -> bool {
    upper_seq(s.subrange(i, i + 10)) == "REPLACE_ME"@
}

/// Whether `s`, in ASCII upper case, holds `REPLACE_ME`.
pub open spec fn holds_replace_me(s: Seq<char>) -> bool {
    exists|i: int| 0 <= i && i + 10 <= s.len() && #[trigger] replace_me_at(s, i)
}

/// A value left from the configuration template: once trimmed, it holds `REPLACE_ME` in any
/// ASCII case, starts with `fake-`, or is `sha256:` followed by nothing but zeros (at least one).
pub open spec fn spec_is_placeholder(value: Seq<char>) -> bool {
    let n = crate::cookies::trim_ws(value);
    ||| holds_replace_me(n)
    ||| n.len() >= 5 && n.take(5) == "fake-"@
    ||| n.len() > 7 && n.take(7) == "sha256:"@ && forall|i: int| 7 <= i < n.len() ==> #[trigger] n[i] == '0'
}

fn upper_char(c: char) -> (r: char)
    ensures
        r == ascii_upper(c),
{
    if 'a' <= c && c <= 'z' {
        ((c as u32 - 32) as u8) as char
    } else {
        c
    }
}

/// Whether `v[from..from + lit.len()]` is `lit`.
fn has_at(v: &Vec<char>, from: usize, lit: &Vec<char>) -> (r: bool)
    requires
        from + lit@.len() <= v@.len(),
    ensures
        r == (v@.subrange(from as int, from + lit@.len()) == lit@),
{
    let mut k: usize = 0;
    while k < lit.len()
        invariant
            from + lit@.len() <= v@.len(),
            v@.len() == v.len(),
            k <= lit@.len(),
            forall|j: int| 0 <= j < k ==> v@[from + j] == lit@[j],
        decreases lit.len() - k,
    {
        let idx = from + k;
        if v[idx] != lit[k] {
            assert(v@.subrange(from as int, from + lit@.len())[k as int] != lit@[k as int]);
            return false;
        }
        k = k + 1;
    }
    assert(v@.subrange(from as int, from + lit@.len()) =~= lit@);
    true
}

/// Whether `ns` (already trimmed) holds `REPLACE_ME` in any ASCII case.
fn find_replace_me(n: &Vec<char>) -> (r: bool)
    ensures
        r == holds_replace_me(n@),
{
    let mut upper: Vec<char> = Vec::new();
    let mut i: usize = 0;
    while i < n.len()
        invariant
            i <= n@.len(),
            upper@ == upper_seq(n@.take(i as int)),
        decreases n.len() - i,
    {
        upper.push(upper_char(n[i]));
        i = i + 1;
        assert(upper@ =~= upper_seq(n@.take(i as int)));
    }
    assert(n@.take(i as int) =~= n@);
    let replace_me = vec!['R', 'E', 'P', 'L', 'A', 'C', 'E', '_', 'M', 'E'];
    proof {
        reveal_strlit("REPLACE_ME");
    }
    assert(replace_me@ =~= "REPLACE_ME"@);
    if upper.len() < 10 {
        return false;
    }
    let last = upper.len() - 10;
    let mut p: usize = 0;
    while p <= last
        invariant
            upper@ == upper_seq(n@),
            upper@.len() == n@.len(),
            replace_me@ == "REPLACE_ME"@,
            replace_me@.len() == 10,
            last + 10 == upper@.len(),
            upper@.len() <= usize::MAX,
            p <= last + 1,
            forall|q: int| 0 <= q < p ==> !#[trigger] replace_me_at(n@, q),
        decreases last + 1 - p,
    {
        assert(upper_seq(n@.subrange(p as int, p + 10)) =~= upper@.subrange(p as int, p + 10));
        if has_at(&upper, p, &replace_me) {
            assert(replace_me_at(n@, p as int));
            return true;
        }
        p = p + 1;
    }
    false
}

/// Whether a configured value is left from the template.
pub fn is_placeholder(value: &str) -> (r: bool)
    ensures
        r == spec_is_placeholder(value@),
{
    let v = chars_of(value);
    let (a, b) = crate::cookies::trim_bounds(&v, 0, v.len());
    assert(v@.subrange(0, v.len() as int) =~= v@);
    let n = crate::text::sub_chars(&v, a, b);
    assert(n@ == crate::cookies::trim_ws(value@));
    if find_replace_me(&n) {
        return true;
    }
    proof {
        reveal_strlit("fake-");
        reveal_strlit("sha256:");
    }
    let fake = vec!['f', 'a', 'k', 'e', '-'];
    assert(fake@ =~= "fake-"@);
    if n.len() >= 5 {
        assert(n@.subrange(0, 5) =~= n@.take(5));
        if has_at(&n, 0, &fake) {
            return true;
        }
    }
    let prefix = vec!['s', 'h', 'a', '2', '5', '6', ':'];
    assert(prefix@ =~= "sha256:"@);
    if n.len() > 7 {
        assert(n@.subrange(0, 7) =~= n@.take(7));
        if has_at(&n, 0, &prefix) {
            let mut k: usize = 7;
            while k < n.len()
                invariant
                    7 <= k <= n@.len(),
                    n@ == crate::cookies::trim_ws(value@),
                    !holds_replace_me(n@),
                    !(n@.len() >= 5 && n@.take(5) == "fake-"@),
                    n@.len() > 7 && n@.take(7) == "sha256:"@,
                    forall|j: int| 7 <= j < k ==> #[trigger] n@[j] == '0',
                decreases n.len() - k,
            {
                if n[k] != '0' {
                    assert(n@[k as int] != '0');
                    return false;
                }
                k = k + 1;
            }
            return true;
        }
    }
    false
}

impl AppConfig {
    /// Whether any allowed identifier or digest is left from the template.
    pub fn has_placeholder_allowlist(&self) -> (r: bool)
        ensures
            r == ((exists|i: int| 0 <= i < self.auth.allowed_stable_ids@.len() && spec_is_placeholder(#[trigger] self.auth.allowed_stable_ids@[i]@))
                || (exists|i: int| 0 <= i < self.auth.allowed_stable_id_hashes@.len() && spec_is_placeholder(#[trigger] self.auth.allowed_stable_id_hashes@[i]@))),
    {
        let ids = &self.auth.allowed_stable_ids;
        let mut i: usize = 0;
        while i < ids.len()
            invariant
                ids@ == self.auth.allowed_stable_ids@,
                i <= ids@.len(),
                forall|j: int| 0 <= j < i ==> !spec_is_placeholder(#[trigger] ids@[j]@),
            decreases ids.len() - i,
        {
            if is_placeholder(ids[i].as_str()) {
                assert(spec_is_placeholder(ids@[i as int]@));
                return true;
            }
            i = i + 1;
        }
        let hashes = &self.auth.allowed_stable_id_hashes;
        let mut k: usize = 0;
        while k < hashes.len()
            invariant
                ids@ == self.auth.allowed_stable_ids@,
                hashes@ == self.auth.allowed_stable_id_hashes@,
                k <= hashes@.len(),
                forall|j: int| 0 <= j < ids@.len() ==> !spec_is_placeholder(#[trigger] ids@[j]@),
                forall|j: int| 0 <= j < k ==> !spec_is_placeholder(#[trigger] hashes@[j]@),
            decreases hashes.len() - k,
        {
            if is_placeholder(hashes[k].as_str()) {
                assert(spec_is_placeholder(hashes@[k as int]@));
                return true;
            }
            k = k + 1;
        }
        false
    }
}

/// Parses a public origin: it must parse as a URL and be a bare `http` or `https` origin;
/// otherwise it is refused as an invalid public origin.
pub fn parse_origin(value: &str) -> (r: Result<UrlParts, ConfigError>)
    ensures
        match r {
            Ok(u) => parsed_url(value@) == Some(u@) && spec_is_bare_origin_url(u@),
            Err(e) => (e matches ConfigError::InvalidPublicOrigin(s) && s@ == value@)
                && !(parsed_url(value@) matches Some(u) && spec_is_bare_origin_url(u)),
        },
{
    match parse_url(value) {
        Some(u) => {
            if is_bare_origin_url(&u) {
                Ok(u)
            } else {
                Err(ConfigError::InvalidPublicOrigin(String::from_str(value)))
            }
        },
        None => Err(ConfigError::InvalidPublicOrigin(String::from_str(value))),
    }
}

/// Law: an origin whose host is the domain `localhost`, in any ASCII case, or a loopback
/// address (`127.0.0.0/8`, `::1`) is a loopback origin; such an origin, bare, is a valid public
/// origin over plain `http` too, and a configuration that names it passes the origin and cookie
/// checks without a `Secure` cookie.
pub proof fn lemma_loopback_origins(c: AppConfig, ip: IpLiteral, u: UrlPartsView)
    requires
        match u.host {
            Some(UrlHostView::Domain(d)) => d.len() == 9 && forall|i: int| 0 <= i < 9 ==> crate::filename::ascii_lower(
                #[trigger] d[i],
            ) == "localhost"@[i],
            Some(UrlHostView::Ipv4(a)) => 2130706432 <= a && a <= 2147483647,
            Some(UrlHostView::Ipv6(a)) => a == 1,
            None => false,
        },
    ensures
        spec_is_loopback_origin(u),
        spec_is_bare_origin_url(u) ==> spec_valid_public_origin(Some(u)),
        spec_is_bare_origin_url(u) && ip.spec_is_loopback() ==> {
            let r = c.spec_validate(Some(ip), Some(u));
            &&& !(r matches Err(ConfigError::InvalidPublicOrigin(_)))
            &&& r != Err::<(), ConfigError>(ConfigError::InsecureCookie)
        },
{
    reveal_strlit("localhost");
    match u.host {
        Some(UrlHostView::Domain(d)) => {
            assert(eq_ignore_ascii_case(d, "localhost"@));
        },
        _ => {},
    }
}

} // verus!
