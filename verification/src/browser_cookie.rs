//! The browser's cookies: the session cookie and the cookie that binds a pending QR login to
//! the browser that started it.

use vstd::prelude::*;
use crate::config::{AppConfig, SameSite as ConfigSameSite};
use crate::cookies::{
    clear_cookie, lemma_clear_cookie_read_back, lemma_cookie_header_read_back, lemma_set_cookie_read_back, read_cookie, set_cookie, spec_read_cookie,
    spec_set_cookie, spec_valid_cookie_value, unicode_whitespace, CookieOptions, SameSite,
};
use crate::ids::{is_opaque_text, is_url_safe_char, BrowserBinding, PendingLoginId, SessionId};
use crate::pending::PendingLogin;
use crate::text::{chars_of, lemma_split_once_at_boundary, push_str_chars, split_once_chars, split_once, string_from_chars};

verus! {

/// The pending login named by the pending cookie.
pub struct PendingCookie {
    pub id: PendingLoginId,
    pub binding: BrowserBinding,
}

/// The name of the pending cookie: the session cookie's name followed by `_pending`.
pub open spec fn spec_pending_name(session_cookie: Seq<char>) -> Seq<char> {
    session_cookie + "_pending"@
}

/// The name of the pending cookie.
pub fn pending_name(config: &AppConfig) -> (r: String)
    ensures
        r@ == spec_pending_name(config.cookie.name@),
{
    let mut out: Vec<char> = Vec::new();
    push_str_chars(&mut out, config.cookie.name.as_str());
    push_str_chars(&mut out, "_pending");
    string_from_chars(&out)
}

/// The pending cookie's value: the login's identifier, `.`, and its browser binding.
pub open spec fn spec_encode_pending(id: Seq<char>, binding: Seq<char>) -> Seq<char> {
    id + "."@ + binding
}

/// The pending cookie's value for `pending`.
pub fn encode_pending<L>(pending: &PendingLogin<L>) -> (r: String)
    ensures
        r@ == spec_encode_pending(pending.spec_id(), pending.spec_binding()),
{
    let mut out: Vec<char> = Vec::new();
    push_str_chars(&mut out, pending.id().expose());
    push_str_chars(&mut out, ".");
    push_str_chars(&mut out, pending.browser_binding().expose());
    string_from_chars(&out)
}

/// The identifier and binding named by the `Cookie` header, read under the pending cookie's
/// name `name`.
pub open spec fn spec_read_pending(header: Option<Seq<char>>, name: Seq<char>) -> Option<(Seq<char>, Seq<char>)> {
    match header {
        None => None,
        Some(h) => match spec_read_cookie(h, name) {
            None => None,
            Some(raw) => match split_once(raw, '.') {
                None => None,
                Some((id, binding)) => if is_opaque_text(id) && is_opaque_text(binding) {
                    Some((id, binding))
                } else {
                    None
                },
            },
        },
    }
}

/// The pending login named in the `Cookie` header `header` (when the request has one).
pub fn read_pending(header: Option<&str>, config: &AppConfig) -> (r: Option<PendingCookie>)
    ensures
        match r {
            Some(c) => spec_read_pending(match header { Some(h) => Some(h@), None => None }, spec_pending_name(config.cookie.name@)) == Some((c.id@, c.binding@)),
            None => spec_read_pending(match header { Some(h) => Some(h@), None => None }, spec_pending_name(config.cookie.name@)) is None,
        },
{
    let name = pending_name(config);
    let h = match header {
        Some(h) => h,
        None => return None,
    };
    let raw = match read_cookie(h, name.as_str()) {
        Some(raw) => raw,
        None => return None,
    };
    let chars = chars_of(raw);
    let (id_chars, binding_chars) = match split_once_chars(&chars, '.') {
        Some(parts) => parts,
        None => return None,
    };
    let id_text = string_from_chars(&id_chars);
    let binding_text = string_from_chars(&binding_chars);
    let id = match PendingLoginId::parse(id_text.as_str()) {
        Some(id) => id,
        None => return None,
    };
    let binding = match BrowserBinding::parse(binding_text.as_str()) {
        Some(b) => b,
        None => return None,
    };
    Some(PendingCookie { id, binding })
}

/// The session named by the session cookie in the `Cookie` header `header`.
pub fn read_session(header: Option<&str>, config: &AppConfig) -> (r: Option<SessionId>)
    ensures
        match r {
            Some(id) => header matches Some(h) && spec_read_cookie(h@, config.cookie.name@) == Some(id@) && is_opaque_text(id@),
            None => match header {
                None => true,
                Some(h) => match spec_read_cookie(h@, config.cookie.name@) {
                    None => true,
                    Some(v) => !is_opaque_text(v),
                },
            },
        },
{
    let h = match header {
        Some(h) => h,
        None => return None,
    };
    match read_cookie(h, config.cookie.name.as_str()) {
        Some(raw) => SessionId::parse(raw),
        None => None,
    }
}

/// The cookie library's `SameSite` for the configured one.
pub fn same_site(value: ConfigSameSite) -> (r: SameSite)
    ensures
        r == (match value {
            ConfigSameSite::Lax => SameSite::Lax,
            ConfigSameSite::Strict => SameSite::Strict,
        }),
{
    match value {
        ConfigSameSite::Lax => SameSite::Lax,
        ConfigSameSite::Strict => SameSite::Strict,
    }
}

/// The `Set-Cookie` value that stores `value` as the pending cookie for the pending login's
/// lifetime.
pub fn set_pending_cookie(config: &AppConfig, value: &str) -> (r: String)
    requires
        config.server.pending_login_ttl_minutes * 60 <= u64::MAX,
    ensures
        r@ == spec_set_cookie(value@, spec_pending_name(config.cookie.name@), config.cookie.secure,
            same_site_of(config.cookie.same_site), Some((config.server.pending_login_ttl_minutes * 60) as i64)),
{
    let name = pending_name(config);
    let options = CookieOptions {
        name: name.as_str(),
        secure: config.cookie.secure,
        same_site: same_site(config.cookie.same_site),
        max_age_seconds: Some((config.server.pending_login_ttl_minutes * 60) as i64),
    };
    set_cookie(value, &options)
}

/// The cookie library's `SameSite` for the configured one.
pub open spec fn same_site_of(value: ConfigSameSite) -> SameSite {
    match value {
        ConfigSameSite::Lax => SameSite::Lax,
        ConfigSameSite::Strict => SameSite::Strict,
    }
}

/// The `Set-Cookie` value that deletes the pending cookie.
pub fn clear_pending_cookie(config: &AppConfig) -> (r: String)
    ensures
        r@ == spec_set_cookie(Seq::empty(), spec_pending_name(config.cookie.name@), config.cookie.secure,
            same_site_of(config.cookie.same_site), Some(0i64)),
{
    let name = pending_name(config);
    let options = CookieOptions {
        name: name.as_str(),
        secure: config.cookie.secure,
        same_site: same_site(config.cookie.same_site),
        max_age_seconds: None,
    };
    clear_cookie(&options)
}

/// How the session cookie is written: under the configured name, for the session's lifetime.
pub fn session_options(config: &AppConfig) -> (r: CookieOptions<'_>)
    requires
        config.server.session_ttl_hours * 3600 <= u64::MAX,
    ensures
        r.name@ == config.cookie.name@,
        r.secure == config.cookie.secure,
        r.same_site == same_site_of(config.cookie.same_site),
        r.max_age_seconds == Some((config.server.session_ttl_hours * 3600) as i64),
{
    CookieOptions {
        name: config.cookie.name.as_str(),
        secure: config.cookie.secure,
        same_site: same_site(config.cookie.same_site),
        max_age_seconds: Some((config.server.session_ttl_hours * 60 * 60) as i64),
    }
}

/// The pending cookie's name, for a session cookie name without `;` or `=` that does not start
/// with white space, is such a name too, and is neither `SameSite` nor `Max-Age`.
proof fn lemma_pending_name_plain(cookie_name: Seq<char>)
    requires
        cookie_name.len() > 0,
        !cookie_name.contains(';'),
        !cookie_name.contains('='),
        !unicode_whitespace(cookie_name[0]),
    ensures
        spec_pending_name(cookie_name).len() > 0,
        !spec_pending_name(cookie_name).contains(';'),
        !spec_pending_name(cookie_name).contains('='),
        !unicode_whitespace(spec_pending_name(cookie_name)[0]),
        spec_pending_name(cookie_name) != "SameSite"@,
        spec_pending_name(cookie_name) != "Max-Age"@,
{
    let name = spec_pending_name(cookie_name);
    reveal_strlit("_pending");
    reveal_strlit("SameSite");
    reveal_strlit("Max-Age");
    assert(name[0] == cookie_name[0]);
    assert(name.last() == 'g');
    assert("SameSite"@.last() == 'e');
    assert("Max-Age"@.last() == 'e');
    assert(!name.contains(';') && !name.contains('=')) by {
        assert forall|i: int| 0 <= i < name.len() implies name[i] != ';' && name[i] != '=' by {
            if i < cookie_name.len() {
                assert(name[i] == cookie_name[i]);
            }
        }
    }
}

/// The pending value of a login is a valid cookie value that splits at `.` into the login's
/// identifier and binding.
proof fn lemma_pending_value_plain(id: Seq<char>, binding: Seq<char>)
    requires
        id.len() > 0,
        binding.len() > 0,
        forall|i: int| 0 <= i < id.len() ==> is_url_safe_char(#[trigger] id[i]),
        forall|i: int| 0 <= i < binding.len() ==> is_url_safe_char(#[trigger] binding[i]),
    ensures
        spec_valid_cookie_value(spec_encode_pending(id, binding)),
        split_once(spec_encode_pending(id, binding), '.') == Some((id, binding)),
{
    let value = spec_encode_pending(id, binding);
    reveal_strlit(".");
    assert(value =~= id + (seq!['.'] + binding));
    assert forall|i: int| 0 <= i < value.len() implies {
        let c = #[trigger] value[i];
        ('a' <= c && c <= 'z') || ('A' <= c && c <= 'Z') || ('0' <= c && c <= '9') || c == '-'
            || c == '_' || c == '.'
    } by {
        if i < id.len() {
            assert(value[i] == id[i]);
            assert(is_url_safe_char(id[i]));
        } else if i > id.len() {
            assert(value[i] == binding[i - id.len() - 1]);
            assert(is_url_safe_char(binding[i - id.len() - 1]));
        }
    }
    assert(!id.contains('.')) by {
        assert forall|i: int| 0 <= i < id.len() implies id[i] != '.' by {
            assert(is_url_safe_char(id[i]));
        }
    }
    lemma_split_once_at_boundary(id, seq!['.'] + binding, '.');
    assert((seq!['.'] + binding).drop_first() =~= binding);
}

/// Law: the pending cookie set for a login reads back as that login's identifier and binding
/// (for a session cookie name without `;`, `=` or leading white space).
pub proof fn lemma_pending_cookie_round_trip(
    id: Seq<char>,
    binding: Seq<char>,
    cookie_name: Seq<char>,
    secure: bool,
    site: SameSite,
    max_age: Option<i64>,
)
    requires
        is_opaque_text(id),
        is_opaque_text(binding),
        id.len() > 0,
        binding.len() > 0,
        forall|i: int| 0 <= i < id.len() ==> is_url_safe_char(#[trigger] id[i]),
        forall|i: int| 0 <= i < binding.len() ==> is_url_safe_char(#[trigger] binding[i]),
        cookie_name.len() > 0,
        !cookie_name.contains(';'),
        !cookie_name.contains('='),
        !unicode_whitespace(cookie_name[0]),
    ensures
        spec_read_pending(
            Some(spec_set_cookie(spec_encode_pending(id, binding), spec_pending_name(cookie_name), secure, site, max_age)),
            spec_pending_name(cookie_name),
        ) == Some((id, binding)),
{
    lemma_pending_value_plain(id, binding);
    lemma_pending_name_plain(cookie_name);
    lemma_set_cookie_read_back(spec_encode_pending(id, binding), spec_pending_name(cookie_name), secure, site, max_age);
}

/// Law: a `Cookie` header that holds just the pending cookie of a login reads back as that
/// login's identifier and binding (for a session cookie name without `;`, `=` or leading white
/// space).
pub proof fn lemma_pending_header_round_trip(id: Seq<char>, binding: Seq<char>, cookie_name: Seq<char>)
    requires
        is_opaque_text(id),
        is_opaque_text(binding),
        id.len() > 0,
        binding.len() > 0,
        forall|i: int| 0 <= i < id.len() ==> is_url_safe_char(#[trigger] id[i]),
        forall|i: int| 0 <= i < binding.len() ==> is_url_safe_char(#[trigger] binding[i]),
        cookie_name.len() > 0,
        !cookie_name.contains(';'),
        !cookie_name.contains('='),
        !unicode_whitespace(cookie_name[0]),
    ensures
        spec_read_pending(
            Some(spec_pending_name(cookie_name) + "="@ + spec_encode_pending(id, binding)),
            spec_pending_name(cookie_name),
        ) == Some((id, binding)),
{
    lemma_pending_value_plain(id, binding);
    lemma_pending_name_plain(cookie_name);
    lemma_cookie_header_read_back(spec_encode_pending(id, binding), spec_pending_name(cookie_name));
}

/// Law: the value that deletes the pending cookie names no pending login when it is read back,
/// whatever the session cookie's name.
pub proof fn lemma_clear_pending_read_back(cookie_name: Seq<char>, secure: bool, site: SameSite)
    ensures
        spec_read_pending(
            Some(spec_set_cookie(Seq::empty(), spec_pending_name(cookie_name), secure, site, Some(0i64))),
            spec_pending_name(cookie_name),
        ) is None,
{
    let name = spec_pending_name(cookie_name);
    reveal_strlit("_pending");
    reveal_strlit("SameSite");
    reveal_strlit("Max-Age");
    assert(name.last() == 'g');
    assert("SameSite"@.last() == 'e');
    assert("Max-Age"@.last() == 'e');
    lemma_clear_cookie_read_back(name, secure, site);
}

} // verus!
