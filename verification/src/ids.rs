//! Random opaque identifiers: 32 random bytes in unpadded URL-safe base64.

use vstd::prelude::*;
use vstd::string::StringExecFns;
use crate::text::chars_of;

verus! {

/// Number of random bytes behind every identifier.
pub const OPAQUE_ID_BYTES: usize = 32;

/// Secure random generation failed.
#[derive(Debug, Clone, Copy, PartialEq, Eq)]
pub struct RandomIdError;

/// What the `base64` engine `URL_SAFE_NO_PAD` encodes `bytes` to.
pub uninterp spec fn base64_url_encoded(bytes: Seq<u8>) -> Seq<char>;

/// What the `base64` engine `URL_SAFE_NO_PAD` decodes `text` to, or `None` where it refuses it.
pub uninterp spec fn base64_url_decoded(text: Seq<char>) -> Option<Seq<u8>>;

/// A character of the URL-safe base64 alphabet: ASCII letters, digits, `-` and `_`.
pub open spec fn is_url_safe_char(c: char) -> bool {
    ('a' <= c && c <= 'z') || ('A' <= c && c <= 'Z') || ('0' <= c && c <= '9') || c == '-' || c == '_'
}

/// `base64::Engine::encode` with `URL_SAFE_NO_PAD`. Claims what the crate documents: the text
/// is named `base64_url_encoded(bytes)`, uses only the URL-safe alphabet, is not empty for
/// non-empty input, and decodes back to `bytes`.
#[verifier::external_body]
pub(crate) fn base64_url_encode(bytes: &[u8]) -> (r: String)
    requires
        bytes@.len() <= 1048576,
    ensures
        r@ == base64_url_encoded(bytes@),
        base64_url_decoded(r@) == Some(bytes@),
        forall|i: int| 0 <= i < r@.len() ==> is_url_safe_char(#[trigger] r@[i]),
        bytes@.len() > 0 ==> r@.len() > 0,
{
    base64::Engine::encode(&base64::engine::general_purpose::URL_SAFE_NO_PAD, bytes)
}

/// `base64::Engine::decode` with `URL_SAFE_NO_PAD`; `None` where the text is refused. The result
/// is named `base64_url_decoded(text)`.
#[verifier::external_body]
pub(crate) fn base64_url_decode(text: &str) -> (r: Option<Vec<u8>>)
    ensures
        match r {
            Some(b) => base64_url_decoded(text@) == Some(b@),
            None => base64_url_decoded(text@) is None,
        },
{
    base64::Engine::decode(&base64::engine::general_purpose::URL_SAFE_NO_PAD, text).ok()
}

/// `getrandom::fill` on a fresh buffer of `n` bytes: `None` when the system source fails. The
/// bytes are random, so nothing is stated of them but their number.
#[verifier::external_body]
pub(crate) fn random_bytes(n: usize) -> (r: Option<Vec<u8>>)
    ensures
        r matches Some(b) ==> b@.len() == n,
{
    let mut bytes = vec![0u8; n];
    getrandom::fill(&mut bytes).ok()?;
    Some(bytes)
}

/// Text that names a valid identifier: it decodes to exactly 32 bytes.
pub open spec fn is_opaque_text(text: Seq<char>) -> bool {
    match base64_url_decoded(text) {
        Some(b) => b.len() == OPAQUE_ID_BYTES,
        None => false,
    }
}

/// A fresh identifier text: 32 random bytes, encoded.
pub fn generate_text() -> (r: Result<String, RandomIdError>)
    ensures
        r matches Ok(t) ==> is_opaque_text(t@) && t@.len() > 0 && forall|i: int|
            0 <= i < t@.len() ==> is_url_safe_char(#[trigger] t@[i]),
        r matches Ok(t) ==> exists|b: Seq<u8>| b.len() == OPAQUE_ID_BYTES && t@ == #[trigger] base64_url_encoded(b),
{
    match random_bytes(OPAQUE_ID_BYTES) {
        Some(bytes) => Ok(base64_url_encode(bytes.as_slice())),
        None => Err(RandomIdError),
    }
}

/// `value` as identifier text, when it decodes to exactly 32 bytes.
pub fn parse_text(value: &str) -> (r: Option<String>)
    ensures
        match r {
            Some(t) => is_opaque_text(value@) && t@ == value@,
            None => !is_opaque_text(value@),
        },
{
    match base64_url_decode(value) {
        Some(bytes) => {
            if bytes.len() == OPAQUE_ID_BYTES {
                Some(String::from_str(value))
            } else {
                None
            }
        },
        None => None,
    }
}

/// Whether two identifier texts are equal.
pub fn same_text(a: &str, b: &str) -> (r: bool)
    ensures
        r == (a@ == b@),
{
    crate::text::chars_eq(&chars_of(a), &chars_of(b))
}

/// A website session.
#[derive(Clone, PartialEq, Eq, Hash)]
pub struct SessionId(String);

impl View for SessionId {
    type V = Seq<char>;

    closed spec fn view(&self) -> Seq<char> {
        self.0@
    }
}

impl SessionId {
    /// A fresh random identifier.
    pub fn generate() -> (r: Result<Self, RandomIdError>)
        ensures
            r matches Ok(id) ==> is_opaque_text(id@) && id@.len() > 0 && forall|i: int|
                0 <= i < id@.len() ==> is_url_safe_char(#[trigger] id@[i]),
    {
        match generate_text() {
            Ok(t) => Ok(SessionId(t)),
            Err(e) => Err(e),
        }
    }

    /// The identifier text.
    pub fn expose(&self) -> (r: &str)
        ensures
            r@ == self@,
    {
        self.0.as_str()
    }

    /// The identifier named by `value`, when `value` decodes to exactly 32 bytes.
    pub fn parse(value: &str) -> (r: Option<Self>)
        ensures
            match r {
                Some(id) => is_opaque_text(value@) && id@ == value@,
                None => !is_opaque_text(value@),
            },
    {
        match parse_text(value) {
            Some(t) => Some(SessionId(t)),
            None => None,
        }
    }

    /// A copy of the identifier.
    pub fn duplicate(&self) -> (r: Self)
        ensures
            r@ == self@,
    {
        Self(String::from_str(self.0.as_str()))
    }

    /// Whether two identifiers are the same.
    pub fn same(&self, other: &Self) -> (r: bool)
        ensures
            r == (self@ == other@),
    {
        same_text(self.0.as_str(), other.0.as_str())
    }
}

/// A pending QR login.
#[derive(Clone, PartialEq, Eq, Hash)]
pub struct PendingLoginId(String);

impl View for PendingLoginId {
    type V = Seq<char>;

    closed spec fn view(&self) -> Seq<char> {
        self.0@
    }
}

impl PendingLoginId {
    /// A fresh random identifier.
    pub fn generate() -> (r: Result<Self, RandomIdError>)
        ensures
            r matches Ok(id) ==> is_opaque_text(id@) && id@.len() > 0 && forall|i: int|
                0 <= i < id@.len() ==> is_url_safe_char(#[trigger] id@[i]),
    {
        match generate_text() {
            Ok(t) => Ok(PendingLoginId(t)),
            Err(e) => Err(e),
        }
    }

    /// The identifier text.
    pub fn expose(&self) -> (r: &str)
        ensures
            r@ == self@,
    {
        self.0.as_str()
    }

    /// The identifier named by `value`, when `value` decodes to exactly 32 bytes.
    pub fn parse(value: &str) -> (r: Option<Self>)
        ensures
            match r {
                Some(id) => is_opaque_text(value@) && id@ == value@,
                None => !is_opaque_text(value@),
            },
    {
        match parse_text(value) {
            Some(t) => Some(PendingLoginId(t)),
            None => None,
        }
    }

    /// A copy of the identifier.
    pub fn duplicate(&self) -> (r: Self)
        ensures
            r@ == self@,
    {
        Self(String::from_str(self.0.as_str()))
    }

    /// Whether two identifiers are the same.
    pub fn same(&self, other: &Self) -> (r: bool)
        ensures
            r == (self@ == other@),
    {
        same_text(self.0.as_str(), other.0.as_str())
    }
}

/// The browser that started a pending login.
#[derive(Clone, PartialEq, Eq, Hash)]
pub struct BrowserBinding(String);

impl View for BrowserBinding {
    type V = Seq<char>;

    closed spec fn view(&self) -> Seq<char> {
        self.0@
    }
}

impl BrowserBinding {
    /// A fresh random identifier.
    pub fn generate() -> (r: Result<Self, RandomIdError>)
        ensures
            r matches Ok(id) ==> is_opaque_text(id@) && id@.len() > 0 && forall|i: int|
                0 <= i < id@.len() ==> is_url_safe_char(#[trigger] id@[i]),
    {
        match generate_text() {
            Ok(t) => Ok(BrowserBinding(t)),
            Err(e) => Err(e),
        }
    }

    /// The identifier text.
    pub fn expose(&self) -> (r: &str)
        ensures
            r@ == self@,
    {
        self.0.as_str()
    }

    /// The identifier named by `value`, when `value` decodes to exactly 32 bytes.
    pub fn parse(value: &str) -> (r: Option<Self>)
        ensures
            match r {
                Some(id) => is_opaque_text(value@) && id@ == value@,
                None => !is_opaque_text(value@),
            },
    {
        match parse_text(value) {
            Some(t) => Some(BrowserBinding(t)),
            None => None,
        }
    }

    /// A copy of the identifier.
    pub fn duplicate(&self) -> (r: Self)
        ensures
            r@ == self@,
    {
        Self(String::from_str(self.0.as_str()))
    }

    /// Whether two identifiers are the same.
    pub fn same(&self, other: &Self) -> (r: bool)
        ensures
            r == (self@ == other@),
    {
        same_text(self.0.as_str(), other.0.as_str())
    }
}

/// A course, as the browser names it.
#[derive(Clone, PartialEq, Eq, Hash)]
pub struct CourseHandle(String);

impl View for CourseHandle {
    type V = Seq<char>;

    closed spec fn view(&self) -> Seq<char> {
        self.0@
    }
}

impl CourseHandle {
    /// A fresh random identifier.
    pub fn generate() -> (r: Result<Self, RandomIdError>)
        ensures
            r matches Ok(id) ==> is_opaque_text(id@) && id@.len() > 0 && forall|i: int|
                0 <= i < id@.len() ==> is_url_safe_char(#[trigger] id@[i]),
    {
        match generate_text() {
            Ok(t) => Ok(CourseHandle(t)),
            Err(e) => Err(e),
        }
    }

    /// The identifier text.
    pub fn expose(&self) -> (r: &str)
        ensures
            r@ == self@,
    {
        self.0.as_str()
    }

    /// The identifier named by `value`, when `value` decodes to exactly 32 bytes.
    pub fn parse(value: &str) -> (r: Option<Self>)
        ensures
            match r {
                Some(id) => is_opaque_text(value@) && id@ == value@,
                None => !is_opaque_text(value@),
            },
    {
        match parse_text(value) {
            Some(t) => Some(CourseHandle(t)),
            None => None,
        }
    }

    /// A copy of the identifier.
    pub fn duplicate(&self) -> (r: Self)
        ensures
            r@ == self@,
    {
        Self(String::from_str(self.0.as_str()))
    }

    /// Whether two identifiers are the same.
    pub fn same(&self, other: &Self) -> (r: bool)
        ensures
            r == (self@ == other@),
    {
        same_text(self.0.as_str(), other.0.as_str())
    }
}

/// A recording, as the browser names it.
#[derive(Clone, PartialEq, Eq, Hash)]
pub struct VideoHandle(String);

impl View for VideoHandle {
    type V = Seq<char>;

    closed spec fn view(&self) -> Seq<char> {
        self.0@
    }
}

impl VideoHandle {
    /// A fresh random identifier.
    pub fn generate() -> (r: Result<Self, RandomIdError>)
        ensures
            r matches Ok(id) ==> is_opaque_text(id@) && id@.len() > 0 && forall|i: int|
                0 <= i < id@.len() ==> is_url_safe_char(#[trigger] id@[i]),
    {
        match generate_text() {
            Ok(t) => Ok(VideoHandle(t)),
            Err(e) => Err(e),
        }
    }

    /// The identifier text.
    pub fn expose(&self) -> (r: &str)
        ensures
            r@ == self@,
    {
        self.0.as_str()
    }

    /// The identifier named by `value`, when `value` decodes to exactly 32 bytes.
    pub fn parse(value: &str) -> (r: Option<Self>)
        ensures
            match r {
                Some(id) => is_opaque_text(value@) && id@ == value@,
                None => !is_opaque_text(value@),
            },
    {
        match parse_text(value) {
            Some(t) => Some(VideoHandle(t)),
            None => None,
        }
    }

    /// A copy of the identifier.
    pub fn duplicate(&self) -> (r: Self)
        ensures
            r@ == self@,
    {
        Self(String::from_str(self.0.as_str()))
    }

    /// Whether two identifiers are the same.
    pub fn same(&self, other: &Self) -> (r: bool)
        ensures
            r == (self@ == other@),
    {
        same_text(self.0.as_str(), other.0.as_str())
    }
}

/// A video track, as the browser names it.
#[derive(Clone, PartialEq, Eq, Hash)]
pub struct TrackHandle(String);

impl View for TrackHandle {
    type V = Seq<char>;

    closed spec fn view(&self) -> Seq<char> {
        self.0@
    }
}

impl TrackHandle {
    /// A fresh random identifier.
    pub fn generate() -> (r: Result<Self, RandomIdError>)
        ensures
            r matches Ok(id) ==> is_opaque_text(id@) && id@.len() > 0 && forall|i: int|
                0 <= i < id@.len() ==> is_url_safe_char(#[trigger] id@[i]),
    {
        match generate_text() {
            Ok(t) => Ok(TrackHandle(t)),
            Err(e) => Err(e),
        }
    }

    /// The identifier text.
    pub fn expose(&self) -> (r: &str)
        ensures
            r@ == self@,
    {
        self.0.as_str()
    }

    /// The identifier named by `value`, when `value` decodes to exactly 32 bytes.
    pub fn parse(value: &str) -> (r: Option<Self>)
        ensures
            match r {
                Some(id) => is_opaque_text(value@) && id@ == value@,
                None => !is_opaque_text(value@),
            },
    {
        match parse_text(value) {
            Some(t) => Some(TrackHandle(t)),
            None => None,
        }
    }

    /// A copy of the identifier.
    pub fn duplicate(&self) -> (r: Self)
        ensures
            r@ == self@,
    {
        Self(String::from_str(self.0.as_str()))
    }

    /// Whether two identifiers are the same.
    pub fn same(&self, other: &Self) -> (r: bool)
        ensures
            r == (self@ == other@),
    {
        same_text(self.0.as_str(), other.0.as_str())
    }
}

/// A download ticket.
#[derive(Clone, PartialEq, Eq, Hash)]
pub struct DownloadTicketId(String);

impl View for DownloadTicketId {
    type V = Seq<char>;

    closed spec fn view(&self) -> Seq<char> {
        self.0@
    }
}

impl DownloadTicketId {
    /// A fresh random identifier.
    pub fn generate() -> (r: Result<Self, RandomIdError>)
        ensures
            r matches Ok(id) ==> is_opaque_text(id@) && id@.len() > 0 && forall|i: int|
                0 <= i < id@.len() ==> is_url_safe_char(#[trigger] id@[i]),
    {
        match generate_text() {
            Ok(t) => Ok(DownloadTicketId(t)),
            Err(e) => Err(e),
        }
    }

    /// The identifier text.
    pub fn expose(&self) -> (r: &str)
        ensures
            r@ == self@,
    {
        self.0.as_str()
    }

    /// The identifier named by `value`, when `value` decodes to exactly 32 bytes.
    pub fn parse(value: &str) -> (r: Option<Self>)
        ensures
            match r {
                Some(id) => is_opaque_text(value@) && id@ == value@,
                None => !is_opaque_text(value@),
            },
    {
        match parse_text(value) {
            Some(t) => Some(DownloadTicketId(t)),
            None => None,
        }
    }

    /// A copy of the identifier.
    pub fn duplicate(&self) -> (r: Self)
        ensures
            r@ == self@,
    {
        Self(String::from_str(self.0.as_str()))
    }

    /// Whether two identifiers are the same.
    pub fn same(&self, other: &Self) -> (r: bool)
        ensures
            r == (self@ == other@),
    {
        same_text(self.0.as_str(), other.0.as_str())
    }
}

} // verus!
