//! One-time invitations: token checks, token hashing and the rules for reserving and consuming
//! an invitation row.

use vstd::prelude::*;
use vstd::string::StringExecFns;
use vstd::string::StringSliceAdditionalSpecFns;
use crate::filename::take_at_most;
use crate::ids::{base64_url_decode, generate_text, is_opaque_text, OPAQUE_ID_BYTES};
use crate::text::{chars_of, string_from_chars};

verus! {

/// Number of hexadecimal characters of a token hash that name an invitation.
pub const INVITE_ID_HEX_CHARS: usize = 24;

/// Why an invitation operation failed.
#[derive(Debug, Clone, Copy, PartialEq, Eq)]
pub enum InviteError {
    Database,
    Io,
    Random,
    Invalid,
    Expired,
    Reserved,
    Consumed,
}

/// A reservation held by a pending login: the invitation's token hash and the reservation's
/// own hash.
#[derive(Debug, Clone, PartialEq, Eq)]
pub struct InviteReservation {
    pub token_hash: String,
    pub reservation_hash: String,
}

impl InviteReservation {
    /// A copy of the reservation.
    pub fn duplicate(&self) -> (r: Self)
        ensures
            r.token_hash@ == self.token_hash@,
            r.reservation_hash@ == self.reservation_hash@,
    {
        InviteReservation {
            token_hash: String::from_str(self.token_hash.as_str()),
            reservation_hash: String::from_str(self.reservation_hash.as_str()),
        }
    }
}

/// The columns of an invitation row that the rules read; times are Unix seconds.
#[derive(Debug, Clone, PartialEq, Eq)]
pub struct InvitationRow {
    pub expires_at: i64,
    pub reservation_hash: Option<String>,
    pub reservation_expires_at: Option<i64>,
    pub consumed_at: Option<i64>,
}

/// What SHA-256 gives for `bytes`.
pub uninterp spec fn sha256_digest(bytes: Seq<u8>) -> Seq<u8>;

/// `sha2::Sha256::digest`: the 32-byte SHA-256 digest of `bytes`, named `sha256_digest(bytes)`.
#[verifier::external_body]
fn sha256(bytes: &[u8]) -> (r: Vec<u8>)
    ensures
        r@ == sha256_digest(bytes@),
        r@.len() == 32,
{
    <sha2::Sha256 as sha2::Digest>::digest(bytes).to_vec()
}

/// Lower-case hexadecimal digit for `n` below sixteen.
pub open spec fn lower_hex_digit(n: nat) -> char {
    if n < 10 {
        ((48 + n) as u32) as char
    } else {
        ((87 + n) as u32) as char
    }
}

/// Whether `c` is `0`-`9` or `a`-`f`.
pub open spec fn is_lower_hex(c: char) -> bool {
    ('0' <= c && c <= '9') || ('a' <= c && c <= 'f')
}

/// The bytes `b` as lower-case hexadecimal, two digits per byte.
pub open spec fn hex_of(b: Seq<u8>) -> Seq<char>
    decreases b.len(),
{
    if b.len() == 0 {
        Seq::empty()
    } else {
        hex_of(b.drop_last()) + seq![lower_hex_digit((b.last() / 16) as nat), lower_hex_digit((b.last() % 16) as nat)]
    }
}

proof fn lemma_hex_of_shape(b: Seq<u8>)
    ensures
        hex_of(b).len() == 2 * b.len(),
        forall|i: int| 0 <= i < hex_of(b).len() ==> is_lower_hex(#[trigger] hex_of(b)[i]),
    decreases b.len(),
{
    if b.len() > 0 {
        lemma_hex_of_shape(b.drop_last());
        let prefix = hex_of(b.drop_last());
        assert forall|i: int| 0 <= i < hex_of(b).len() implies is_lower_hex(#[trigger] hex_of(b)[i]) by {
            if i >= prefix.len() {
                let d = if i == prefix.len() { (b.last() / 16) as nat } else { (b.last() % 16) as nat };
                assert(d < 16);
            }
        }
    }
}

/// The value of a lower-case hexadecimal digit: `0` to `9` are worth 0 to 9 and `a` to `f` are
/// worth 10 to 15; any other character is no digit.
pub open spec fn lower_hex_value(c: char) -> Option<nat> {
    if '0' <= c && c <= '9' {
        Some((c as int - '0' as int) as nat)
    } else if 'a' <= c && c <= 'f' {
        Some((c as int - 'a' as int + 10) as nat)
    } else {
        None
    }
}

/// Reading lower-case hexadecimal text two digits per byte, high half first.
pub open spec fn hex_decode(s: Seq<char>) -> Option<Seq<u8>>
    decreases s.len(),
{
    if s.len() == 0 {
        Some(Seq::empty())
    } else if s.len() < 2 {
        None
    } else {
        match (hex_decode(s.take(s.len() - 2)), lower_hex_value(s[s.len() - 2]), lower_hex_value(s[s.len() - 1])) {
            (Some(init), Some(hi), Some(lo)) => Some(init.push((hi * 16 + lo) as u8)),
            _ => None,
        }
    }
}

/// Law: the hexadecimal text of a byte string reads back as those bytes, two lower-case digits
/// per byte, high half first.
pub proof fn lemma_hex_of_reads_back(b: Seq<u8>)
    ensures
        hex_decode(hex_of(b)) == Some(b),
    decreases b.len(),
{
    if b.len() > 0 {
        let init = b.drop_last();
        lemma_hex_of_reads_back(init);
        lemma_hex_of_shape(init);
        let hi = (b.last() / 16) as nat;
        let lo = (b.last() % 16) as nat;
        let s = hex_of(b);
        assert(s.take(s.len() - 2) =~= hex_of(init));
        if hi < 10 {
            assert(lower_hex_digit(hi) as int == 48 + hi);
        } else {
            assert(lower_hex_digit(hi) as int == 87 + hi);
        }
        if lo < 10 {
            assert(lower_hex_digit(lo) as int == 48 + lo);
        } else {
            assert(lower_hex_digit(lo) as int == 87 + lo);
        }
        assert(s[s.len() - 2] == lower_hex_digit(hi));
        assert(s[s.len() - 1] == lower_hex_digit(lo));
        assert(init.push(b.last()) =~= b);
    }
}

fn lower_hex_char(n: u8) -> (r: char)
    requires
        n < 16,
    ensures
        r == lower_hex_digit(n as nat),
{
    if n < 10 {
        (48u8 + n) as char
    } else {
        (87u8 + n) as char
    }
}

/// The stored hash of an invitation token: the lower-case hexadecimal SHA-256 of its bytes.
pub open spec fn spec_hash_token(token: Seq<char>) -> Seq<char> {
    hex_of(sha256_digest(vstd::utf8::encode_utf8(token)))
}

/// Hashes `token` for storage.
pub fn hash_token(token: &str) -> (r: String)
    ensures
        r@ == spec_hash_token(token@),
        r@.len() == 64,
        forall|i: int| 0 <= i < r@.len() ==> is_lower_hex(#[trigger] r@[i]),
{
    let digest = sha256(token.as_bytes());
    let mut out: Vec<char> = Vec::new();
    let mut i: usize = 0;
    while i < digest.len()
        invariant
            i <= digest@.len(),
            out@ == hex_of(digest@.take(i as int)),
        decreases digest.len() - i,
    {
        let b = digest[i];
        assert(digest@.take(i + 1).drop_last() =~= digest@.take(i as int));
        out.push(lower_hex_char(b / 16));
        out.push(lower_hex_char(b % 16));
        i = i + 1;
        assert(out@ =~= hex_of(digest@.take(i as int)));
    }
    assert(digest@.take(i as int) =~= digest@);
    proof {
        lemma_hex_of_shape(digest@);
    }
    string_from_chars(&out)
}

/// The invitation's public identifier: the first 24 characters of its token hash.
pub fn invite_id(token_hash: &str) -> (r: String)
    ensures
        r@ == take_at_most(token_hash@, INVITE_ID_HEX_CHARS as nat),
{
    let chars = chars_of(token_hash);
    let n: usize = if chars.len() < INVITE_ID_HEX_CHARS { chars.len() } else { INVITE_ID_HEX_CHARS };
    let mut out: Vec<char> = Vec::new();
    let mut i: usize = 0;
    while i < n
        invariant
            n <= chars@.len(),
            i <= n,
            out@ == chars@.take(i as int),
        decreases n - i,
    {
        out.push(chars[i]);
        i = i + 1;
        assert(out@ =~= chars@.take(i as int));
    }
    string_from_chars(&out)
}

/// Whether `value` has the shape of an invitation identifier: 24 lower-case hexadecimal
/// characters.
pub open spec fn spec_valid_invite_id(value: Seq<char>) -> bool {
    value.len() == INVITE_ID_HEX_CHARS && forall|i: int| 0 <= i < value.len() ==> is_lower_hex(#[trigger] value[i])
}

/// Checks the shape of an invitation identifier given on the command line.
pub fn valid_invite_id(value: &str) -> (r: bool)
    ensures
        r == spec_valid_invite_id(value@),
{
    let chars = chars_of(value);
    if chars.len() != INVITE_ID_HEX_CHARS {
        return false;
    }
    let mut i: usize = 0;
    while i < chars.len()
        invariant
            chars@ == value@,
            chars@.len() == INVITE_ID_HEX_CHARS,
            i <= chars@.len(),
            forall|j: int| 0 <= j < i ==> is_lower_hex(#[trigger] chars@[j]),
        decreases chars.len() - i,
    {
        let c = chars[i];
        if !(('0' <= c && c <= '9') || ('a' <= c && c <= 'f')) {
            assert(!is_lower_hex(chars@[i as int]));
            return false;
        }
        i = i + 1;
    }
    true
}

/// A fresh random token: 32 random bytes in unpadded URL-safe base64.
pub fn random_token() -> (r: Result<String, InviteError>)
    ensures
        r matches Ok(t) ==> is_opaque_text(t@),
        r matches Err(e) ==> e == InviteError::Random,
{
    match generate_text() {
        Ok(t) => Ok(t),
        Err(_) => Err(InviteError::Random),
    }
}

/// Accepts a token exactly when it decodes to 32 bytes.
pub fn validate_token(token: &str) -> (r: Result<(), InviteError>)
    ensures
        r is Ok <==> is_opaque_text(token@),
        r matches Err(e) ==> e == InviteError::Invalid,
{
    match base64_url_decode(token) {
        Some(bytes) => {
            if bytes.len() == OPAQUE_ID_BYTES {
                Ok(())
            } else {
                Err(InviteError::Invalid)
            }
        },
        None => Err(InviteError::Invalid),
    }
}

/// Whether a reservation recorded in `row` is still running at `now`.
pub open spec fn spec_reservation_active(row: InvitationRow, now: i64) -> bool {
    row.reservation_hash is Some && match row.reservation_expires_at {
        Some(e) => e > now,
        None => false,
    }
}

/// May `row` be reserved at `now`: not consumed, not expired, and not reserved by another
/// login whose reservation still runs.
pub open spec fn spec_validate_reservation_state(row: InvitationRow, now: i64) -> Result<(), InviteError> {
    if row.consumed_at is Some {
        Err(InviteError::Consumed)
    } else if row.expires_at <= now {
        Err(InviteError::Expired)
    } else if spec_reservation_active(row, now) {
        Err(InviteError::Reserved)
    } else {
        Ok(())
    }
}

/// Checks that `row` may be reserved at `now` (Unix seconds).
pub fn validate_reservation_state(row: &InvitationRow, now: i64) -> (r: Result<(), InviteError>)
    ensures
        r == spec_validate_reservation_state(*row, now),
{
    if row.consumed_at.is_some() {
        return Err(InviteError::Consumed);
    }
    if row.expires_at <= now {
        return Err(InviteError::Expired);
    }
    let active = row.reservation_hash.is_some() && match row.reservation_expires_at {
        Some(e) => e > now,
        None => false,
    };
    if active {
        return Err(InviteError::Reserved);
    }
    Ok(())
}

/// May `row` be consumed at `now` under `reservation`: not consumed, not expired, and reserved
/// by exactly this reservation, which still runs.
pub open spec fn spec_validate_consumption(row: InvitationRow, reservation: InviteReservation, now: i64) -> Result<(), InviteError> {
    if row.consumed_at is Some {
        Err(InviteError::Consumed)
    } else if row.expires_at <= now {
        Err(InviteError::Expired)
    } else if !(row.reservation_hash matches Some(h) && h@ == reservation.reservation_hash@)
        || !spec_reservation_active(row, now) {
        Err(InviteError::Invalid)
    } else {
        Ok(())
    }
}

/// Checks that `row` may be consumed at `now` (Unix seconds) under `reservation`.
pub fn validate_consumption(row: &InvitationRow, reservation: &InviteReservation, now: i64) -> (r: Result<(), InviteError>)
    ensures
        r == spec_validate_consumption(*row, *reservation, now),
{
    if row.consumed_at.is_some() {
        return Err(InviteError::Consumed);
    }
    if row.expires_at <= now {
        return Err(InviteError::Expired);
    }
    let same = match &row.reservation_hash {
        Some(h) => crate::ids::same_text(h.as_str(), reservation.reservation_hash.as_str()),
        None => false,
    };
    let running = match row.reservation_expires_at {
        Some(e) => e > now,
        None => false,
    };
    if !(same && running) {
        return Err(InviteError::Invalid);
    }
    Ok(())
}

/// Law: a reservation made at `now` with a positive lifetime blocks every other reservation of
/// the same invitation until it ends, and lets exactly its holder consume the invitation while
/// the invitation itself has not expired.
pub proof fn lemma_reservation_excludes_others(row: InvitationRow, reservation: InviteReservation, later: i64)
    requires
        row.consumed_at is None,
        row.reservation_hash matches Some(h) && h@ == reservation.reservation_hash@,
        row.reservation_expires_at matches Some(e) && later < e,
        later < row.expires_at,
    ensures
        spec_validate_reservation_state(row, later) == Err::<(), InviteError>(InviteError::Reserved),
        spec_validate_consumption(row, reservation, later) == Ok::<(), InviteError>(()),
{
}

/// Law: a consumed invitation can be neither reserved nor consumed again.
pub proof fn lemma_consumed_is_final(row: InvitationRow, reservation: InviteReservation, now: i64)
    requires
        row.consumed_at is Some,
    ensures
        spec_validate_reservation_state(row, now) == Err::<(), InviteError>(InviteError::Consumed),
        spec_validate_consumption(row, reservation, now) == Err::<(), InviteError>(InviteError::Consumed),
{
}

} // verus!
