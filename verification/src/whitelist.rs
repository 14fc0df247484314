//! Which signed-in identities may use the service: stable identifiers listed raw or as SHA-256
//! digests.

use vstd::prelude::*;
use vstd::string::StringExecFns;
use crate::ids::same_text;
use crate::invite::is_lower_hex;
use crate::text::chars_of;

verus! {

/// The prefix of a configured digest.
pub const HASH_PREFIX: &'static str = "sha256:";

/// Why the allow-list configuration was refused.
#[derive(Debug, Clone, Copy, PartialEq, Eq, Structural)]
pub enum WhitelistError {
    EmptyStableId,
    InvalidHash,
}

/// A configured digest: `sha256:` followed by 64 lower-case hexadecimal characters.
pub open spec fn spec_valid_hash(value: Seq<char>) -> bool {
    &&& value.len() == 71
    &&& value.take(7) == "sha256:"@
    &&& forall|i: int| 7 <= i < 71 ==> is_lower_hex(#[trigger] value[i])
}

/// Accepts a configured digest, handing back its text.
pub fn validate_hash(value: &str) -> (r: Result<String, WhitelistError>)
    ensures
        r is Ok <==> spec_valid_hash(value@),
        r matches Ok(v) ==> v@ == value@,
        r matches Err(e) ==> e == WhitelistError::InvalidHash,
{
    let chars = chars_of(value);
    proof {
        reveal_strlit("sha256:");
    }
    if chars.len() != 71 {
        return Err(WhitelistError::InvalidHash);
    }
    let prefix = vec!['s', 'h', 'a', '2', '5', '6', ':'];
    let mut i: usize = 0;
    while i < 7
        invariant
            chars@ == value@,
            chars@.len() == 71,
            prefix@ == "sha256:"@,
            prefix@.len() == 7,
            i <= 7,
            forall|j: int| 0 <= j < i ==> chars@[j] == prefix@[j],
        decreases 7 - i,
    {
        if chars[i] != prefix[i] {
            assert(chars@.take(7)[i as int] != "sha256:"@[i as int]);
            return Err(WhitelistError::InvalidHash);
        }
        i = i + 1;
    }
    assert(chars@.take(7) =~= "sha256:"@);
    while i < 71
        invariant
            chars@ == value@,
            chars@.len() == 71,
            7 <= i <= 71,
            forall|j: int| 7 <= j < i ==> is_lower_hex(#[trigger] chars@[j]),
        decreases 71 - i,
    {
        let c = chars[i];
        if !(('0' <= c && c <= '9') || ('a' <= c && c <= 'f')) {
            assert(!is_lower_hex(chars@[i as int]));
            return Err(WhitelistError::InvalidHash);
        }
        i = i + 1;
    }
    Ok(String::from_str(value))
}

/// Whether some element of `v` is `s`.
fn holds(v: &Vec<String>, s: &str) -> (r: bool)
    ensures
        r == exists|i: int| 0 <= i < v@.len() && #[trigger] v@[i]@ == s@,
{
    let mut i: usize = 0;
    while i < v.len()
        invariant
            i <= v@.len(),
            forall|j: int| 0 <= j < i ==> #[trigger] v@[j]@ != s@,
        decreases v.len() - i,
    {
        if same_text(v[i].as_str(), s) {
            return true;
        }
        i = i + 1;
    }
    false
}

/// The allowed identities: normalized raw stable identifiers and their accepted digests.
pub struct StableIdWhitelist {
    raw_ids: Vec<String>,
    hashes: Vec<String>,
}

impl StableIdWhitelist {
    /// The allowed normalized identifiers.
    pub closed spec fn spec_raw_ids(&self) -> Set<Seq<char>> {
        Set::new(|s: Seq<char>| exists|i: int| 0 <= i < self.raw_ids@.len() && #[trigger] self.raw_ids@[i]@ == s)
    }

    /// The allowed digests.
    pub closed spec fn spec_hashes(&self) -> Set<Seq<char>> {
        Set::new(|s: Seq<char>| exists|i: int| 0 <= i < self.hashes@.len() && #[trigger] self.hashes@[i]@ == s)
    }

    /// Builds the allow-list from the configured identifiers, each already normalized (`None`
    /// where normalization refused it), and the configured digests. Refused with
    /// `EmptyStableId` when an identifier could not be normalized, otherwise with
    /// `InvalidHash` when a digest is malformed.
    pub fn from_config(normalized_ids: &Vec<Option<String>>, hashes: &Vec<String>) -> (r: Result<Self, WhitelistError>)
        ensures
            (r == Err::<Self, WhitelistError>(WhitelistError::EmptyStableId)) <==> exists|i: int| 0 <= i < normalized_ids@.len() && #[trigger] normalized_ids@[i] is None,
            (r == Err::<Self, WhitelistError>(WhitelistError::InvalidHash)) <==> (forall|i: int| 0 <= i < normalized_ids@.len() ==> #[trigger] normalized_ids@[i] is Some)
                && exists|i: int| 0 <= i < hashes@.len() && !spec_valid_hash(#[trigger] hashes@[i]@),
            r matches Ok(w) ==> {
                &&& forall|s: Seq<char>| #[trigger] w.spec_raw_ids().contains(s) <==> exists|i: int| 0 <= i < normalized_ids@.len() && (#[trigger] normalized_ids@[i] matches Some(n) && n@ == s)
                &&& forall|s: Seq<char>| #[trigger] w.spec_hashes().contains(s) <==> exists|i: int| 0 <= i < hashes@.len() && #[trigger] hashes@[i]@ == s
            },
    {
        let mut raw_ids: Vec<String> = Vec::new();
        let mut i: usize = 0;
        while i < normalized_ids.len()
            invariant
                i <= normalized_ids@.len(),
                raw_ids@.len() == i,
                forall|j: int| 0 <= j < i ==> (#[trigger] normalized_ids@[j] matches Some(n) && n@ == raw_ids@[j]@),
            decreases normalized_ids.len() - i,
        {
            match &normalized_ids[i] {
                Some(n) => raw_ids.push(String::from_str(n.as_str())),
                None => return Err(WhitelistError::EmptyStableId),
            }
            i = i + 1;
        }
        let mut accepted: Vec<String> = Vec::new();
        let mut k: usize = 0;
        while k < hashes.len()
            invariant
                k <= hashes@.len(),
                accepted@.len() == k,
                forall|j: int| 0 <= j < normalized_ids@.len() ==> (#[trigger] normalized_ids@[j] matches Some(n) && n@ == raw_ids@[j]@),
                forall|j: int| 0 <= j < k ==> spec_valid_hash(#[trigger] hashes@[j]@) && accepted@[j]@ == hashes@[j]@,
            decreases hashes.len() - k,
        {
            match validate_hash(hashes[k].as_str()) {
                Ok(h) => accepted.push(h),
                Err(e) => {
                    assert(!spec_valid_hash(hashes@[k as int]@));
                    return Err(e);
                },
            }
            k = k + 1;
        }
        let w = StableIdWhitelist { raw_ids, hashes: accepted };
        assert forall|s: Seq<char>| #[trigger] w.spec_raw_ids().contains(s) <==> exists|j: int| 0 <= j < normalized_ids@.len() && (#[trigger] normalized_ids@[j] matches Some(n) && n@ == s) by {
            if w.spec_raw_ids().contains(s) {
                let j = choose|j: int| 0 <= j < w.raw_ids@.len() && #[trigger] w.raw_ids@[j]@ == s;
                assert((normalized_ids@[j] matches Some(n) && n@ == s));
            }
            if exists|j: int| 0 <= j < normalized_ids@.len() && (#[trigger] normalized_ids@[j] matches Some(n) && n@ == s) {
                let j = choose|j: int| 0 <= j < normalized_ids@.len() && (#[trigger] normalized_ids@[j] matches Some(n) && n@ == s);
                assert(w.raw_ids@[j]@ == s);
            }
        }
        assert forall|s: Seq<char>| #[trigger] w.spec_hashes().contains(s) <==> exists|j: int| 0 <= j < hashes@.len() && #[trigger] hashes@[j]@ == s by {
            if w.spec_hashes().contains(s) {
                let j = choose|j: int| 0 <= j < w.hashes@.len() && #[trigger] w.hashes@[j]@ == s;
                assert(hashes@[j]@ == s);
            }
            if exists|j: int| 0 <= j < hashes@.len() && #[trigger] hashes@[j]@ == s {
                let j = choose|j: int| 0 <= j < hashes@.len() && #[trigger] hashes@[j]@ == s;
                assert(w.hashes@[j]@ == s);
            }
        }
        Ok(w)
    }

    /// Whether the identity is allowed, given its normalized stable identifier (`None` where
    /// normalization refused it) and that identifier's digest (`None` where it could not be
    /// made): allowed when the identifier or its digest is listed.
    pub fn allows(&self, normalized: Option<&str>, digest: Option<&str>) -> (r: bool)
        ensures
            r == match normalized {
                None => false,
                Some(n) => self.spec_raw_ids().contains(n@) || (digest matches Some(d) && self.spec_hashes().contains(d@)),
            },
    {
        let n = match normalized {
            Some(n) => n,
            None => return false,
        };
        if holds(&self.raw_ids, n) {
            return true;
        }
        match digest {
            Some(d) => holds(&self.hashes, d),
            None => false,
        }
    }
}

} // verus!
