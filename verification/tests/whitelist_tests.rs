use server::whitelist::{validate_hash, StableIdWhitelist, WhitelistError};

const DIGEST: &str = "sha256:ba7816bf8f01cfea414140de5dae2223b00361a396177a9cb410ff61f20015ad";

#[test]
fn digests_must_be_lower_case_sha256_hex() {
    assert_eq!(validate_hash(DIGEST), Ok(DIGEST.to_owned()));
    assert_eq!(validate_hash(&DIGEST.to_uppercase()), Err(WhitelistError::InvalidHash));
    assert_eq!(validate_hash("sha1:abcd"), Err(WhitelistError::InvalidHash));
    assert_eq!(validate_hash(&DIGEST[..70]), Err(WhitelistError::InvalidHash));
    assert_eq!(validate_hash(&format!("{DIGEST}0")), Err(WhitelistError::InvalidHash));
    assert_eq!(validate_hash(&DIGEST.replace('b', "g")), Err(WhitelistError::InvalidHash));
}

#[test]
fn configuration_errors_are_reported_in_order() {
    let bad_id = vec![Some("a".to_owned()), None];
    let bad_hash = vec!["sha256:xyz".to_owned()];
    assert!(matches!(StableIdWhitelist::from_config(&bad_id, &bad_hash), Err(WhitelistError::EmptyStableId)));
    let good_id = vec![Some("a".to_owned())];
    assert!(matches!(StableIdWhitelist::from_config(&good_id, &bad_hash), Err(WhitelistError::InvalidHash)));
}

#[test]
fn allows_listed_identifiers_or_digests() {
    let list = StableIdWhitelist::from_config(&vec![Some("student-42".to_owned())], &vec![DIGEST.to_owned()])
        .expect("valid configuration");
    assert!(list.allows(Some("student-42"), None));
    assert!(list.allows(Some("someone"), Some(DIGEST)));
    assert!(!list.allows(Some("someone"), Some("sha256:00")));
    assert!(!list.allows(Some("someone"), None));
    assert!(!list.allows(None, Some(DIGEST)));
}
