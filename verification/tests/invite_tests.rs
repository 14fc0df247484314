use server::invite::{
    hash_token, invite_id, random_token, valid_invite_id, validate_consumption,
    validate_reservation_state, validate_token, InvitationRow, InviteError, InviteReservation,
};

fn row(expires_at: i64, reservation: Option<(&str, i64)>, consumed_at: Option<i64>) -> InvitationRow {
    InvitationRow {
        expires_at,
        reservation_hash: reservation.map(|(h, _)| h.to_owned()),
        reservation_expires_at: reservation.map(|(_, e)| e),
        consumed_at,
    }
}

#[test]
fn token_hash_is_lower_case_sha256_hex() {
    assert_eq!(hash_token("abc"), "ba7816bf8f01cfea414140de5dae2223b00361a396177a9cb410ff61f20015ad");
    assert_eq!(hash_token(""), "e3b0c44298fc1c149afbf4c8996fb92427ae41e4649b934ca495991b7852b855");
    assert_eq!(invite_id(&hash_token("abc")), "ba7816bf8f01cfea414140de");
    assert_eq!(invite_id("short"), "short");
}

#[test]
fn tokens_must_decode_to_32_bytes() {
    let token = random_token().expect("random source");
    assert_eq!(token.len(), 43);
    assert_eq!(validate_token(&token), Ok(()));
    assert_eq!(validate_token("abc"), Err(InviteError::Invalid));
    assert_eq!(validate_token("!!!"), Err(InviteError::Invalid));
}

#[test]
fn invite_ids_are_24_lower_hex_characters() {
    assert!(valid_invite_id("0123456789abcdef01234567"));
    assert!(!valid_invite_id("0123456789ABCDEF01234567"));
    assert!(!valid_invite_id("0123456789abcdef0123456"));
    assert!(!valid_invite_id("0123456789abcdef012345678"));
    assert!(!valid_invite_id("0123456789abcdef0123456g"));
}

#[test]
fn reservation_rules() {
    assert_eq!(validate_reservation_state(&row(100, None, None), 50), Ok(()));
    assert_eq!(validate_reservation_state(&row(100, None, Some(10)), 50), Err(InviteError::Consumed));
    assert_eq!(validate_reservation_state(&row(100, None, None), 100), Err(InviteError::Expired));
    assert_eq!(validate_reservation_state(&row(100, Some(("h", 60)), None), 50), Err(InviteError::Reserved));
    assert_eq!(validate_reservation_state(&row(100, Some(("h", 50)), None), 50), Ok(()));
}

#[test]
fn consumption_rules() {
    let mine = InviteReservation { token_hash: "t".to_owned(), reservation_hash: "h".to_owned() };
    assert_eq!(validate_consumption(&row(100, Some(("h", 60)), None), &mine, 50), Ok(()));
    assert_eq!(validate_consumption(&row(100, Some(("other", 60)), None), &mine, 50), Err(InviteError::Invalid));
    assert_eq!(validate_consumption(&row(100, Some(("h", 50)), None), &mine, 50), Err(InviteError::Invalid));
    assert_eq!(validate_consumption(&row(100, None, None), &mine, 50), Err(InviteError::Invalid));
    assert_eq!(validate_consumption(&row(100, Some(("h", 60)), Some(1)), &mine, 50), Err(InviteError::Consumed));
    assert_eq!(validate_consumption(&row(40, Some(("h", 60)), None), &mine, 50), Err(InviteError::Expired));
    let copy = mine.duplicate();
    assert_eq!(copy, mine);
}
