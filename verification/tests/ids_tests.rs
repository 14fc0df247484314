use server::ids::{CourseHandle, DownloadTicketId, SessionId};

#[test]
fn generated_ids_parse_back_and_differ() {
    let a = SessionId::generate().expect("random source");
    let b = SessionId::generate().expect("random source");
    assert_eq!(a.expose().len(), 43);
    assert!(!a.same(&b));
    let parsed = SessionId::parse(a.expose()).expect("own id parses");
    assert!(parsed.same(&a));
    assert!(a.duplicate().same(&a));
}

#[test]
fn only_32_byte_ids_parse() {
    assert!(CourseHandle::parse("").is_none());
    assert!(CourseHandle::parse("abc").is_none());
    assert!(CourseHandle::parse(&"A".repeat(43)).is_some());
    assert!(DownloadTicketId::parse(&"A".repeat(44)).is_none());
    assert!(DownloadTicketId::parse("not base64 !!").is_none());
}

#[test]
fn url_safe_alphabet_decodes() {
    let text = format!("{}-_8A", "A".repeat(39));
    assert!(SessionId::parse(&text).is_some());
    assert!(SessionId::parse(&format!("{}+/8A", "A".repeat(39))).is_none());
    assert!(SessionId::parse(&"A".repeat(42)).is_none());
}
