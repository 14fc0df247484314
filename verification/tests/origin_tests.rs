use server::config::parse_origin;
use server::origin::{verify, OriginError};

#[test]
fn same_origin_requests_pass() {
    let public = parse_origin("https://video.example.test").expect("valid origin");
    assert_eq!(verify(None, Some("https://video.example.test"), &public), Ok(()));
    assert_eq!(verify(Some("same-origin"), Some("https://VIDEO.example.test/"), &public), Ok(()));
    assert_eq!(verify(Some("none"), Some("https://video.example.test:443"), &public), Ok(()));
}

#[test]
fn cross_site_and_foreign_origins_are_refused() {
    let public = parse_origin("https://video.example.test").expect("valid origin");
    assert_eq!(verify(Some("cross-site"), Some("https://video.example.test"), &public), Err(OriginError::CrossSite));
    assert_eq!(verify(None, None, &public), Err(OriginError::InvalidOrigin));
    assert_eq!(verify(None, Some("null"), &public), Err(OriginError::InvalidOrigin));
    assert_eq!(verify(None, Some("https://evil.example"), &public), Err(OriginError::InvalidOrigin));
    assert_eq!(verify(None, Some("http://video.example.test"), &public), Err(OriginError::InvalidOrigin));
    assert_eq!(verify(None, Some("https://video.example.test:8443"), &public), Err(OriginError::InvalidOrigin));
    assert_eq!(verify(None, Some("https://video.example.test/path"), &public), Err(OriginError::InvalidOrigin));
    assert_eq!(verify(None, Some("https://user@video.example.test"), &public), Err(OriginError::InvalidOrigin));
}

#[test]
fn public_origins_are_parsed_and_checked() {
    let parts = parse_origin("http://127.0.0.1:3000").expect("valid origin");
    assert_eq!(parts.scheme, "http");
    assert_eq!(parts.port, Some(3000));
    assert_eq!(parts.path, "/");
    assert_eq!(parts.host, Some(server::net::UrlHost::Ipv4(0x7f00_0001)));
    assert!(parse_origin("https://video.example.test/x?y#z").is_err());
    assert!(parse_origin("ftp://video.example.test").is_err());
    assert!(parse_origin("not a url").is_err());
}
