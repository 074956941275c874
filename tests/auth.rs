use openfga_demo::auth::{authenticate, blank, AuthFailure, UserHeader};

#[test]
fn missing_header_is_unauthorized() {
    let r = authenticate(UserHeader::Missing);
    assert!(matches!(r, Err(AuthFailure::MissingHeader)));
    assert_eq!(AuthFailure::MissingHeader.status(), 401);
}

#[test]
fn header_that_is_not_text_is_rejected() {
    assert!(matches!(authenticate(UserHeader::NotText), Err(AuthFailure::InvalidHeaderFormat)));
    assert_eq!(AuthFailure::InvalidHeaderFormat.status(), 400);
}

#[test]
fn blank_user_id_is_rejected() {
    assert!(matches!(authenticate(UserHeader::Text(String::new())), Err(AuthFailure::EmptyUserId)));
    assert!(matches!(authenticate(UserHeader::Text(" \t\u{3000}".to_string())), Err(AuthFailure::EmptyUserId)));
    assert_eq!(AuthFailure::EmptyUserId.status(), 400);
}

#[test]
fn user_id_is_kept_as_sent() {
    let u = authenticate(UserHeader::Text(" alice ".to_string())).unwrap();
    assert_eq!(u.user_id, " alice ");
}

#[test]
fn blank_agrees_with_trim() {
    for s in ["", " ", "\n\r\t", "\u{85}\u{a0}\u{1680}\u{2000}\u{200a}\u{2028}\u{2029}\u{202f}\u{205f}\u{3000}", "a", " a ", "\u{200b}"] {
        assert_eq!(blank(s), s.trim().is_empty(), "{:?}", s);
    }
}
