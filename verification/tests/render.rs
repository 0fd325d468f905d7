use bearer_challenge::challenge::{challenge, render, scopes};
use bearer_challenge::error::Error;

fn s(text: &str) -> String {
    text.to_string()
}

fn tokens(list: &[&str]) -> Option<Vec<String>> {
    Some(list.iter().map(|t| t.to_string()).collect())
}

fn four(realm: &str, scope: Option<Vec<String>>, description: &str) -> Vec<Error> {
    vec![
        Error::MissingAuthentication { realm: s(realm), back: None, scope: scope.clone() },
        Error::InvalidRequest { realm: s(realm), scope: scope.clone(), description: s(description) },
        Error::InvalidToken { realm: s(realm), scope: scope.clone(), description: s(description) },
        Error::InsufficientScope { realm: s(realm), scope, description: s(description) },
    ]
}

fn rendered(e: &Error) -> String {
    let value = render(e).expect("the challenge is a header value");
    String::from_utf8(value.as_bytes().to_vec()).expect("the challenge is text")
}

#[test]
fn invalid_token_with_one_scope() {
    let e = Error::InvalidToken {
        realm: s("api"),
        scope: tokens(&["read"]),
        description: s("token expired"),
    };
    assert_eq!(
        rendered(&e),
        "Bearer realm=\"api\" scope=\"read\" error_code=\"invalid_token\" error_description=\"token expired\""
    );
}

#[test]
fn missing_authentication_without_scope() {
    let e = Error::MissingAuthentication { realm: s("api"), back: None, scope: None };
    assert_eq!(rendered(&e), "Bearer realm=\"api\" scope=\"\"");
}

#[test]
fn insufficient_scope_with_two_scopes() {
    let e = Error::InsufficientScope {
        realm: s("svc"),
        scope: tokens(&["a", "b"]),
        description: s("need b"),
    };
    assert_eq!(
        rendered(&e),
        "Bearer realm=\"svc\" scope=\"a b\" error_code=\"insufficient_scope\" error_description=\"need b\""
    );
}

#[test]
fn invalid_request_with_scope() {
    let e = Error::InvalidRequest {
        realm: s("api"),
        scope: tokens(&["read", "write"]),
        description: s("two credentials"),
    };
    assert_eq!(
        rendered(&e),
        "Bearer realm=\"api\" scope=\"read write\" error_code=\"invalid_request\" error_description=\"two credentials\""
    );
}

#[test]
fn absent_scope_renders_empty_for_every_variant() {
    let all = four("files", None, "try again");
    assert_eq!(rendered(&all[0]), "Bearer realm=\"files\" scope=\"\"");
    assert_eq!(
        rendered(&all[1]),
        "Bearer realm=\"files\" scope=\"\" error_code=\"invalid_request\" error_description=\"try again\""
    );
    assert_eq!(
        rendered(&all[2]),
        "Bearer realm=\"files\" scope=\"\" error_code=\"invalid_token\" error_description=\"try again\""
    );
    assert_eq!(
        rendered(&all[3]),
        "Bearer realm=\"files\" scope=\"\" error_code=\"insufficient_scope\" error_description=\"try again\""
    );
}

#[test]
fn three_scopes_are_joined_for_every_variant() {
    for e in four("files", tokens(&["a", "b", "c"]), "try again") {
        let text = rendered(&e);
        assert!(text.contains("scope=\"a b c\""), "{}", text);
        assert!(text.starts_with("Bearer realm=\"files\" scope=\"a b c\""), "{}", text);
    }
}

#[test]
fn empty_scope_list_is_shown_not_left_out() {
    for e in four("files", tokens(&[]), "try again") {
        let text = rendered(&e);
        assert!(text.contains("scope=\"\""), "{}", text);
        assert!(text.starts_with("Bearer realm=\"files\" scope=\"\""), "{}", text);
    }
}

#[test]
fn only_failures_with_a_code_show_error_attributes() {
    let all = four("files", tokens(&["a"]), "try again");
    let missing = rendered(&all[0]);
    assert!(!missing.contains("error_code="));
    assert!(!missing.contains("error_description="));
    assert!(missing.ends_with("scope=\"a\""));
    let codes = ["invalid_request", "invalid_token", "insufficient_scope"];
    for (e, code) in all[1..].iter().zip(codes.iter()) {
        let text = rendered(e);
        assert!(text.contains(&format!("error_code=\"{}\"", code)), "{}", text);
        assert!(text.ends_with(" error_description=\"try again\""), "{}", text);
        for other in codes.iter().filter(|c| *c != code) {
            assert!(!text.contains(&format!("error_code=\"{}\"", other)), "{}", text);
        }
    }
}

#[test]
fn rendering_twice_gives_the_same_octets() {
    for e in four("files", tokens(&["a", "b"]), "try again") {
        let first = render(&e).unwrap();
        let second = render(&e).unwrap();
        assert_eq!(first.as_bytes(), second.as_bytes());
    }
    let bad = Error::InvalidToken { realm: s("a\nb"), scope: None, description: s("x") };
    assert!(render(&bad).is_err());
    assert!(render(&bad).is_err());
}

#[test]
fn line_feed_in_realm_fails() {
    for e in four("api\n", None, "fine") {
        assert!(render(&e).is_err());
    }
}

#[test]
fn line_feed_in_description_fails() {
    let all = four("api", None, "first\nsecond");
    assert!(render(&all[0]).is_ok());
    for e in &all[1..] {
        assert!(render(e).is_err());
    }
}

#[test]
fn control_character_in_scope_token_fails() {
    for e in four("api", tokens(&["a", "b\r", "c"]), "fine") {
        assert!(render(&e).is_err());
    }
}

#[test]
fn delete_character_fails_and_null_fails() {
    let del = Error::InvalidRequest { realm: s("a\u{7f}"), scope: None, description: s("x") };
    assert!(render(&del).is_err());
    let nul = Error::InvalidRequest { realm: s("a"), scope: None, description: s("\0") };
    assert!(render(&nul).is_err());
    let unit = Error::InvalidRequest { realm: s("a\u{1f}"), scope: None, description: s("x") };
    assert!(render(&unit).is_err());
}

#[test]
fn horizontal_tab_is_carried() {
    let e = Error::InvalidToken { realm: s("a\tb"), scope: None, description: s("x\ty") };
    assert_eq!(
        rendered(&e),
        "Bearer realm=\"a\tb\" scope=\"\" error_code=\"invalid_token\" error_description=\"x\ty\""
    );
}

#[test]
fn text_beyond_ascii_is_carried_as_utf8() {
    let e = Error::MissingAuthentication { realm: s("caf\u{e9} \u{20ac}"), back: None, scope: None };
    let value = render(&e).unwrap();
    let mut expected: Vec<u8> = b"Bearer realm=\"caf".to_vec();
    expected.extend_from_slice(&[0xc3, 0xa9, 0x20, 0xe2, 0x82, 0xac]);
    expected.extend_from_slice(b"\" scope=\"\"");
    assert_eq!(value.as_bytes(), &expected[..]);
}

#[test]
fn quotes_are_not_escaped() {
    let e = Error::MissingAuthentication { realm: s("a\"b"), back: None, scope: None };
    assert_eq!(rendered(&e), "Bearer realm=\"a\"b\" scope=\"\"");
}

#[test]
fn empty_realm_and_description_render() {
    let e = Error::InvalidRequest { realm: s(""), scope: None, description: s("") };
    assert_eq!(
        rendered(&e),
        "Bearer realm=\"\" scope=\"\" error_code=\"invalid_request\" error_description=\"\""
    );
}

#[test]
fn back_is_not_rendered() {
    let e = Error::MissingAuthentication {
        realm: s("api"),
        back: Some(s("https://example.org/after\n")),
        scope: tokens(&["read"]),
    };
    assert_eq!(rendered(&e), "Bearer realm=\"api\" scope=\"read\"");
}

#[test]
fn rendered_value_is_the_challenge_text() {
    for e in four("files", tokens(&["a", "b"]), "try again") {
        let value = render(&e).unwrap();
        assert_eq!(value.as_bytes(), challenge(&e).as_bytes());
        assert_eq!(value.to_str().unwrap(), challenge(&e));
        assert!(!value.is_sensitive());
    }
}

#[test]
fn challenge_text_is_composed_even_where_rendering_fails() {
    let e = Error::InvalidToken { realm: s("a\nb"), scope: None, description: s("x") };
    assert_eq!(
        challenge(&e),
        "Bearer realm=\"a\nb\" scope=\"\" error_code=\"invalid_token\" error_description=\"x\""
    );
    let failure = render(&e).unwrap_err();
    assert_eq!(format!("{:?}", failure.cause), "InvalidHeaderValue");
}

#[test]
fn scopes_joins_with_single_spaces() {
    assert_eq!(scopes(&None), "");
    assert_eq!(scopes(&tokens(&[])), "");
    assert_eq!(scopes(&tokens(&["a"])), "a");
    assert_eq!(scopes(&tokens(&["a", "b"])), "a b");
    assert_eq!(scopes(&tokens(&["a", "b", "c"])), "a b c");
}

#[test]
fn scopes_keeps_order_and_empty_tokens() {
    assert_eq!(scopes(&tokens(&["write", "read", "admin"])), "write read admin");
    assert_eq!(scopes(&tokens(&["", "x", ""])), " x ");
    assert_eq!(scopes(&tokens(&[""])), "");
}
