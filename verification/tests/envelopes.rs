use redirects::key::RedirectKeyValidationFailed;
use redirects::requests::{
    AuthRequest, ListUrl, NewUrl, RedirectUrlIdPathParam, RedirectUrlPathParam, DEFAULT_PAGE_SIZE,
};
use redirects::responses::{AuthResponse, CursorDefault, MeResponse, PagedResponse, UrlRedirect};

#[test]
fn a_page_continues_behind_its_last_item() {
    let data = vec![
        UrlRedirect::new(1, "a".to_string(), "https://a".to_string()),
        UrlRedirect::new(2, "b".to_string(), "https://b".to_string()),
    ];
    let page = PagedResponse::new(data);
    assert_eq!(page.last(), &Some("b".to_string()));
    assert_eq!(page.data().len(), 2);
    assert_eq!(page.data()[0].key(), "a");
    assert_eq!(page.data()[1].identifier(), 2);
}

#[test]
fn an_empty_page_has_no_cursor() {
    let page = PagedResponse::new(Vec::<UrlRedirect>::new());
    assert_eq!(page.last(), &None);
    assert!(page.data().is_empty());
}

#[test]
fn the_cursor_of_a_redirect_is_its_key() {
    let redirect = UrlRedirect::new(7, "docs".to_string(), "https://docs".to_string());
    assert_eq!(redirect.id(), "docs");
    assert_eq!(redirect.clone().id(), "docs");
}

#[test]
fn responses_hold_what_they_are_made_of() {
    let auth = AuthResponse::new("tok".to_string(), "Bearer".to_string());
    assert_eq!((auth.access_token(), auth.token_type()), ("tok", "Bearer"));
    let me = MeResponse::new("alice@example.com".to_string());
    assert_eq!(me.email, "alice@example.com");
    assert_eq!(me.clone().email, "alice@example.com");
}

#[test]
fn the_page_size_defaults_to_fifty() {
    assert_eq!(ListUrl { after: None, limit: None }.page_size(), 50);
    assert_eq!(ListUrl { after: Some("a".to_string()), limit: Some(2) }.page_size(), 2);
    assert_eq!(ListUrl { after: None, limit: Some(0) }.page_size(), 0);
    assert_eq!(DEFAULT_PAGE_SIZE, 50);
    let query = ListUrl { after: Some("k".to_string()), limit: Some(3) }.clone();
    assert_eq!((query.after.as_deref(), query.limit), (Some("k"), Some(3)));
}

#[test]
fn a_new_redirect_belongs_to_the_principal() {
    let sent = NewUrl { key: "docs".to_string(), target: "https://docs".to_string() };
    let new_url = sent.clone().for_owner("alice@example.com".to_string()).expect("a valid key");
    assert_eq!(new_url.user_email(), "alice@example.com");
    assert_eq!(new_url.key().as_str(), "docs");
    assert_eq!(new_url.target(), "https://docs");
    let copy = new_url.clone();
    assert_eq!(copy.key().as_str(), "docs");
}

#[test]
fn a_new_redirect_with_a_bad_key_is_refused() {
    let sent = NewUrl { key: "my docs".to_string(), target: "https://docs".to_string() };
    match sent.for_owner("alice@example.com".to_string()) {
        Err(RedirectKeyValidationFailed::InvalidCharacters(chars)) => assert_eq!(chars, vec![' ']),
        _ => panic!("a space is no character of a key"),
    }
    let sent = NewUrl { key: "k".repeat(101), target: "https://docs".to_string() };
    assert!(matches!(
        sent.for_owner("alice@example.com".to_string()),
        Err(RedirectKeyValidationFailed::TooLong)
    ));
}

#[test]
fn requests_hold_what_was_sent() {
    let auth = AuthRequest { authorization_code: "code".to_string() };
    assert_eq!(auth.clone().authorization_code, "code");
    let path = RedirectUrlPathParam { key: "docs".to_string() };
    assert_eq!(path.clone().key, "docs");
    let id = RedirectUrlIdPathParam { id: 9 };
    assert_eq!(id.id, 9);
}
