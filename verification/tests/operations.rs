use redirects::authentication::{AuthenticationService, Requester, TokenAnswer};
use redirects::handlers::{
    auth_callback, delete_url, found_or_not, get_url, get_urls, me_handler, new_url,
    redirect_handler, update_url,
};
use redirects::cache::TokenCache;
use redirects::requests::{
    AuthRequest, ListUrl, NewUrl, RedirectUrlIdPathParam, RedirectUrlPathParam,
};
use redirects::responses::AuthResponse;
use redirects::service::UrlService;

fn alice() -> Requester {
    Requester { email: "alice@example.com".to_string() }
}

fn bob() -> Requester {
    Requester { email: "bob@example.com".to_string() }
}

fn body(key: &str, target: &str) -> NewUrl {
    NewUrl { key: key.to_string(), target: target.to_string() }
}

fn told<T>(result: Result<T, (u16, String)>) -> (u16, String) {
    match result {
        Err(reply) => reply,
        Ok(_) => panic!("the caller is refused"),
    }
}

#[test]
fn what_is_there_is_found() {
    assert_eq!(found_or_not(Some(3)), Ok(3));
    assert_eq!(found_or_not(None::<u8>), Err((404, "not found".to_string())));
}

#[test]
fn a_created_redirect_can_be_followed_by_anyone() {
    let mut service = UrlService::new();
    let created = new_url(alice(), &mut service, body("docs", "https://docs.example"))
        .expect("the key is valid and free");
    assert_eq!(created.key(), "docs");
    let path = RedirectUrlPathParam { key: "docs".to_string() };
    assert_eq!(redirect_handler(path, &service), Ok("https://docs.example".to_string()));
    let path = RedirectUrlPathParam { key: "nope".to_string() };
    assert_eq!(redirect_handler(path, &service), Err((404, "not found".to_string())));
}

#[test]
fn a_bad_key_is_refused_before_anything_is_stored() {
    let mut service = UrlService::new();
    let refused = told(new_url(alice(), &mut service, body("my docs", "https://docs.example")));
    assert_eq!(refused, (400, "invalid characters:  ".to_string()));
    let refused = told(new_url(alice(), &mut service, body(&"k".repeat(101), "https://t")));
    assert_eq!(refused, (400, "too long, maximum length of a key is 100".to_string()));
    assert_eq!(service.table().len(), 0);
}

#[test]
fn a_taken_key_is_a_conflict() {
    let mut service = UrlService::new();
    assert!(new_url(alice(), &mut service, body("docs", "https://one")).is_ok());
    let refused = told(new_url(bob(), &mut service, body("docs", "https://two")));
    assert_eq!(refused, (409, "key already exists".to_string()));
    let path = RedirectUrlPathParam { key: "docs".to_string() };
    assert_eq!(redirect_handler(path, &service), Ok("https://one".to_string()));
}

#[test]
fn only_the_owner_reads_rewrites_and_deletes() {
    let mut service = UrlService::new();
    let created = new_url(alice(), &mut service, body("docs", "https://one")).expect("free");
    let path = RedirectUrlIdPathParam { id: created.identifier() };

    assert_eq!(told(get_url(bob(), &service, path)), (404, "not found".to_string()));
    let refused = told(update_url(bob(), &mut service, path, body("mine", "https://evil")));
    assert_eq!(refused, (404, "not found".to_string()));
    assert_eq!(told(delete_url(bob(), &mut service, path)), (404, "not found".to_string()));

    let read = get_url(alice(), &service, path).expect("alice owns it");
    assert_eq!((read.key(), read.target()), ("docs", "https://one"));
    let updated = update_url(alice(), &mut service, path, body("docs2", "https://two"))
        .expect("alice owns it");
    assert_eq!((updated.key(), updated.target()), ("docs2", "https://two"));
    let deleted = delete_url(alice(), &mut service, path).expect("alice owns it");
    assert_eq!(deleted.key(), "docs2");
    assert_eq!(told(delete_url(alice(), &mut service, path)), (404, "not found".to_string()));
    assert_eq!(told(get_url(alice(), &service, path)), (404, "not found".to_string()));
}

#[test]
fn an_update_is_validated_and_checked_for_conflicts() {
    let mut service = UrlService::new();
    let first = new_url(alice(), &mut service, body("a", "https://a")).expect("free");
    assert!(new_url(alice(), &mut service, body("b", "https://b")).is_ok());
    let path = RedirectUrlIdPathParam { id: first.identifier() };
    let refused = told(update_url(alice(), &mut service, path, body("a/b", "https://a")));
    assert_eq!(refused, (400, "invalid characters: /".to_string()));
    let refused = told(update_url(alice(), &mut service, path, body("b", "https://a")));
    assert_eq!(refused, (409, "key already exists".to_string()));
    let read = get_url(alice(), &service, path).expect("untouched");
    assert_eq!((read.key(), read.target()), ("a", "https://a"));
}

#[test]
fn a_listing_has_fifty_redirects_unless_asked_otherwise() {
    let mut service = UrlService::new();
    for i in 0..60 {
        let key = format!("key-{i:02}");
        assert!(new_url(alice(), &mut service, body(&key, "https://t")).is_ok());
    }
    let page = get_urls(alice(), &service, ListUrl { after: None, limit: None });
    assert_eq!(page.data().len(), 50);
    assert_eq!(page.data()[0].key(), "key-00");
    assert_eq!(page.last(), &Some("key-49".to_string()));

    let next = get_urls(alice(), &service, ListUrl { after: page.last().clone(), limit: None });
    assert_eq!(next.data().len(), 10);
    assert_eq!(next.data()[0].key(), "key-50");
    assert_eq!(next.last(), &Some("key-59".to_string()));

    let end = get_urls(alice(), &service, ListUrl { after: next.last().clone(), limit: Some(5) });
    assert!(end.data().is_empty());
    assert_eq!(end.last(), &None);

    let few = get_urls(alice(), &service, ListUrl { after: None, limit: Some(3) });
    assert_eq!(few.data().len(), 3);
    assert!(get_urls(bob(), &service, ListUrl { after: None, limit: None }).data().is_empty());
}

#[test]
fn a_sign_in_ends_with_the_token_or_with_a_refusal() {
    let auth = AuthenticationService::new(
        "https://sso.example".to_string(),
        "client".to_string(),
        "secret".to_string(),
        "https://app.example/callback".to_string(),
        TokenCache::new(),
    );
    let request = AuthRequest { authorization_code: "code".to_string() };
    assert_eq!(auth.token_request(&request.authorization_code).code, "code");
    let token = AuthResponse::new("tok".to_string(), "Bearer".to_string());
    let granted = auth_callback(TokenAnswer::Responded { status: 200, token: Ok(token) })
        .expect("the provider grants");
    assert_eq!((granted.access_token(), granted.token_type()), ("tok", "Bearer"));

    let answer = TokenAnswer::Responded { status: 400, token: Err(String::new()) };
    assert_eq!(told(auth_callback(answer)), (401, "unauthorized".to_string()));
    let answer = TokenAnswer::Responded { status: 503, token: Err(String::new()) };
    assert_eq!(told(auth_callback(answer)), (500, "Internal Server Error".to_string()));
    let answer = TokenAnswer::Unreachable("connection reset".to_string());
    assert_eq!(told(auth_callback(answer)), (500, "Internal Server Error".to_string()));
}

#[test]
fn the_requester_is_told_the_email() {
    assert_eq!(me_handler(alice()).email, "alice@example.com");
}
