//! The operations that the server offers, over the repository and the
//! identity verifier: what each answers, and what it tells a caller whom it
//! refuses.

use vstd::prelude::*;
use crate::authentication::{
    auth_error_reply, exchange_outcome, AuthenticationService, Requester, TokenAnswer,
};
use crate::key::rejection_reply;
use crate::record::{text_of, RecordView};
use crate::requests::{
    redirect_for, ListUrl, NewUrl, RedirectUrlIdPathParam, RedirectUrlPathParam,
    DEFAULT_PAGE_SIZE,
};
use crate::responses::{
    last_cursor, redirects_of, AuthResponse, MeResponse, PagedResponse, RedirectView, UrlRedirect,
};
use crate::service::{
    created, insert_error_reply, lists, removed, rewritten, shown_if, updated_by, written,
    InsertErrorView, NewRedirectView, UrlService,
};
use crate::system::is_random_identifier;
use crate::table::{row_owned, row_with_key};

verus! {

/// What a caller is told of a redirect that is not there, or not the
/// caller's: the status and the text.
pub open spec fn not_found() -> (u16, Seq<char>) {
    (404, "not found"@)
}

/// The value of what a refused caller is told.
pub open spec fn told(reply: (u16, String)) -> (u16, Seq<char>) {
    (reply.0, reply.1@)
}

/// The value of what an operation on one redirect answers.
pub open spec fn answered(r: Result<UrlRedirect, (u16, String)>) -> Result<
    RedirectView,
    (u16, Seq<char>),
> {
    match r {
        Ok(redirect) => Ok(redirect@),
        Err(reply) => Err(told(reply)),
    }
}

/// What is answered for a redirect that was looked for.
pub open spec fn found_or_absent(found: Option<RedirectView>) -> Result<
    RedirectView,
    (u16, Seq<char>),
> {
    match found {
        Some(redirect) => Ok(redirect),
        None => Err(not_found()),
    }
}

/// What is answered for a creation.
pub open spec fn creation_answer(outcome: Result<RedirectView, InsertErrorView>) -> Result<
    RedirectView,
    (u16, Seq<char>),
> {
    match outcome {
        Ok(redirect) => Ok(redirect),
        Err(e) => Err(insert_error_reply(e)),
    }
}

/// What is answered for an update.
pub open spec fn update_answer(outcome: Result<Option<RedirectView>, InsertErrorView>) -> Result<
    RedirectView,
    (u16, Seq<char>),
> {
    match outcome {
        Ok(found) => found_or_absent(found),
        Err(e) => Err(insert_error_reply(e)),
    }
}

/// A creation of `valid` under some fresh random identifier, at some time
/// of the clock, leads from `before` to `after` and to `answer`.
pub open spec fn creates(
    before: Seq<RecordView>,
    valid: NewRedirectView,
    after: Seq<RecordView>,
    answer: Result<RedirectView, (u16, Seq<char>)>,
) -> bool {
    exists|id: u128, now: i64|
        is_random_identifier(id) && now >= 0 && after == (#[trigger] created(
            before,
            id,
            valid,
            now,
        )).0 && answer == creation_answer(created(before, id, valid, now).1)
}

/// An update of the redirect `id` by `valid`, at some time of the clock,
/// leads from `before` to `after` and to `answer`.
pub open spec fn rewrites(
    before: Seq<RecordView>,
    id: u128,
    valid: NewRedirectView,
    after: Seq<RecordView>,
    answer: Result<RedirectView, (u16, Seq<char>)>,
) -> bool {
    exists|now: i64|
        now >= 0 && after == (#[trigger] updated_by(before, id, valid, now)).0 && answer
            == update_answer(updated_by(before, id, valid, now).1)
}

/// The item that was found, or what the caller is told where none was.
pub fn found_or_not<T>(item: Option<T>) -> (r: Result<T, (u16, String)>)
    ensures
        match item {
            Some(it) => r == Ok::<T, (u16, String)>(it),
            None => r is Err && told(r->Err_0) == not_found(),
        },
{
    match item {
        Some(it) => Ok(it),
        None => Err((404, "not found".to_owned())),
    }
}

/// Follows a redirect: the target to send the caller to, permanently.
/// Any caller may follow any key.
pub fn redirect_handler(path: RedirectUrlPathParam, service: &UrlService) -> (r: Result<
    String,
    (u16, String),
>)
    ensures
        match shown_if(row_with_key(service@, path.key@)) {
            Some(redirect) => r is Ok && r->Ok_0@ == redirect.target,
            None => r is Err && told(r->Err_0) == not_found(),
        },
{
    match found_or_not(service.get_by_key(path.key.as_str())) {
        Ok(redirect) => Ok(redirect.target().to_owned()),
        Err(reply) => Err(reply),
    }
}

/// Creates a redirect for the requester. A key that does not meet the
/// policy is refused before the repository is touched; a key that is taken
/// is a conflict.
pub fn new_url(requester: Requester, service: &mut UrlService, body: NewUrl) -> (r: Result<
    UrlRedirect,
    (u16, String),
>)
    ensures
        redirect_for(requester.email@, body.key@, body.target@) is Err ==> final(service)@ == old(
            service,
        )@ && answered(r) == Err::<RedirectView, (u16, Seq<char>)>(
            rejection_reply(redirect_for(requester.email@, body.key@, body.target@)->Err_0),
        ),
        redirect_for(requester.email@, body.key@, body.target@) is Ok ==> creates(
            old(service)@,
            redirect_for(requester.email@, body.key@, body.target@)->Ok_0,
            final(service)@,
            answered(r),
        ),
{
    let valid = match body.for_owner(requester.email) {
        Ok(valid) => valid,
        Err(failure) => {
            return Err(failure.into_response());
        },
    };
    let ghost before = service@;
    let ghost asked = valid@;
    let outcome = service.create(valid);
    let ghost (id, now) = choose|id: u128, now: i64|
        is_random_identifier(id) && now >= 0 && (service@, written(outcome)) == #[trigger] created(
            before,
            id,
            asked,
            now,
        );
    let r = match outcome {
        Ok(redirect) => Ok(redirect),
        Err(e) => Err(e.into_response()),
    };
    assert(service@ == created(before, id, asked, now).0 && answered(r) == creation_answer(
        created(before, id, asked, now).1,
    ));
    r
}

/// Deletes a redirect of the requester and returns it as it was.
pub fn delete_url(requester: Requester, service: &mut UrlService, path: RedirectUrlIdPathParam) -> (r:
    Result<UrlRedirect, (u16, String)>)
    ensures
        final(service)@ == removed(old(service)@, path.id, requester.email@).0,
        answered(r) == found_or_absent(removed(old(service)@, path.id, requester.email@).1),
{
    found_or_not(service.delete(requester.email.as_str(), path.id))
}

/// Rewrites key and target of a redirect of the requester.
pub fn update_url(
    requester: Requester,
    service: &mut UrlService,
    path: RedirectUrlIdPathParam,
    body: NewUrl,
) -> (r: Result<UrlRedirect, (u16, String)>)
    ensures
        redirect_for(requester.email@, body.key@, body.target@) is Err ==> final(service)@ == old(
            service,
        )@ && answered(r) == Err::<RedirectView, (u16, Seq<char>)>(
            rejection_reply(redirect_for(requester.email@, body.key@, body.target@)->Err_0),
        ),
        redirect_for(requester.email@, body.key@, body.target@) is Ok ==> rewrites(
            old(service)@,
            path.id,
            redirect_for(requester.email@, body.key@, body.target@)->Ok_0,
            final(service)@,
            answered(r),
        ),
{
    let valid = match body.for_owner(requester.email) {
        Ok(valid) => valid,
        Err(failure) => {
            return Err(failure.into_response());
        },
    };
    let ghost before = service@;
    let ghost asked = valid@;
    let outcome = service.update(path.id, valid);
    let ghost now = choose|now: i64|
        now >= 0 && (service@, rewritten(outcome)) == #[trigger] updated_by(
            before,
            path.id,
            asked,
            now,
        );
    let r = match outcome {
        Ok(updated) => found_or_not(updated),
        Err(e) => Err(e.into_response()),
    };
    assert(service@ == updated_by(before, path.id, asked, now).0 && answered(r) == update_answer(
        updated_by(before, path.id, asked, now).1,
    ));
    r
}

/// Lists a page of the requester's redirects, of the default size where
/// the caller names none.
pub fn get_urls(requester: Requester, service: &UrlService, query: ListUrl) -> (r: PagedResponse<
    UrlRedirect,
>)
    ensures
        lists(
            service@,
            requester.email@,
            text_of(query.after),
            match query.limit {
                Some(limit) => limit as nat,
                None => DEFAULT_PAGE_SIZE as nat,
            },
            redirects_of(r.items()),
        ),
        r.cursor() == last_cursor(r.items()),
{
    let limit: u64 = query.page_size();
    let result = service.list_by_email(requester.email.as_str(), query.after, limit);
    PagedResponse::new(result)
}

/// Reads a redirect of the requester.
pub fn get_url(requester: Requester, service: &UrlService, path: RedirectUrlIdPathParam) -> (r:
    Result<UrlRedirect, (u16, String)>)
    ensures
        answered(r) == found_or_absent(shown_if(row_owned(service@, path.id, requester.email@))),
{
    found_or_not(service.get_by_id_and_email(path.id, requester.email.as_str()))
}

/// Ends a sign-in: the token that the provider gave for the caller's
/// authorization code, or what the caller is told where it gave none.
/// `answer` is the provider's answer to the exchange.
pub fn auth_callback(answer: TokenAnswer) -> (r: Result<
    AuthResponse,
    (u16, String),
>)
    ensures
        match exchange_outcome(answer@) {
            Ok(token) => r is Ok && r->Ok_0@ == token,
            Err(e) => r is Err && told(r->Err_0) == auth_error_reply(e),
        },
{
    match AuthenticationService::exchange_token(answer) {
        Ok(token) => Ok(token),
        Err(e) => Err(e.into_response()),
    }
}

/// Tells the requester who the requester is.
pub fn me_handler(requester: Requester) -> (r: MeResponse)
    ensures
        r.email == requester.email,
{
    MeResponse::new(requester.email)
}

} // verus!
