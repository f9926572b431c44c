//! What the service answers with.

use vstd::prelude::*;
use crate::record::{RecordView, RedirectRecord};

verus! {

/// The mathematical value of an [`AuthResponse`].
pub ghost struct AuthResponseView {
    pub access_token: Seq<char>,
    pub token_type: Seq<char>,
}

/// The token that an authorization code was exchanged for.
#[derive(Debug)]
pub struct AuthResponse {
    access_token: String,
    token_type: String,
}

impl View for AuthResponse {
    type V = AuthResponseView;

    closed spec fn view(&self) -> AuthResponseView {
        AuthResponseView { access_token: self.access_token@, token_type: self.token_type@ }
    }
}

impl Clone for AuthResponse {
    fn clone(&self) -> (r: Self)
        ensures
            r@ == self@,
    {
        AuthResponse {
            access_token: self.access_token.clone(),
            token_type: self.token_type.clone(),
        }
    }
}

impl AuthResponse {
    /// The response that holds this token.
    pub fn new(access_token: String, token_type: String) -> (r: Self)
        ensures
            r@ == (AuthResponseView { access_token: access_token@, token_type: token_type@ }),
    {
        Self { access_token, token_type }
    }

    /// The token.
    pub fn access_token(&self) -> (r: &str)
        ensures
            r@ == self@.access_token,
    {
        self.access_token.as_str()
    }

    /// How the token is to be presented.
    pub fn token_type(&self) -> (r: &str)
        ensures
            r@ == self@.token_type,
    {
        self.token_type.as_str()
    }
}

/// Who the caller is.
#[derive(Debug)]
pub struct MeResponse {
    pub email: String,
}

impl Clone for MeResponse {
    fn clone(&self) -> (r: Self)
        ensures
            r.email@ == self.email@,
    {
        MeResponse { email: self.email.clone() }
    }
}

impl MeResponse {
    /// The response that names this principal.
    pub fn new(email: String) -> (r: Self)
        ensures
            r.email == email,
    {
        Self { email }
    }
}

/// An item that a page can continue behind.
pub trait CursorDefault {
    /// The cursor that stands for this item.
    spec fn cursor(&self) -> Seq<char>;

    /// The cursor as text.
    fn id(&self) -> (r: String)
        ensures
            r@ == self.cursor(),
    ;
}

/// One page of items, with the cursor behind which the next page begins.
#[derive(Debug)]
pub struct PagedResponse<T> {
    data: Vec<T>,
    last: Option<String>,
}

/// The cursor of the last of `items`, if there is one.
pub open spec fn last_cursor<T: CursorDefault>(items: Seq<T>) -> Option<Seq<char>> {
    if items.len() == 0 {
        None
    } else {
        Some(items.last().cursor())
    }
}

impl<T: CursorDefault> PagedResponse<T> {
    /// The items of the page.
    pub closed spec fn items(&self) -> Seq<T> {
        self.data@
    }

    /// The cursor of the page.
    pub closed spec fn cursor(&self) -> Option<Seq<char>> {
        match self.last {
            Some(text) => Some(text@),
            None => None,
        }
    }

    /// The page of `data`; its cursor is that of the last item.
    pub fn new(data: Vec<T>) -> (r: Self)
        ensures
            r.items() == data@,
            r.cursor() == last_cursor(data@),
    {
        let last = if data.len() == 0 {
            None
        } else {
            Some(data[data.len() - 1].id())
        };
        Self { data, last }
    }

    /// The items of the page.
    pub fn data(&self) -> (r: &Vec<T>)
        ensures
            r@ == self.items(),
    {
        &self.data
    }

    /// The cursor behind which the next page begins.
    pub fn last(&self) -> (r: &Option<String>)
        ensures
            crate::record::text_of(*r) == self.cursor(),
    {
        &self.last
    }
}

/// The mathematical value of a [`UrlRedirect`].
pub ghost struct RedirectView {
    pub id: u128,
    pub key: Seq<char>,
    pub target: Seq<char>,
}

/// A redirect as callers see it: identifier, key and target.
#[derive(Debug)]
pub struct UrlRedirect {
    id: u128,
    key: String,
    pub target: String,
}

impl View for UrlRedirect {
    type V = RedirectView;

    closed spec fn view(&self) -> RedirectView {
        RedirectView { id: self.id, key: self.key@, target: self.target@ }
    }
}

impl Clone for UrlRedirect {
    fn clone(&self) -> (r: Self)
        ensures
            r@ == self@,
    {
        UrlRedirect { id: self.id, key: self.key.clone(), target: self.target.clone() }
    }
}

impl CursorDefault for UrlRedirect {
    closed spec fn cursor(&self) -> Seq<char> {
        self.key@
    }

    fn id(&self) -> (r: String) {
        self.key.clone()
    }
}

/// What callers see of a stored row.
pub open spec fn shown(row: RecordView) -> RedirectView {
    RedirectView { id: row.id, key: row.key, target: row.target }
}

/// What callers see of a list of rows.
pub open spec fn all_shown(rows: Seq<RecordView>) -> Seq<RedirectView> {
    Seq::new(rows.len(), |i: int| shown(rows[i]))
}

/// The values of a list of redirects.
pub open spec fn redirects_of(items: Seq<UrlRedirect>) -> Seq<RedirectView> {
    Seq::new(items.len(), |i: int| items[i]@)
}

/// The value of an optional redirect.
pub open spec fn redirect_of(item: Option<UrlRedirect>) -> Option<RedirectView> {
    match item {
        Some(r) => Some(r@),
        None => None,
    }
}

impl From<RedirectRecord> for UrlRedirect {
    /// What callers see of `record`.
    fn from(record: RedirectRecord) -> (r: Self)
        ensures
            r@ == shown(record@),
    {
        Self::new(record.id, record.key, record.target)
    }
}

/// The conversion is specified over views, by [`shown`].
impl vstd::std_specs::convert::FromSpecImpl<RedirectRecord> for UrlRedirect {
    open spec fn obeys_from_spec() -> bool {
        false
    }

    open spec fn from_spec(record: RedirectRecord) -> UrlRedirect {
        arbitrary()
    }
}

impl UrlRedirect {
    /// The redirect with this identifier, key and target.
    pub fn new(id: u128, key: String, target: String) -> (r: Self)
        ensures
            r@ == (RedirectView { id, key: key@, target: target@ }),
    {
        Self { id, key, target }
    }

    /// The identifier of the redirect.
    pub fn identifier(&self) -> (r: u128)
        ensures
            r == self@.id,
    {
        self.id
    }

    /// The key of the redirect.
    pub fn key(&self) -> (r: &str)
        ensures
            r@ == self@.key,
    {
        self.key.as_str()
    }

    /// The target of the redirect.
    pub fn target(&self) -> (r: &str)
        ensures
            r@ == self@.target,
    {
        self.target.as_str()
    }

    /// The cursor of a redirect is its key.
    pub proof fn lemma_cursor_is_key(&self)
        ensures
            self.cursor() == self@.key,
    {
    }
}

} // verus!
