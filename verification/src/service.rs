//! The redirect repository: creation with conflict detection, lookups
//! scoped by owner, pages behind a cursor, updates and deletions.

use vstd::prelude::*;
use crate::database::{description, store_error_of, violation_message};
use crate::key::{valid_key, RedirectKey};
use crate::record::{rewritten_view, text_of, RecordView, RedirectRecord};
use crate::responses::{all_shown, redirect_of, redirects_of, shown, RedirectView, UrlRedirect};
use crate::system::{fresh_id, is_random_identifier, now_micros};
use crate::table::{
    consistent, holds_id, holds_key, inserted, is_page, key_taken_by_other, position_of, row_owned,
    row_with_key, views_of, RedirectTable, StoreError, StoreErrorView, ID_CONSTRAINT,
    KEY_CONSTRAINT,
};
use crate::text::{bytes_of, contains_text, occurs_at, text_contains};

verus! {

/// The mathematical value of an [`InsertError`].
pub ghost enum InsertErrorView {
    Database(StoreErrorView),
    KeyAlreadyExists,
}

/// Why a redirect could not be written.
#[derive(Debug)]
pub enum InsertError {
    /// The store failed; the cause is for the server's log only.
    Database(StoreError),
    /// Another redirect has the key.
    KeyAlreadyExists,
}

impl View for InsertError {
    type V = InsertErrorView;

    open spec fn view(&self) -> InsertErrorView {
        match self {
            InsertError::Database(cause) => InsertErrorView::Database(cause@),
            InsertError::KeyAlreadyExists => InsertErrorView::KeyAlreadyExists,
        }
    }
}

/// The write error for a store error: a uniqueness violation whose message
/// names the constraint on keys is a conflict, all else a database failure.
pub open spec fn insert_error_of(cause: StoreErrorView) -> InsertErrorView {
    match cause {
        StoreErrorView::UniqueViolation(message) => if text_contains(message, KEY_CONSTRAINT@) {
            InsertErrorView::KeyAlreadyExists
        } else {
            InsertErrorView::Database(cause)
        },
        _ => InsertErrorView::Database(cause),
    }
}

impl From<StoreError> for InsertError {
    fn from(error: StoreError) -> (r: InsertError)
        ensures
            r@ == insert_error_of(error@),
    {
        let conflict = match &error {
            StoreError::UniqueViolation(message) => contains_text(message.as_str(), KEY_CONSTRAINT),
            _ => false,
        };
        if conflict {
            InsertError::KeyAlreadyExists
        } else {
            InsertError::Database(error)
        }
    }
}

/// The conversion is specified over views, by [`insert_error_of`].
impl vstd::std_specs::convert::FromSpecImpl<StoreError> for InsertError {
    open spec fn obeys_from_spec() -> bool {
        false
    }

    open spec fn from_spec(error: StoreError) -> InsertError {
        arbitrary()
    }
}

impl From<sea_orm::DbErr> for InsertError {
    fn from(error: sea_orm::DbErr) -> (r: InsertError)
        ensures
            r@ == insert_error_of(store_error_of(violation_message(error), description(error))),
    {
        let cause = StoreError::from_db(error);
        let r: InsertError = From::from(cause);
        r
    }
}

/// The conversion is specified over views, by [`insert_error_of`] and
/// [`store_error_of`].
impl vstd::std_specs::convert::FromSpecImpl<sea_orm::DbErr> for InsertError {
    open spec fn obeys_from_spec() -> bool {
        false
    }

    open spec fn from_spec(error: sea_orm::DbErr) -> InsertError {
        arbitrary()
    }
}

/// What the caller is told of a write error: the status and the text. The
/// cause of a database failure is not told.
pub open spec fn insert_error_reply(error: InsertErrorView) -> (u16, Seq<char>) {
    match error {
        InsertErrorView::Database(_) => (500, "internal server error"@),
        InsertErrorView::KeyAlreadyExists => (409, "key already exists"@),
    }
}

impl InsertError {
    /// The status and the text that the caller is told.
    pub fn into_response(self) -> (r: (u16, String))
        ensures
            (r.0, r.1@) == insert_error_reply(self@),
    {
        match self {
            InsertError::Database(_) => (500, "internal server error".to_owned()),
            InsertError::KeyAlreadyExists => (409, "key already exists".to_owned()),
        }
    }
}

/// The mathematical value of a [`QueryError`].
pub ghost enum QueryErrorView {
    Database(StoreErrorView),
}

/// Why a redirect could not be read.
#[derive(Debug)]
pub enum QueryError {
    /// The store failed; the cause is for the server's log only.
    Database(StoreError),
}

impl View for QueryError {
    type V = QueryErrorView;

    open spec fn view(&self) -> QueryErrorView {
        match self {
            QueryError::Database(cause) => QueryErrorView::Database(cause@),
        }
    }
}

impl From<sea_orm::DbErr> for QueryError {
    fn from(error: sea_orm::DbErr) -> (r: QueryError)
        ensures
            r@ == QueryErrorView::Database(
                store_error_of(violation_message(error), description(error)),
            ),
    {
        QueryError::Database(StoreError::from_db(error))
    }
}

/// The conversion is specified over views, by [`store_error_of`].
impl vstd::std_specs::convert::FromSpecImpl<sea_orm::DbErr> for QueryError {
    open spec fn obeys_from_spec() -> bool {
        false
    }

    open spec fn from_spec(error: sea_orm::DbErr) -> QueryError {
        arbitrary()
    }
}

impl QueryError {
    /// The status and the text that the caller is told, whatever the cause.
    pub fn into_response(self) -> (r: (u16, String))
        ensures
            r.0 == 500,
            r.1@ == "internal server error"@,
    {
        (500, "internal server error".to_owned())
    }
}

/// The mathematical value of a [`NewUrlRedirect`].
pub ghost struct NewRedirectView {
    pub user_email: Seq<char>,
    pub key: Seq<char>,
    pub target: Seq<char>,
}

/// A redirect to be written: the owner, the validated key and the target.
#[derive(Debug)]
pub struct NewUrlRedirect {
    user_email: String,
    key: RedirectKey,
    target: String,
}

impl View for NewUrlRedirect {
    type V = NewRedirectView;

    closed spec fn view(&self) -> NewRedirectView {
        NewRedirectView { user_email: self.user_email@, key: self.key@, target: self.target@ }
    }
}

impl Clone for NewUrlRedirect {
    fn clone(&self) -> (r: Self)
        ensures
            r@ == self@,
    {
        NewUrlRedirect {
            user_email: self.user_email.clone(),
            key: self.key.clone(),
            target: self.target.clone(),
        }
    }
}

/// The mathematical value of a [`NewRow`], which is that of the row once it
/// is stored at `now`.
pub open spec fn row_of(new_url: NewRedirectView, id: u128, now: i64) -> RecordView {
    RecordView {
        id,
        user_email: new_url.user_email,
        key: new_url.key,
        target: new_url.target,
        created_at: now,
        updated_at: now,
    }
}

/// A row to be inserted: a new redirect with the identifier chosen for it.
#[derive(Debug)]
pub struct NewRow {
    pub id: u128,
    pub user_email: String,
    pub key: String,
    pub target: String,
}

impl NewRow {
    /// The record that the store holds once it has inserted the row at
    /// `now`.
    pub fn stored_at(self, now: i64) -> (r: RedirectRecord)
        ensures
            r@ == (RecordView {
                id: self.id,
                user_email: self.user_email@,
                key: self.key@,
                target: self.target@,
                created_at: now,
                updated_at: now,
            }),
    {
        RedirectRecord {
            id: self.id,
            user_email: self.user_email,
            key: self.key,
            target: self.target,
            created_at: now,
            updated_at: now,
        }
    }
}

impl NewUrlRedirect {
    /// The redirect that `user_email` wants to write.
    pub fn new(user_email: String, key: RedirectKey, target: String) -> (r: Self)
        ensures
            r@ == (NewRedirectView { user_email: user_email@, key: key@, target: target@ }),
    {
        Self { user_email, key, target }
    }

    /// The owner.
    pub fn user_email(&self) -> (r: &str)
        ensures
            r@ == self@.user_email,
    {
        self.user_email.as_str()
    }

    /// The key, which meets the policy.
    pub fn key(&self) -> (r: &RedirectKey)
        ensures
            r@ == self@.key,
    {
        &self.key
    }

    /// The target.
    pub fn target(&self) -> (r: &str)
        ensures
            r@ == self@.target,
    {
        self.target.as_str()
    }

    /// The row for this redirect under the identifier `id`.
    pub fn into_row_with(self, id: u128) -> (r: NewRow)
        ensures
            r.id == id,
            r.user_email@ == self@.user_email,
            r.key@ == self@.key,
            r.target@ == self@.target,
            valid_key(r.key@),
    {
        NewRow {
            id,
            user_email: self.user_email,
            key: self.key.into_string(),
            target: self.target,
        }
    }

    /// The row for this redirect under a fresh random identifier.
    pub fn into_row(self) -> (r: NewRow)
        ensures
            is_random_identifier(r.id),
            r.user_email@ == self@.user_email,
            r.key@ == self@.key,
            r.target@ == self@.target,
            valid_key(r.key@),
    {
        let id: u128 = fresh_id();
        self.into_row_with(id)
    }
}

/// The value of what a creation gives.
pub open spec fn written(r: Result<UrlRedirect, InsertError>) -> Result<RedirectView, InsertErrorView> {
    match r {
        Ok(redirect) => Ok(redirect@),
        Err(e) => Err(e@),
    }
}

/// The value of what an update gives.
pub open spec fn rewritten(r: Result<Option<UrlRedirect>, InsertError>) -> Result<
    Option<RedirectView>,
    InsertErrorView,
> {
    match r {
        Ok(redirect) => Ok(redirect_of(redirect)),
        Err(e) => Err(e@),
    }
}

/// What callers see of an optional row.
pub open spec fn shown_if(row: Option<RecordView>) -> Option<RedirectView> {
    match row {
        Some(r) => Some(shown(r)),
        None => None,
    }
}

/// `out` lists the redirects of `owner` behind the cursor, at most `limit`
/// of them: what callers see of the page that [`is_page`] describes.
pub open spec fn lists(
    rows: Seq<RecordView>,
    owner: Seq<char>,
    after: Option<Seq<char>>,
    limit: nat,
    out: Seq<RedirectView>,
) -> bool {
    exists|page: Seq<RecordView>| #[trigger]
        is_page(rows, owner, after, limit, page) && out == all_shown(page)
}

/// What creating `new_url` under `id` at `now` does: the rows afterwards
/// and the answer. A key that is taken is a conflict, whoever owns it; an
/// identifier that is taken is a database failure; else the redirect is
/// stored and shown.
pub open spec fn created(rows: Seq<RecordView>, id: u128, new_url: NewRedirectView, now: i64) -> (
    Seq<RecordView>,
    Result<RedirectView, InsertErrorView>,
) {
    if holds_key(rows, new_url.key) {
        (rows, Err(InsertErrorView::KeyAlreadyExists))
    } else if holds_id(rows, id) {
        (
            rows,
            Err(InsertErrorView::Database(StoreErrorView::UniqueViolation(ID_CONSTRAINT@))),
        )
    } else {
        (rows.push(row_of(new_url, id, now)), Ok(shown(row_of(new_url, id, now))))
    }
}

/// What updating the redirect `id` of the owner in `new_url` at `now`
/// does: the rows afterwards and the answer. Where the owner has no such
/// redirect, nothing changes and nothing is returned; where another
/// redirect has the new key, nothing changes and the conflict is reported;
/// else key, target and update time are rewritten.
pub open spec fn updated_by(rows: Seq<RecordView>, id: u128, new_url: NewRedirectView, now: i64) -> (
    Seq<RecordView>,
    Result<Option<RedirectView>, InsertErrorView>,
) {
    match row_owned(rows, id, new_url.user_email) {
        None => (rows, Ok(None)),
        Some(old_row) => {
            let row = rewritten_view(old_row, new_url.key, new_url.target, now);
            if key_taken_by_other(rows, id, new_url.key) {
                (rows, Err(InsertErrorView::KeyAlreadyExists))
            } else {
                (rows.update(position_of(rows, id), row), Ok(Some(shown(row))))
            }
        },
    }
}

/// What deleting the redirect `id` of `owner` does: the rows afterwards and
/// the redirect as it was, or nothing where the owner has no such redirect.
pub open spec fn removed(rows: Seq<RecordView>, id: u128, owner: Seq<char>) -> (
    Seq<RecordView>,
    Option<RedirectView>,
) {
    match row_owned(rows, id, owner) {
        None => (rows, None),
        Some(row) => (rows.remove(position_of(rows, id)), Some(shown(row))),
    }
}

/// A message that is the name of the constraint on keys names it, and the
/// name of the constraint on identifiers does not.
pub proof fn lemma_constraint_names()
    ensures
        text_contains(KEY_CONSTRAINT@, KEY_CONSTRAINT@),
        !text_contains(ID_CONSTRAINT@, KEY_CONSTRAINT@),
{
    reveal_strlit("url_redirects_key_key");
    reveal_strlit("url_redirects_pkey");
    let key = bytes_of(KEY_CONSTRAINT@);
    let id = bytes_of(ID_CONSTRAINT@);
    assert(key.subrange(0, key.len() as int) =~= key);
    assert(occurs_at(key, key, 0));
    vstd::utf8::is_ascii_chars_encode_utf8(KEY_CONSTRAINT@);
    vstd::utf8::is_ascii_chars_encode_utf8(ID_CONSTRAINT@);
    assert(key.len() == 21);
    assert(id.len() == 18);
    assert forall|i: int| !occurs_at(id, key, i) by {}
}

/// The redirect repository over a table in memory.
#[derive(Debug)]
pub struct UrlService {
    table: RedirectTable,
}

impl View for UrlService {
    type V = Seq<RecordView>;

    closed spec fn view(&self) -> Seq<RecordView> {
        self.table@
    }
}

impl UrlService {
    /// The repository without redirects.
    pub fn new() -> (r: UrlService)
        ensures
            r@ == Seq::<RecordView>::empty(),
            consistent(r@),
    {
        UrlService { table: RedirectTable::new() }
    }

    /// The table that holds the redirects.
    pub fn table(&self) -> (r: &RedirectTable)
        ensures
            r@ == self@,
    {
        &self.table
    }

    /// The redirects of `user_email` with keys strictly behind `after`, in
    /// ascending order of their keys, at most `limit` of them.
    pub fn list_by_email(&self, user_email: &str, after: Option<String>, limit: u64) -> (r: Vec<
        UrlRedirect,
    >)
        ensures
            lists(self@, user_email@, text_of(after), limit as nat, redirects_of(r@)),
            consistent(self@),
    {
        let page = self.table.page(user_email, &after, limit);
        let mut out: Vec<UrlRedirect> = Vec::new();
        let mut i: usize = 0;
        while i < page.len()
            invariant
                i <= page.len(),
                out.len() == i,
                forall|j: int| 0 <= j < i ==> (#[trigger] out@[j])@ == shown(page@[j]@),
            decreases page.len() - i,
        {
            out.push(UrlRedirect::from(page[i].clone()));
            i += 1;
        }
        proof {
            assert(redirects_of(out@) =~= all_shown(views_of(page@)));
        }
        out
    }

    /// The redirect `id`, if `email` owns it.
    pub fn get_by_id_and_email(&self, id: u128, email: &str) -> (r: Option<UrlRedirect>)
        ensures
            redirect_of(r) == shown_if(row_owned(self@, id, email@)),
            consistent(self@),
    {
        match self.table.find_by_id_and_email(id, email) {
            Some(row) => Some(UrlRedirect::from(row)),
            None => None,
        }
    }

    /// The redirect with this key, whoever owns it.
    pub fn get_by_key(&self, key: &str) -> (r: Option<UrlRedirect>)
        ensures
            redirect_of(r) == shown_if(row_with_key(self@, key@)),
            consistent(self@),
    {
        match self.table.find_by_key(key) {
            Some(row) => Some(UrlRedirect::from(row)),
            None => None,
        }
    }

    /// Creates `new_url` under the identifier `id`, stamped `now`.
    pub fn create_with(&mut self, id: u128, new_url: NewUrlRedirect, now: i64) -> (r: Result<
        UrlRedirect,
        InsertError,
    >)
        ensures
            (final(self)@, written(r)) == created(old(self)@, id, new_url@, now),
            consistent(final(self)@),
    {
        proof {
            lemma_constraint_names();
        }
        let row = new_url.into_row_with(id).stored_at(now);
        match self.table.insert(row) {
            Ok(stored) => Ok(UrlRedirect::from(stored)),
            Err(e) => {
                let error: InsertError = From::from(e);
                Err(error)
            },
        }
    }

    /// Creates `new_url` under a fresh random identifier, stamped with the
    /// time of the clock. Whatever identifier and time came, a key that is
    /// taken is a conflict and leaves the redirects as they were.
    pub fn create(&mut self, new_url: NewUrlRedirect) -> (r: Result<UrlRedirect, InsertError>)
        ensures
            exists|id: u128, now: i64|
                is_random_identifier(id) && now >= 0 && (final(self)@, written(r)) == #[trigger] created(
                    old(self)@,
                    id,
                    new_url@,
                    now,
                ),
            holds_key(old(self)@, new_url@.key) ==> final(self)@ == old(self)@ && written(r) == Err::<
                RedirectView,
                InsertErrorView,
            >(InsertErrorView::KeyAlreadyExists),
            consistent(final(self)@),
    {
        let id: u128 = fresh_id();
        let now: i64 = now_micros();
        self.create_with(id, new_url, now)
    }

    /// Deletes the redirect `id` of `user_email` and returns it as it was.
    pub fn delete(&mut self, user_email: &str, id: u128) -> (r: Option<UrlRedirect>)
        ensures
            (final(self)@, redirect_of(r)) == removed(old(self)@, id, user_email@),
            consistent(final(self)@),
    {
        let url = match self.table.find_by_id_and_email(id, user_email) {
            Some(url) => url,
            None => {
                return None;
            },
        };
        let gone: u64 = self.table.delete(url.id);
        Some(UrlRedirect::from(url))
    }

    /// Rewrites key and target of the redirect `id` of the owner in
    /// `new_url`, stamped `now`.
    pub fn update_at(&mut self, id: u128, new_url: NewUrlRedirect, now: i64) -> (r: Result<
        Option<UrlRedirect>,
        InsertError,
    >)
        ensures
            (final(self)@, rewritten(r)) == updated_by(old(self)@, id, new_url@, now),
            consistent(final(self)@),
    {
        proof {
            lemma_constraint_names();
        }
        let url = match self.table.find_by_id_and_email(id, new_url.user_email()) {
            Some(url) => url,
            None => {
                return Ok(None);
            },
        };
        let row = new_url.into_row_with(id);
        let row = url.rewritten(row.key, row.target, now);
        match self.table.update(row) {
            Ok(stored) => Ok(Some(UrlRedirect::from(stored))),
            Err(e) => {
                let error: InsertError = From::from(e);
                Err(error)
            },
        }
    }

    /// Rewrites key and target of the redirect `id` of the owner in
    /// `new_url`, stamped with the time of the clock. Whatever time came,
    /// an owner without such a redirect gets nothing and changes nothing.
    pub fn update(&mut self, id: u128, new_url: NewUrlRedirect) -> (r: Result<
        Option<UrlRedirect>,
        InsertError,
    >)
        ensures
            exists|now: i64|
                now >= 0 && (final(self)@, rewritten(r)) == #[trigger] updated_by(
                    old(self)@,
                    id,
                    new_url@,
                    now,
                ),
            row_owned(old(self)@, id, new_url@.user_email) is None ==> final(self)@ == old(self)@
                && rewritten(r) == Ok::<Option<RedirectView>, InsertErrorView>(None),
            consistent(final(self)@),
    {
        let now: i64 = now_micros();
        self.update_at(id, new_url, now)
    }
}

} // verus!
