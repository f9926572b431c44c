//! Failures of the database driver, brought into the store's own terms.

use vstd::prelude::*;
use crate::table::{StoreError, StoreErrorView};

verus! {

/// `DbErr` of sea-orm: an error of the database driver. Nothing is known of
/// what it holds but what the two names below say.
#[verifier::external_type_specification]
#[verifier::external_body]
pub struct ExDbErr(sea_orm::DbErr);

/// The message of the uniqueness violation that `error` reports, if it
/// reports one.
pub uninterp spec fn violation_message(error: sea_orm::DbErr) -> Option<Seq<char>>;

/// The description of `error`.
pub uninterp spec fn description(error: sea_orm::DbErr) -> Seq<char>;

/// `DbErr::sql_err` of sea-orm: where the driver's error carries the
/// database's code for a violated uniqueness constraint, the database's
/// message, which names the constraint; nothing for any other error.
#[verifier::external_body]
fn unique_violation(error: &sea_orm::DbErr) -> (r: Option<String>)
    ensures
        crate::record::text_of(r) == violation_message(*error),
{
    match error.sql_err() {
        Some(sea_orm::SqlErr::UniqueConstraintViolation(message)) => Some(message),
        _ => None,
    }
}

/// `to_string` on a `DbErr` of sea-orm: the error as its `Display` impl
/// writes it.
#[verifier::external_body]
fn describe(error: &sea_orm::DbErr) -> (r: String)
    ensures
        r@ == description(*error),
{
    error.to_string()
}

/// What a driver error is to the store: a uniqueness violation with the
/// database's message, or another failure with its description.
pub open spec fn store_error_of(violation: Option<Seq<char>>, detail: Seq<char>) -> StoreErrorView {
    match violation {
        Some(message) => StoreErrorView::UniqueViolation(message),
        None => StoreErrorView::Other(detail),
    }
}

impl StoreError {
    /// The store's error for a driver error.
    pub fn from_db(error: sea_orm::DbErr) -> (r: StoreError)
        ensures
            r@ == store_error_of(violation_message(error), description(error)),
    {
        match unique_violation(&error) {
            Some(message) => StoreError::UniqueViolation(message),
            None => StoreError::Other(describe(&error)),
        }
    }
}

} // verus!
