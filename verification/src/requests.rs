//! What callers send.

use vstd::prelude::*;
use crate::key::{verdict, RedirectKey, RedirectKeyValidationFailed, Rejection};
use crate::service::{NewRedirectView, NewUrlRedirect};

verus! {

/// The page size where the caller names none.
pub const DEFAULT_PAGE_SIZE: u64 = 50;

/// The authorization code to exchange for a token.
#[derive(Debug)]
pub struct AuthRequest {
    pub authorization_code: String,
}

impl Clone for AuthRequest {
    fn clone(&self) -> (r: Self)
        ensures
            r.authorization_code@ == self.authorization_code@,
    {
        AuthRequest { authorization_code: self.authorization_code.clone() }
    }
}

/// Which page of the caller's redirects to list.
#[derive(Debug)]
pub struct ListUrl {
    /// The key behind which the page begins.
    pub after: Option<String>,
    /// The most redirects to list.
    pub limit: Option<u64>,
}

impl Clone for ListUrl {
    fn clone(&self) -> (r: Self)
        ensures
            crate::record::text_of(r.after) == crate::record::text_of(self.after),
            r.limit == self.limit,
    {
        ListUrl {
            after: match &self.after {
                Some(key) => Some(key.clone()),
                None => None,
            },
            limit: self.limit,
        }
    }
}

impl ListUrl {
    /// The page size asked for, or the default one.
    pub fn page_size(&self) -> (r: u64)
        ensures
            r == match self.limit {
                Some(limit) => limit,
                None => DEFAULT_PAGE_SIZE,
            },
    {
        match self.limit {
            Some(limit) => limit,
            None => DEFAULT_PAGE_SIZE,
        }
    }
}

/// The key of the redirect to follow.
#[derive(Debug)]
pub struct RedirectUrlPathParam {
    pub key: String,
}

impl Clone for RedirectUrlPathParam {
    fn clone(&self) -> (r: Self)
        ensures
            r.key@ == self.key@,
    {
        RedirectUrlPathParam { key: self.key.clone() }
    }
}

/// The key and the target of a redirect to write, as the caller sent them.
#[derive(Debug)]
pub struct NewUrl {
    pub key: String,
    pub target: String,
}

impl Clone for NewUrl {
    fn clone(&self) -> (r: Self)
        ensures
            r.key@ == self.key@,
            r.target@ == self.target@,
    {
        NewUrl { key: self.key.clone(), target: self.target.clone() }
    }
}

/// The value of a validated redirect, or of why the key was refused.
pub open spec fn validated(r: Result<NewUrlRedirect, RedirectKeyValidationFailed>) -> Result<
    NewRedirectView,
    Rejection,
> {
    match r {
        Ok(new_url) => Ok(new_url@),
        Err(failure) => Err(failure@),
    }
}

/// The redirect that `owner` may write from a key and a target, if the key
/// meets the policy.
pub open spec fn redirect_for(owner: Seq<char>, key: Seq<char>, target: Seq<char>) -> Result<
    NewRedirectView,
    Rejection,
> {
    match verdict(key) {
        Ok(admitted) => Ok(NewRedirectView { user_email: owner, key: admitted, target }),
        Err(rejection) => Err(rejection),
    }
}

impl NewUrl {
    /// The redirect to write for `owner`, with the key validated. The owner
    /// is the principal of the request, never a text that the caller sent.
    pub fn for_owner(self, owner: String) -> (r: Result<
        NewUrlRedirect,
        RedirectKeyValidationFailed,
    >)
        ensures
            validated(r) == redirect_for(owner@, self.key@, self.target@),
    {
        match RedirectKey::try_from(self.key) {
            Ok(key) => Ok(NewUrlRedirect::new(owner, key, self.target)),
            Err(failure) => Err(failure),
        }
    }
}

/// The identifier of the redirect to read, rewrite or delete.
#[derive(Debug, Clone, Copy)]
pub struct RedirectUrlIdPathParam {
    pub id: u128,
}

} // verus!
