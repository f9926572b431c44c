//! Who a request comes from: the credential in its header, the token cache,
//! and what the identity provider says of a token.

use vstd::prelude::*;
use crate::cache::{cached, stored_if_absent, SlotView, TokenCache};
use crate::record::text_of;
use crate::responses::{AuthResponse, AuthResponseView};
use crate::text::{joined, push_char};

verus! {

/// The seconds that a token stays in the cache.
pub const TOKEN_TTL: u64 = 30;

/// The mathematical value of an [`AuthenticationError`].
pub ghost enum AuthErrorView {
    Unauthorized,
    Internal(Seq<char>),
}

/// Why a request is not let in.
#[derive(Debug)]
pub enum AuthenticationError {
    /// The credential is missing, malformed or rejected by the provider.
    Unauthorized,
    /// The provider could not be asked or answered out of line; the cause
    /// is for the server's log only.
    Internal(String),
}

impl View for AuthenticationError {
    type V = AuthErrorView;

    open spec fn view(&self) -> AuthErrorView {
        match self {
            AuthenticationError::Unauthorized => AuthErrorView::Unauthorized,
            AuthenticationError::Internal(cause) => AuthErrorView::Internal(cause@),
        }
    }
}

/// What the caller is told of an error: the status and the text. The cause
/// of an internal error is not told.
pub open spec fn auth_error_reply(error: AuthErrorView) -> (u16, Seq<char>) {
    match error {
        AuthErrorView::Unauthorized => (401, "unauthorized"@),
        AuthErrorView::Internal(_) => (500, "Internal Server Error"@),
    }
}

impl AuthenticationError {
    /// The status and the text that the caller is told.
    pub fn into_response(self) -> (r: (u16, String))
        ensures
            (r.0, r.1@) == auth_error_reply(self@),
    {
        match self {
            AuthenticationError::Unauthorized => (401, "unauthorized".to_owned()),
            AuthenticationError::Internal(_) => (500, "Internal Server Error".to_owned()),
        }
    }
}

/// The key under which the cache holds the principal of `token`.
pub open spec fn token_key_of(token: Seq<char>) -> Seq<char> {
    "token:"@ + token
}

/// The key under which the cache holds the principal of `token`.
pub fn token_key(token: &str) -> (r: String)
    ensures
        r@ == token_key_of(token@),
{
    joined("token:", token)
}

/// A byte that may stand in the text of a header: visible ASCII, a space
/// or a tab.
pub open spec fn visible_byte(b: u8) -> bool {
    (32 <= b && b < 127) || b == 9
}

/// The text of a header value, where all its bytes may stand in one.
pub open spec fn header_text(value: Seq<u8>) -> Option<Seq<char>> {
    if forall|i: int| 0 <= i < value.len() ==> visible_byte(#[trigger] value[i]) {
        Some(Seq::new(value.len(), |i: int| value[i] as char))
    } else {
        None
    }
}

/// The credential of a request: the text of its authorization header. A
/// request without the header, or with bytes in it that are no text, is
/// unauthorized.
pub open spec fn credential_of(header: Option<Seq<u8>>) -> Result<Seq<char>, AuthErrorView> {
    match header {
        None => Err(AuthErrorView::Unauthorized),
        Some(value) => match header_text(value) {
            Some(text) => Ok(text),
            None => Err(AuthErrorView::Unauthorized),
        },
    }
}

/// The value of an optional header.
pub open spec fn bytes_of_header(header: Option<&[u8]>) -> Option<Seq<u8>> {
    match header {
        Some(value) => Some(value@),
        None => None,
    }
}

/// The value of a credential or of what an introspection gives.
pub open spec fn principal_of(r: Result<String, AuthenticationError>) -> Result<
    Seq<char>,
    AuthErrorView,
> {
    match r {
        Ok(text) => Ok(text@),
        Err(e) => Err(e@),
    }
}

/// The text of a header value, if all its bytes may stand in one.
pub fn text_of_header(value: &[u8]) -> (r: Option<String>)
    ensures
        text_of(r) == header_text(value@),
{
    let mut out = String::new();
    let mut i: usize = 0;
    while i < value.len()
        invariant
            i <= value.len(),
            out@.len() == i,
            forall|j: int| 0 <= j < i ==> visible_byte(#[trigger] value@[j]),
            forall|j: int| 0 <= j < i ==> out@[j] == value@[j] as char,
        decreases value.len() - i,
    {
        let b: u8 = value[i];
        if !((b >= 32 && b < 127) || b == 9) {
            return None;
        }
        push_char(&mut out, b as char);
        i += 1;
    }
    assert(out@ =~= Seq::new(value@.len(), |i: int| value@[i] as char));
    Some(out)
}

/// The authenticated principal of a request.
#[derive(Debug)]
pub struct Requester {
    pub email: String,
}

impl Clone for Requester {
    fn clone(&self) -> (r: Self)
        ensures
            r.email@ == self.email@,
    {
        Requester { email: self.email.clone() }
    }
}

/// The mathematical value of a [`ProfileAnswer`].
pub ghost enum ProfileAnswerView {
    Unreachable(Seq<char>),
    Responded { status: u16, profile: Result<Seq<char>, Seq<char>> },
}

/// What came of asking the provider for the profile behind a credential.
#[derive(Debug)]
pub enum ProfileAnswer {
    /// The provider could not be reached; the text says why.
    Unreachable(String),
    /// The provider answered with `status`. `profile` is the email read
    /// from the body, or why none could be read; it counts only where the
    /// status is 200.
    Responded { status: u16, profile: Result<String, String> },
}

impl View for ProfileAnswer {
    type V = ProfileAnswerView;

    open spec fn view(&self) -> ProfileAnswerView {
        match self {
            ProfileAnswer::Unreachable(cause) => ProfileAnswerView::Unreachable(cause@),
            ProfileAnswer::Responded { status, profile } => ProfileAnswerView::Responded {
                status: *status,
                profile: match profile {
                    Ok(email) => Ok(email@),
                    Err(cause) => Err(cause@),
                },
            },
        }
    }
}

/// What a status of the provider means before the body is read: 200 lets
/// the body decide, 400 and 401 reject the credential, any other status is
/// the provider's fault.
pub open spec fn status_verdict(status: u16) -> Result<(), AuthErrorView> {
    if status == 200 {
        Ok(())
    } else if status == 400 || status == 401 {
        Err(AuthErrorView::Unauthorized)
    } else {
        Err(AuthErrorView::Internal("unexpected status code"@))
    }
}

/// Whom the provider's answer names, or why it names nobody. An answer
/// that is no answer is an internal error, never a rejection.
pub open spec fn profile_outcome(answer: ProfileAnswerView) -> Result<Seq<char>, AuthErrorView> {
    match answer {
        ProfileAnswerView::Unreachable(cause) => Err(AuthErrorView::Internal(cause)),
        ProfileAnswerView::Responded { status, profile } => match status_verdict(status) {
            Err(e) => Err(e),
            Ok(_) => match profile {
                Ok(email) => Ok(email),
                Err(cause) => Err(AuthErrorView::Internal(cause)),
            },
        },
    }
}

impl ProfileAnswer {
    /// What `status` means before the body is read.
    pub fn check_status(status: u16) -> (r: Result<(), AuthenticationError>)
        ensures
            match r {
                Ok(_) => status_verdict(status) == Ok::<(), AuthErrorView>(()),
                Err(e) => status_verdict(status) == Err::<(), AuthErrorView>(e@),
            },
    {
        if status == 200 {
            Ok(())
        } else if status == 400 || status == 401 {
            Err(AuthenticationError::Unauthorized)
        } else {
            Err(AuthenticationError::Internal("unexpected status code".to_owned()))
        }
    }

    /// Whom the answer names, or why it names nobody.
    pub fn outcome(self) -> (r: Result<String, AuthenticationError>)
        ensures
            principal_of(r) == profile_outcome(self@),
    {
        match self {
            ProfileAnswer::Unreachable(cause) => Err(AuthenticationError::Internal(cause)),
            ProfileAnswer::Responded { status, profile } => match Self::check_status(status) {
                Err(e) => Err(e),
                Ok(_) => match profile {
                    Ok(email) => Ok(email),
                    Err(cause) => Err(AuthenticationError::Internal(cause)),
                },
            },
        }
    }
}

/// A write to the token cache.
#[derive(Debug)]
pub struct CacheWrite {
    pub key: String,
    pub value: String,
    /// The seconds after which the text expires.
    pub expires_in: u64,
    /// Whether the write leaves a text that stands under the key alone.
    pub only_if_absent: bool,
}

/// What an introspection does to the cache and gives: on a hit the cached
/// principal, without asking the provider; on a miss what the provider's
/// answer says, and where it names a principal, that principal is written
/// to the cache unless a text stands there.
pub open spec fn introspected(
    cache: Map<Seq<char>, SlotView>,
    header: Seq<char>,
    answer: ProfileAnswerView,
    now: u64,
) -> (Map<Seq<char>, SlotView>, IntrospectionView) {
    match cached(cache, token_key_of(header), now) {
        Some(email) => (cache, IntrospectionView { outcome: Ok(email), provider_called: false }),
        None => match profile_outcome(answer) {
            Ok(email) => (
                stored_if_absent(cache, token_key_of(header), email, TOKEN_TTL, now).0,
                IntrospectionView { outcome: Ok(email), provider_called: true },
            ),
            Err(e) => (cache, IntrospectionView { outcome: Err(e), provider_called: true }),
        },
    }
}

/// The mathematical value of an [`Introspection`].
pub ghost struct IntrospectionView {
    pub outcome: Result<Seq<char>, AuthErrorView>,
    pub provider_called: bool,
}

/// What an introspection gave, and whether the provider was asked for it.
#[derive(Debug)]
pub struct Introspection {
    pub outcome: Result<String, AuthenticationError>,
    pub provider_called: bool,
}

impl View for Introspection {
    type V = IntrospectionView;

    open spec fn view(&self) -> IntrospectionView {
        IntrospectionView {
            outcome: principal_of(self.outcome),
            provider_called: self.provider_called,
        }
    }
}

/// The mathematical value of a [`TokenRequest`].
pub ghost struct TokenRequestView {
    pub grant_type: Seq<char>,
    pub client_id: Seq<char>,
    pub client_secret: Seq<char>,
    pub redirect_uri: Seq<char>,
    pub code: Seq<char>,
}

/// The form that exchanges an authorization code for a token.
#[derive(Debug)]
pub struct TokenRequest {
    pub grant_type: String,
    pub client_id: String,
    pub client_secret: String,
    pub redirect_uri: String,
    pub code: String,
}

impl View for TokenRequest {
    type V = TokenRequestView;

    open spec fn view(&self) -> TokenRequestView {
        TokenRequestView {
            grant_type: self.grant_type@,
            client_id: self.client_id@,
            client_secret: self.client_secret@,
            redirect_uri: self.redirect_uri@,
            code: self.code@,
        }
    }
}

/// The mathematical value of a [`TokenAnswer`].
pub ghost enum TokenAnswerView {
    Unreachable(Seq<char>),
    Responded { status: u16, token: Result<AuthResponseView, Seq<char>> },
}

/// What came of asking the provider to exchange an authorization code.
#[derive(Debug)]
pub enum TokenAnswer {
    /// The provider could not be reached; the text says why.
    Unreachable(String),
    /// The provider answered with `status`. `token` is the token read from
    /// the body, or why none could be read; it counts only where the status
    /// is 200.
    Responded { status: u16, token: Result<AuthResponse, String> },
}

impl View for TokenAnswer {
    type V = TokenAnswerView;

    open spec fn view(&self) -> TokenAnswerView {
        match self {
            TokenAnswer::Unreachable(cause) => TokenAnswerView::Unreachable(cause@),
            TokenAnswer::Responded { status, token } => TokenAnswerView::Responded {
                status: *status,
                token: match token {
                    Ok(response) => Ok(response@),
                    Err(cause) => Err(cause@),
                },
            },
        }
    }
}

/// What a status of the provider means for an exchange before the body is
/// read: 200 lets the body decide, 400 rejects the code, any other status
/// is the provider's fault.
pub open spec fn exchange_status_verdict(status: u16) -> Result<(), AuthErrorView> {
    if status == 200 {
        Ok(())
    } else if status == 400 {
        Err(AuthErrorView::Unauthorized)
    } else {
        Err(AuthErrorView::Internal("unexpected status code"@))
    }
}

/// What the provider's answer to an exchange means: the token of the body
/// where the status lets the body decide, else what the status means; an
/// answer that is no answer is an internal error.
pub open spec fn exchange_outcome(answer: TokenAnswerView) -> Result<AuthResponseView, AuthErrorView> {
    match answer {
        TokenAnswerView::Unreachable(cause) => Err(AuthErrorView::Internal(cause)),
        TokenAnswerView::Responded { status, token } => match exchange_status_verdict(status) {
            Err(e) => Err(e),
            Ok(_) => match token {
                Ok(response) => Ok(response),
                Err(cause) => Err(AuthErrorView::Internal(cause)),
            },
        },
    }
}

impl TokenAnswer {
    /// What `status` means before the body is read.
    pub fn check_status(status: u16) -> (r: Result<(), AuthenticationError>)
        ensures
            match r {
                Ok(_) => exchange_status_verdict(status) == Ok::<(), AuthErrorView>(()),
                Err(e) => exchange_status_verdict(status) == Err::<(), AuthErrorView>(e@),
            },
    {
        if status == 200 {
            Ok(())
        } else if status == 400 {
            Err(AuthenticationError::Unauthorized)
        } else {
            Err(AuthenticationError::Internal("unexpected status code".to_owned()))
        }
    }
}

/// The value of what an exchange gives.
pub open spec fn exchanged(r: Result<AuthResponse, AuthenticationError>) -> Result<
    AuthResponseView,
    AuthErrorView,
> {
    match r {
        Ok(response) => Ok(response@),
        Err(e) => Err(e@),
    }
}

/// The mathematical value of an [`AuthenticationService`].
pub ghost struct ServiceView {
    pub host: Seq<char>,
    pub client_id: Seq<char>,
    pub client_secret: Seq<char>,
    pub redirect_uri: Seq<char>,
    pub cache: Map<Seq<char>, SlotView>,
}

/// The identity verifier: the provider's address, this client's
/// registration with it, and the token cache.
#[derive(Debug)]
pub struct AuthenticationService {
    host: String,
    client_id: String,
    client_secret: String,
    redirect_uri: String,
    cache: TokenCache,
}

impl View for AuthenticationService {
    type V = ServiceView;

    closed spec fn view(&self) -> ServiceView {
        ServiceView {
            host: self.host@,
            client_id: self.client_id@,
            client_secret: self.client_secret@,
            redirect_uri: self.redirect_uri@,
            cache: self.cache@,
        }
    }
}

impl AuthenticationService {
    /// The verifier for the provider at `host`, registered there under
    /// `client_id`, over `cache`.
    pub fn new(
        host: String,
        client_id: String,
        client_secret: String,
        redirect_uri: String,
        cache: TokenCache,
    ) -> (r: Self)
        ensures
            r@ == (ServiceView {
                host: host@,
                client_id: client_id@,
                client_secret: client_secret@,
                redirect_uri: redirect_uri@,
                cache: cache@,
            }),
    {
        Self { host, client_id, client_secret, redirect_uri, cache }
    }

    /// The address at which the provider tells whose a credential is.
    pub fn profile_url(&self) -> (r: String)
        ensures
            r@ == self@.host + "/profile"@,
    {
        joined(self.host.as_str(), "/profile")
    }

    /// The address at which the provider exchanges authorization codes.
    pub fn token_url(&self) -> (r: String)
        ensures
            r@ == self@.host + "/oauth2/token"@,
    {
        joined(self.host.as_str(), "/oauth2/token")
    }

    /// The principal that a read of the cache gave. A read that failed is
    /// a miss like any other.
    pub fn cache_hit(lookup: Result<Option<String>, String>) -> (r: Option<String>)
        ensures
            r == match lookup {
                Ok(found) => found,
                Err(_) => None::<String>,
            },
    {
        match lookup {
            Ok(found) => found,
            Err(_) => None,
        }
    }

    /// The write that caches `email` as the principal of `header`: for
    /// [`TOKEN_TTL`] seconds, and only if nothing stands there.
    pub fn cache_write(header: &str, email: &str) -> (r: CacheWrite)
        ensures
            r.key@ == token_key_of(header@),
            r.value@ == email@,
            r.expires_in == TOKEN_TTL,
            r.only_if_absent,
    {
        CacheWrite {
            key: token_key(header),
            value: email.to_owned(),
            expires_in: TOKEN_TTL,
            only_if_absent: true,
        }
    }

    /// Tells whose the credential `header` is, at the second `now`. The
    /// cache is read first; only on a miss does `answer`, the provider's
    /// answer to this credential, count, and a principal that it names is
    /// cached.
    pub fn introspect_token(&mut self, header: &str, answer: ProfileAnswer, now: u64) -> (r:
        Introspection)
        ensures
            (final(self)@.cache, r@) == introspected(old(self)@.cache, header@, answer@, now),
            final(self)@ == (ServiceView { cache: final(self)@.cache, ..old(self)@ }),
    {
        let key = token_key(header);
        match Self::cache_hit(Ok(self.cache.get(key.as_str(), now))) {
            Some(email) => {
                return Introspection { outcome: Ok(email), provider_called: false };
            },
            None => {},
        }
        match answer.outcome() {
            Ok(email) => {
                let write = Self::cache_write(header, email.as_str());
                let wrote: bool = self.cache.set_if_absent(
                    write.key.as_str(),
                    write.value.as_str(),
                    write.expires_in,
                    now,
                );
                Introspection { outcome: Ok(email), provider_called: true }
            },
            Err(e) => Introspection { outcome: Err(e), provider_called: true },
        }
    }

    /// The form that exchanges `authorization_code` for a token.
    pub fn token_request(&self, authorization_code: &str) -> (r: TokenRequest)
        ensures
            r@ == (TokenRequestView {
                grant_type: "authorization_code"@,
                client_id: self@.client_id,
                client_secret: self@.client_secret,
                redirect_uri: self@.redirect_uri,
                code: authorization_code@,
            }),
    {
        TokenRequest {
            grant_type: "authorization_code".to_owned(),
            client_id: self.client_id.clone(),
            client_secret: self.client_secret.clone(),
            redirect_uri: self.redirect_uri.clone(),
            code: authorization_code.to_owned(),
        }
    }

    /// The token that the provider's answer to an exchange holds, or why it
    /// holds none.
    pub fn exchange_token(answer: TokenAnswer) -> (r: Result<AuthResponse, AuthenticationError>)
        ensures
            exchanged(r) == exchange_outcome(answer@),
    {
        match answer {
            TokenAnswer::Unreachable(cause) => Err(AuthenticationError::Internal(cause)),
            TokenAnswer::Responded { status, token } => match TokenAnswer::check_status(status) {
                Err(e) => Err(e),
                Ok(_) => match token {
                    Ok(response) => Ok(response),
                    Err(cause) => Err(AuthenticationError::Internal(cause)),
                },
            },
        }
    }
}

/// What resolving the principal of a request does to the cache and gives.
/// Without a credential the request is unauthorized at once: the cache and
/// the provider have no part in it.
pub open spec fn resolved(
    cache: Map<Seq<char>, SlotView>,
    header: Option<Seq<u8>>,
    answer: ProfileAnswerView,
    now: u64,
) -> (Map<Seq<char>, SlotView>, IntrospectionView) {
    match credential_of(header) {
        Err(e) => (cache, IntrospectionView { outcome: Err(e), provider_called: false }),
        Ok(credential) => introspected(cache, credential, answer, now),
    }
}

impl Requester {
    /// The credential of a request, from its authorization header.
    pub fn credential(header: Option<&[u8]>) -> (r: Result<String, AuthenticationError>)
        ensures
            principal_of(r) == credential_of(bytes_of_header(header)),
    {
        match header {
            None => Err(AuthenticationError::Unauthorized),
            Some(value) => match text_of_header(value) {
                Some(text) => Ok(text),
                None => Err(AuthenticationError::Unauthorized),
            },
        }
    }

    /// The principal of a request with this authorization header, at the
    /// second `now`; `answer` is the provider's answer to the credential.
    pub fn from_request_parts(
        header: Option<&[u8]>,
        state: &mut AuthenticationService,
        answer: ProfileAnswer,
        now: u64,
    ) -> (r: Result<Requester, AuthenticationError>)
        ensures
            (final(state)@.cache, requester_of(r)) == (
                resolved(old(state)@.cache, bytes_of_header(header), answer@, now).0,
                resolved(old(state)@.cache, bytes_of_header(header), answer@, now).1.outcome,
            ),
            final(state)@ == (ServiceView { cache: final(state)@.cache, ..old(state)@ }),
    {
        let credential = match Self::credential(header) {
            Ok(text) => text,
            Err(e) => {
                return Err(e);
            },
        };
        match state.introspect_token(credential.as_str(), answer, now).outcome {
            Ok(email) => Ok(Requester { email }),
            Err(e) => Err(e),
        }
    }
}

/// The value of what resolving a principal gives.
pub open spec fn requester_of(r: Result<Requester, AuthenticationError>) -> Result<
    Seq<char>,
    AuthErrorView,
> {
    match r {
        Ok(requester) => Ok(requester.email@),
        Err(e) => Err(e@),
    }
}

} // verus!
