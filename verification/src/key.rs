//! The short key of a redirect and the policy that admits one.

use vstd::prelude::*;
use vstd::string::*;
use vstd::utf8::*;
use crate::text::{bytes_of, push_char};

verus! {

/// The longest key admitted, in bytes of UTF-8.
pub const MAX_KEY_LENGTH: usize = 100;

/// The characters a key is made of: ASCII letters, digits, `-` and `_`.
pub open spec fn allowed_char(c: char) -> bool {
    ('a' <= c && c <= 'z') || ('A' <= c && c <= 'Z') || ('0' <= c && c <= '9') || c == '-' || c
        == '_'
}

/// The characters of `s` that no key may hold, in the order and number in
/// which they stand in `s`.
pub open spec fn offending(s: Seq<char>) -> Seq<char> {
    s.filter(|c: char| !allowed_char(c))
}

/// The policy: at most a hundred characters, each of them allowed.
pub open spec fn valid_key(s: Seq<char>) -> bool {
    s.len() <= MAX_KEY_LENGTH && forall|i: int| 0 <= i < s.len() ==> allowed_char(#[trigger] s[i])
}

/// What the validator says of a text. The length is tested first, on the
/// UTF-8 bytes; then the characters.
pub open spec fn verdict(s: Seq<char>) -> Result<Seq<char>, Rejection> {
    if bytes_of(s).len() > MAX_KEY_LENGTH {
        Err(Rejection::TooLong)
    } else if offending(s).len() > 0 {
        Err(Rejection::InvalidCharacters(offending(s)))
    } else {
        Ok(s)
    }
}

/// The mathematical value of a [`RedirectKeyValidationFailed`].
pub ghost enum Rejection {
    TooLong,
    InvalidCharacters(Seq<char>),
}

/// Why a text is no key.
#[derive(Debug)]
pub enum RedirectKeyValidationFailed {
    /// The text is longer than [`MAX_KEY_LENGTH`] bytes.
    TooLong,
    /// The text holds these characters, which no key may hold.
    InvalidCharacters(Vec<char>),
}

impl View for RedirectKeyValidationFailed {
    type V = Rejection;

    open spec fn view(&self) -> Rejection {
        match self {
            RedirectKeyValidationFailed::TooLong => Rejection::TooLong,
            RedirectKeyValidationFailed::InvalidCharacters(chars) => Rejection::InvalidCharacters(
                chars@,
            ),
        }
    }
}

/// What the caller is told of a rejection: the status and the text, which
/// shows the characters that were refused.
pub open spec fn rejection_reply(rejection: Rejection) -> (u16, Seq<char>) {
    match rejection {
        Rejection::TooLong => (400, "too long, maximum length of a key is 100"@),
        Rejection::InvalidCharacters(chars) => (400, "invalid characters: "@ + chars),
    }
}

impl RedirectKeyValidationFailed {
    /// The status and the text that the caller is told.
    pub fn into_response(self) -> (r: (u16, String))
        ensures
            (r.0, r.1@) == rejection_reply(self@),
    {
        match self {
            RedirectKeyValidationFailed::TooLong => (
                400,
                "too long, maximum length of a key is 100".to_owned(),
            ),
            RedirectKeyValidationFailed::InvalidCharacters(chars) => {
                let mut text = "invalid characters: ".to_owned();
                let mut i: usize = 0;
                while i < chars.len()
                    invariant
                        i <= chars.len(),
                        text@ == "invalid characters: "@ + chars@.take(i as int),
                    decreases chars.len() - i,
                {
                    push_char(&mut text, chars[i]);
                    assert(chars@.take(i + 1) =~= chars@.take(i as int).push(chars@[i as int]));
                    assert(text@ =~= "invalid characters: "@ + chars@.take(i + 1));
                    i += 1;
                }
                assert(chars@.take(chars.len() as int) =~= chars@);
                (400, text)
            },
        }
    }
}

/// A text that the policy admits. The only way to one is [`RedirectKey::try_from`].
#[derive(Debug)]
pub struct RedirectKey {
    text: String,
}

impl View for RedirectKey {
    type V = Seq<char>;

    closed spec fn view(&self) -> Seq<char> {
        self.text@
    }
}

impl core::ops::Deref for RedirectKey {
    type Target = str;

    fn deref(&self) -> (r: &str)
        ensures
            r@ == self@,
    {
        self.text.as_str()
    }
}

impl Clone for RedirectKey {
    fn clone(&self) -> (r: Self)
        ensures
            r@ == self@,
    {
        proof {
            use_type_invariant(self);
        }
        RedirectKey { text: self.text.clone() }
    }
}

impl TryFrom<String> for RedirectKey {
    type Error = RedirectKeyValidationFailed;

    /// Validates `value`: too long a text is rejected first, then one with
    /// characters outside the policy, which are all reported.
    fn try_from(value: String) -> (r: Result<RedirectKey, RedirectKeyValidationFailed>)
        ensures
            match r {
                Ok(key) => verdict(value@) == Ok::<Seq<char>, Rejection>(key@),
                Err(failure) => verdict(value@) == Err::<Seq<char>, Rejection>(failure@),
            },
    {
        if value.as_str().as_bytes().len() > MAX_KEY_LENGTH {
            return Err(RedirectKeyValidationFailed::TooLong);
        }
        let invalid_chars = invalid_characters(value.as_str());
        if invalid_chars.len() > 0 {
            return Err(RedirectKeyValidationFailed::InvalidCharacters(invalid_chars));
        }
        proof {
            lemma_no_offender(value@);
            lemma_allowed_is_ascii(value@);
        }
        Ok(RedirectKey { text: value })
    }
}

/// The conversion is specified over views, by [`verdict`]; over the values
/// themselves it has no specification.
impl vstd::std_specs::convert::TryFromSpecImpl<String> for RedirectKey {
    open spec fn obeys_try_from_spec() -> bool {
        false
    }

    open spec fn try_from_spec(value: String) -> Result<RedirectKey, RedirectKeyValidationFailed> {
        arbitrary()
    }
}

impl RedirectKey {
    #[verifier::type_invariant]
    spec fn admitted(&self) -> bool {
        valid_key(self.text@)
    }

    /// The key as text.
    pub fn as_str(&self) -> (r: &str)
        ensures
            r@ == self@,
            valid_key(self@),
    {
        proof {
            use_type_invariant(self);
        }
        self.text.as_str()
    }

    /// The key as an owned text.
    pub fn into_string(self) -> (r: String)
        ensures
            r@ == self@,
            valid_key(self@),
    {
        proof {
            use_type_invariant(&self);
        }
        self.text
    }

}

/// The characters of `s` that the policy refuses.
pub fn invalid_characters(s: &str) -> (r: Vec<char>)
    ensures
        r@ == offending(s@),
{
    let n: usize = s.unicode_len();
    let mut out: Vec<char> = Vec::new();
    let mut i: usize = 0;
    proof {
        reveal(Seq::filter);
        assert(s@.take(0) =~= Seq::<char>::empty());
    }
    while i < n
        invariant
            i <= n,
            n == s@.len(),
            out@ == offending(s@.take(i as int)),
        decreases n - i,
    {
        let c: char = s.get_char(i);
        proof {
            reveal(Seq::filter);
            assert(s@.take(i + 1).drop_last() =~= s@.take(i as int));
            assert(s@.take(i + 1).last() == c);
        }
        if !is_allowed(c) {
            out.push(c);
        }
        i += 1;
    }
    assert(s@.take(n as int) =~= s@);
    out
}

/// Whether `c` may stand in a key.
pub fn is_allowed(c: char) -> (r: bool)
    ensures
        r == allowed_char(c),
{
    (c >= 'a' && c <= 'z') || (c >= 'A' && c <= 'Z') || (c >= '0' && c <= '9') || c == '-' || c
        == '_'
}

/// A text has no offending character exactly when all its characters are
/// allowed.
pub proof fn lemma_no_offender(s: Seq<char>)
    ensures
        (offending(s).len() == 0) <==> (forall|i: int|
            0 <= i < s.len() ==> allowed_char(#[trigger] s[i])),
    decreases s.len(),
{
    reveal(Seq::filter);
    if s.len() > 0 {
        lemma_no_offender(s.drop_last());
        if offending(s).len() == 0 {
            assert forall|i: int| 0 <= i < s.len() implies allowed_char(#[trigger] s[i]) by {
                if i < s.len() - 1 {
                    assert(s.drop_last()[i] == s[i]);
                }
            }
        } else {
            if offending(s.drop_last()).len() == 0 {
                assert(!allowed_char(s[s.len() - 1]));
            } else {
                let i = choose|i: int|
                    0 <= i < s.drop_last().len() && !allowed_char(#[trigger] s.drop_last()[i]);
                assert(s.drop_last()[i] == s[i]);
            }
        }
    }
}

/// A text of allowed characters is ASCII, so it has as many bytes as
/// characters.
pub proof fn lemma_allowed_is_ascii(s: Seq<char>)
    requires
        forall|i: int| 0 <= i < s.len() ==> allowed_char(#[trigger] s[i]),
    ensures
        is_ascii_chars(s),
        bytes_of(s).len() == s.len(),
{
    is_ascii_chars_encode_utf8(s);
}

/// The validator admits exactly the texts that meet the policy.
pub proof fn lemma_valid_is_admitted(s: Seq<char>)
    ensures
        valid_key(s) <==> verdict(s) == Ok::<Seq<char>, Rejection>(s),
{
    lemma_no_offender(s);
    if forall|i: int| 0 <= i < s.len() ==> allowed_char(#[trigger] s[i]) {
        lemma_allowed_is_ascii(s);
    }
}

} // verus!
