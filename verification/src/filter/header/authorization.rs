//! The `Authorization` header: bearer tokens and the users they authenticate.
use vstd::prelude::*;

use crate::database::user::{User, UserSpecifier};
use crate::text::{chars_eq_str, chars_of, pos_of, split_once, split_once_spec, string_of};

use crate::clock::unix_time_now;

verus! {

broadcast use vstd::string::group_string_axioms;

/// Why a bearer token failed validation.
#[derive(Debug, Clone, Copy, PartialEq, Eq, Structural)]
pub enum ValidationError {
    JWTError,
    DiscoveryError,
    NoValidKeys,
}

/// Why the `Authorization` header was refused.
#[derive(Debug, Clone, Copy, PartialEq, Eq, Structural)]
pub enum BearerError {
    Invalid,
    MissingScheme,
    MissingToken,
    ValidationError(ValidationError),
}

impl BearerError {
    /// The status of the response: 400 for a malformed header, 401 for a token
    /// that does not validate, 500 when the keys to validate it with are missing.
    pub fn status_code(&self) -> (r: u16)
        ensures
            r == (match self {
                BearerError::Invalid => 400u16,
                BearerError::MissingScheme => 400u16,
                BearerError::MissingToken => 400u16,
                BearerError::ValidationError(ValidationError::JWTError) => 401u16,
                BearerError::ValidationError(ValidationError::DiscoveryError) => 500u16,
                BearerError::ValidationError(ValidationError::NoValidKeys) => 500u16,
            }),
    {
        match self {
            BearerError::Invalid => 400,
            BearerError::MissingScheme => 400,
            BearerError::MissingToken => 400,
            BearerError::ValidationError(ValidationError::JWTError) => 401,
            BearerError::ValidationError(ValidationError::DiscoveryError) => 500,
            BearerError::ValidationError(ValidationError::NoValidKeys) => 500,
        }
    }
}

/// The token of an `Authorization` value: the scheme is the text before the
/// first space and must be `Bearer`; the token is everything after that space.
pub open spec fn bearer_token_spec(value: Seq<char>) -> Result<Seq<char>, BearerError> {
    let scheme = value.take(pos_of(value, ' '));
    if scheme != "Bearer"@ {
        Err(BearerError::Invalid)
    } else {
        match split_once_spec(value, ' ') {
            Some((_, token)) => Ok(token),
            None => Err(BearerError::MissingToken),
        }
    }
}

/// Reads the token out of an `Authorization` header value: the text after
/// its first space, where the text before it names the bearer scheme.
pub fn bearer_token(value: &str) -> (r: Result<String, BearerError>)
    ensures
        match r {
            Ok(t) => bearer_token_spec(value@) == Ok::<Seq<char>, BearerError>(t@),
            Err(e) => bearer_token_spec(value@) == Err::<Seq<char>, BearerError>(e),
        },
{
    let cs = chars_of(value);
    let cut = crate::text::find_char(cs.as_slice(), 0, ' ');
    assert(cs@.skip(0) == cs@);
    let scheme = crate::text::sub_chars(cs.as_slice(), 0, cut);
    if !chars_eq_str(scheme.as_slice(), "Bearer") {
        return Err(BearerError::Invalid);
    }
    match split_once(cs.as_slice(), ' ') {
        Some((_, token)) => Ok(string_of(token.as_slice())),
        None => Err(BearerError::MissingToken),
    }
}

/// A user lacks a permission that a request needs.
#[derive(Debug, Clone, Copy, PartialEq, Eq, Structural)]
pub enum PermissionsError {
    MissingPermission,
}

/// A validated bearer token: when it expires (seconds after the Unix epoch),
/// and whom it names.
#[derive(Debug)]
pub struct Bearer {
    pub valid_until: u64,
    pub subject: String,
    pub username: String,
}

impl Bearer {
    /// The bearer of a validated token's claims: expiry, subject and preferred
    /// username.
    pub fn from_claims(exp: u64, sub: String, preferred_username: String) -> (r: Self)
        ensures
            r.valid_until == exp,
            r.subject@ == sub@,
            r.username@ == preferred_username@,
    {
        Self { valid_until: exp, subject: sub, username: preferred_username }
    }

    /// The authenticated user that the token stands for, valid as long as the
    /// token is; the user must be the token's subject.
    pub fn into_user(self, user: &User) -> (r: AuthenticatedUser)
        requires
            user.subject@ == self.subject@,
        ensures
            r.user == user.id,
            r.valid_until == self.valid_until,
    {
        AuthenticatedUser { user: *user.specifier(), valid_until: self.valid_until }
    }
}

/// A user authenticated by a bearer token, until the token expires.
#[derive(Debug)]
pub struct AuthenticatedUser {
    pub user: UserSpecifier,
    pub valid_until: u64,
}

impl AuthenticatedUser {
    /// Whether the token is still valid at a clock reading: a reading before
    /// the epoch is before any expiry; otherwise the whole seconds elapsed must
    /// be fewer than the expiry's.
    pub fn is_valid_at(&self, now: Option<u64>) -> (r: bool)
        ensures
            r == (match now {
                None => true,
                Some(secs) => secs < self.valid_until,
            }),
    {
        match now {
            None => true,
            Some(secs) => secs < self.valid_until,
        }
    }

    /// Whether the token is still valid now: `is_valid_at` the clock's reading.
    /// What it returns depends on the clock alone, so nothing is stated of it.
    pub fn is_valid(&self) -> bool {
        let now = unix_time_now();
        self.is_valid_at(now)
    }

    /// The specifier of the authenticated user.
    pub fn specifier(&self) -> (r: &UserSpecifier)
        ensures
            *r == self.user,
    {
        &self.user
    }
}

} // verus!
