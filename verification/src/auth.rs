//! What the library decides about credentials that a caller presents.
//! Passwords and the store of tokens are the caller's.

use vstd::prelude::*;
use vstd::string::*;
use crate::common::{ErrorView, ServiceError};
use crate::models::opt_text;
use crate::text::{
    contains, from_chars, has_substring, join2, matches_at, occurs_at, same, to_chars, trim,
    trimmed,
};

verus! {

/// The scheme in front of a token in an authorization header.
pub const BEARER_PREFIX: &'static str = "Bearer ";

/// The message of a registration under an address that is taken.
pub const EMAIL_TAKEN: &'static str = "邮箱已被注册";

/// The prefix of the message of any other failed registration.
pub const REGISTRATION_FAILED: &'static str = "注册失败: ";

/// The hyphenated lower-case form of the identifier that `text` denotes,
/// if it denotes one.
pub uninterp spec fn uuid_canonical(text: Seq<char>) -> Option<Seq<char>>;

/// Reads an identifier in any of its written forms.
///
/// Trusted: calls `uuid::Uuid::parse_str` and renders what it read with
/// the type's `Display`. Both depend on the text alone.
#[verifier::external_body]
fn parse_uuid(text: &str) -> (r: Option<String>)
    ensures
        opt_text(r) == uuid_canonical(text@),
{
    uuid::Uuid::parse_str(text).ok().map(|id| id.to_string())
}

/// What follows the scheme in an authorization header, without outer
/// whitespace; `None` where the header does not begin with the scheme.
pub open spec fn bearer_payload(header: Seq<char>) -> Option<Seq<char>> {
    if occurs_at(header, BEARER_PREFIX@, 0) {
        Some(trimmed(header.subrange(BEARER_PREFIX@.len() as int, header.len() as int)))
    } else {
        None
    }
}

/// What follows the scheme in an authorization header.
pub fn bearer_text(header: &str) -> (r: Option<String>)
    ensures
        opt_text(r) == bearer_payload(header@),
{
    let chars = to_chars(header);
    let prefix = to_chars(BEARER_PREFIX);
    if prefix.len() > chars.len() || !matches_at(&chars, &prefix, 0) {
        return None;
    }
    let rest = from_chars(&chars, prefix.len(), chars.len());
    Some(trim(rest.as_str()))
}

/// The token of an authorization header: the identifier behind the
/// scheme, in hyphenated form. `None` where the header does not begin with
/// the scheme or what follows is no identifier.
pub fn bearer_token(header: &str) -> (r: Option<String>)
    ensures
        opt_text(r) == (match bearer_payload(header@) {
            Some(text) => uuid_canonical(text),
            None => None,
        }),
{
    match bearer_text(header) {
        Some(text) => parse_uuid(text.as_str()),
        None => None,
    }
}

/// Whether the user with address `email` is the administrator: an
/// administrator is configured and has this very address.
pub fn is_admin(email: &str, admin_email: &Option<String>) -> (b: bool)
    ensures
        b == (opt_text(*admin_email) == Some(email@)),
{
    match admin_email {
        Some(a) => same(a.as_str(), email),
        None => false,
    }
}

/// The message of a failed registration, from what the store reported.
pub open spec fn registration_message(cause: Seq<char>) -> Seq<char> {
    if has_substring(cause, "unique"@) || has_substring(cause, "duplicate"@) {
        EMAIL_TAKEN@
    } else {
        REGISTRATION_FAILED@ + cause
    }
}

/// The message of a failed registration: a fixed one where the store
/// reported that the address is taken, else its report under a prefix.
pub fn registration_failure(cause: &str) -> (m: String)
    ensures
        m@ == registration_message(cause@),
{
    if contains(cause, "unique") || contains(cause, "duplicate") {
        String::from_str(EMAIL_TAKEN)
    } else {
        join2(REGISTRATION_FAILED, cause)
    }
}

/// The message of a login that is refused, whatever the reason.
pub const LOGIN_REFUSED: &'static str = "邮箱或密码错误";

/// The prefix of the message of a password that could not be hashed.
pub const HASHING_FAILED: &'static str = "密码哈希失败: ";

/// Whether `hash` is a readable bcrypt hash of `password`.
pub uninterp spec fn bcrypt_accepts(password: Seq<char>, hash: Seq<char>) -> bool;

/// The lower-case form of a text.
pub uninterp spec fn lowercased(text: Seq<char>) -> Seq<char>;

/// Tests a password against a stored hash.
///
/// Trusted: calls `bcrypt::verify`, which recomputes the hash with the
/// salt and the cost that the stored hash names; a hash that cannot be
/// read counts as no match. The result depends on the two texts alone.
#[verifier::external_body]
fn password_matches(password: &str, hash: &str) -> (b: bool)
    ensures
        b == bcrypt_accepts(password@, hash@),
{
    bcrypt::verify(password, hash).unwrap_or(false)
}

/// Hashes a password under a random salt.
///
/// Trusted: calls `bcrypt::hash` with the default cost of that crate.
/// Which hash comes back depends on the salt; stated is only that
/// `bcrypt::verify` accepts the password against it, as it recomputes the
/// same hash from the salt that the hash names. A failure is handed on as
/// its message.
#[verifier::external_body]
fn bcrypt_hash(password: &str) -> (r: Result<String, String>)
    ensures
        r matches Ok(hash) ==> bcrypt_accepts(password@, hash@),
{
    bcrypt::hash(password, bcrypt::DEFAULT_COST).map_err(|e| e.to_string())
}

/// Turns a text into lower case.
///
/// Trusted: calls `str::to_lowercase`; the result depends on the text
/// alone.
#[verifier::external_body]
fn to_lowercase(text: &str) -> (r: String)
    ensures
        r@ == lowercased(text@),
{
    text.to_lowercase()
}

/// The form under which an address is stored and looked up: without
/// outer whitespace, in lower case.
pub fn normalize_email(email: &str) -> (r: String)
    ensures
        r@ == lowercased(trimmed(email@)),
{
    let t = trim(email);
    to_lowercase(t.as_str())
}

/// The hash to store for a new password. A failure of the hashing is an
/// error of authentication with the cause behind a fixed prefix.
pub fn hash_password(password: &str) -> (r: Result<String, ServiceError>)
    ensures
        r matches Ok(hash) ==> bcrypt_accepts(password@, hash@),
        r matches Err(e) ==> e@ is Auth,
{
    match bcrypt_hash(password) {
        Ok(hash) => Ok(hash),
        Err(cause) => Err(ServiceError::Auth(join2(HASHING_FAILED, cause.as_str()))),
    }
}

/// Decides a login from the hash stored for the address, if there is one.
/// The login goes through exactly where a hash is stored and accepts the
/// password; every refusal carries the same message.
pub fn check_login(password: &str, stored_hash: &Option<String>) -> (r: Result<(), ServiceError>)
    ensures
        r is Ok <==> login_accepted(password@, opt_text(*stored_hash)),
        r matches Err(e) ==> e@ == ErrorView::Auth(LOGIN_REFUSED@),
{
    match stored_hash {
        Some(hash) => if password_matches(password, hash.as_str()) {
            Ok(())
        } else {
            Err(ServiceError::Auth(String::from_str(LOGIN_REFUSED)))
        },
        None => Err(ServiceError::Auth(String::from_str(LOGIN_REFUSED))),
    }
}

/// Whether a login with `password` goes through against what is stored.
pub open spec fn login_accepted(password: Seq<char>, stored_hash: Option<Seq<char>>) -> bool {
    stored_hash matches Some(hash) && bcrypt_accepts(password, hash)
}

} // verus!
