//! Authentication gate: Basic (email and password) and Bearer (session
//! key) credentials, and resolution of the client address.

use vstd::prelude::*;
use base64::Engine as _;
use crate::encrypt::{Bcrypt, verify_outcome, HashError};
use crate::session::{Session, session_verdict, verify_session};
use crate::text::{
    after_prefix, colon_pair, first_field, first_comma_field, split_at_sole_colon, strip_prefix,
    trim_white_space, trimmed,
};
use crate::user::User;

verus! {

/// What the standard base64 alphabet (with padding) decodes `s` to, or
/// `None` when `s` is not valid base64.
pub uninterp spec fn base64_decoded(s: Seq<char>) -> Option<Seq<u8>>;

/// The text that `bytes` encode as UTF-8, or `None` when they are not UTF-8.
pub uninterp spec fn utf8_text(bytes: Seq<u8>) -> Option<Seq<char>>;

/// Relies on `base64::engine::general_purpose::STANDARD.decode`.
#[verifier::external_body]
fn decode_base64(s: &str) -> (r: Option<Vec<u8>>)
    ensures
        match r {
            Some(v) => base64_decoded(s@) == Some(v@),
            None => base64_decoded(s@) is None,
        },
{
    base64::engine::general_purpose::STANDARD.decode(s).ok()
}

/// Relies on `String::from_utf8`.
#[verifier::external_body]
fn text_from_utf8(bytes: Vec<u8>) -> (r: Option<String>)
    ensures
        match r {
            Some(t) => utf8_text(bytes@) == Some(t@),
            None => utf8_text(bytes@) is None,
        },
{
    String::from_utf8(bytes).ok()
}

/// Why a caller could not be authenticated.
#[derive(Debug, Clone, Copy, PartialEq, Eq)]
pub enum AuthError {
    /// The credential header is missing or cannot be parsed.
    MalformedCredentials,
    /// Well-formed credentials that lead to no valid principal: unknown
    /// user, wrong password, unknown session, or another address.
    AuthFailed,
}

/// Email and password carried by a Basic credential header.
pub struct BasicCredentials {
    pub email: String,
    pub password: String,
}

pub open spec fn opt_str_view(o: Option<&str>) -> Option<Seq<char>> {
    match o {
        Some(s) => Some(s@),
        None => None,
    }
}

/// Email and password in a Basic credential header: `Basic ` followed by
/// the base64 form of `email:password`, with exactly one `':'`.
pub open spec fn basic_credentials(header: Option<Seq<char>>) -> Option<(Seq<char>, Seq<char>)> {
    match header {
        None => None,
        Some(h) => match after_prefix(h, "Basic "@) {
            None => None,
            Some(encoded) => match base64_decoded(encoded) {
                None => None,
                Some(bytes) => match utf8_text(bytes) {
                    None => None,
                    Some(text) => colon_pair(text),
                },
            },
        },
    }
}

/// The session key in a Bearer credential header: what follows `Bearer `.
pub open spec fn bearer_token(header: Option<Seq<char>>) -> Option<Seq<char>> {
    match header {
        None => None,
        Some(h) => after_prefix(h, "Bearer "@),
    }
}

/// Extracts email and password from the credential header (`None` when
/// the request has none).
pub fn parse_basic_header(header: Option<&str>) -> (r: Result<BasicCredentials, AuthError>)
    ensures
        match r {
            Ok(c) => basic_credentials(opt_str_view(header)) == Some((c.email@, c.password@)),
            Err(e) => e == AuthError::MalformedCredentials && basic_credentials(
                opt_str_view(header),
            ) is None,
        },
{
    let h = match header {
        Some(h) => h,
        None => return Err(AuthError::MalformedCredentials),
    };
    let encoded = match strip_prefix(h, "Basic ") {
        Some(e) => e,
        None => return Err(AuthError::MalformedCredentials),
    };
    let bytes = match decode_base64(encoded) {
        Some(b) => b,
        None => return Err(AuthError::MalformedCredentials),
    };
    let text = match text_from_utf8(bytes) {
        Some(t) => t,
        None => return Err(AuthError::MalformedCredentials),
    };
    match split_at_sole_colon(text.as_str()) {
        Some((email, password)) => Ok(BasicCredentials { email, password }),
        None => Err(AuthError::MalformedCredentials),
    }
}

/// Extracts the session key from the credential header (`None` when the
/// request has none).
pub fn parse_bearer_header(header: Option<&str>) -> (r: Result<String, AuthError>)
    ensures
        match r {
            Ok(t) => bearer_token(opt_str_view(header)) == Some(t@),
            Err(e) => e == AuthError::MalformedCredentials && bearer_token(opt_str_view(header))
                is None,
        },
{
    match header {
        Some(h) => match strip_prefix(h, "Bearer ") {
            Some(t) => Ok(String::from_str(t)),
            None => Err(AuthError::MalformedCredentials),
        },
        None => Err(AuthError::MalformedCredentials),
    }
}

/// The user that Basic authentication with `password` admits, where
/// `found` is the user the email led to (if any).
pub open spec fn basic_principal(found: Option<&User>, password: Seq<char>) -> Option<Seq<char>> {
    match found {
        Some(u) => if verify_outcome(password, u.password_hash@) == Ok::<bool, HashError>(true) {
            Some(u.id@)
        } else {
            None
        },
        None => None,
    }
}

/// Basic authentication once the email has been looked up: yields the
/// user's id when the password matches the stored digest.
pub fn authenticate_basic(found: Option<&User>, password: &str) -> (r: Result<String, AuthError>)
    ensures
        match r {
            Ok(id) => basic_principal(found, password@) == Some(id@),
            Err(e) => e == AuthError::AuthFailed && basic_principal(found, password@)
                is None,
        },
{
    match found {
        Some(u) => match Bcrypt::verify(password, u.password_hash.as_str()) {
            Ok(true) => Ok(u.id.clone()),
            _ => Err(AuthError::AuthFailed),
        },
        None => Err(AuthError::AuthFailed),
    }
}

/// Bearer authentication once the session key has been looked up: yields
/// the session when it was created from `observed_ip`.
pub fn authenticate_bearer(found: Option<Session>, observed_ip: &str) -> (r: Result<Session, AuthError>)
    ensures
        match r {
            Ok(s) => session_verdict(found, observed_ip@) == Some(s),
            Err(e) => e == AuthError::AuthFailed && session_verdict(found, observed_ip@) is None,
        },
{
    match verify_session(found, observed_ip) {
        Some(s) => Ok(s),
        None => Err(AuthError::AuthFailed),
    }
}

/// The client address by policy: the first entry of the forwarded-for
/// header, else the real-IP header, else the transport peer, else
/// `unknown`.
pub open spec fn client_ip(
    forwarded: Option<Seq<char>>,
    real_ip: Option<Seq<char>>,
    peer: Option<Seq<char>>,
) -> Seq<char> {
    match forwarded {
        Some(f) => trimmed(first_field(f)),
        None => match real_ip {
            Some(r) => r,
            None => match peer {
                Some(p) => p,
                None => "unknown"@,
            },
        },
    }
}

/// Resolves the client address from the forwarded-for header, the
/// real-IP header and the transport peer address (each `None` when
/// absent).
pub fn get_client_ip(forwarded: Option<&str>, real_ip: Option<&str>, peer: Option<&str>) -> (r: String)
    ensures
        r@ == client_ip(opt_str_view(forwarded), opt_str_view(real_ip), opt_str_view(peer)),
{
    match forwarded {
        Some(f) => String::from_str(trim_white_space(first_comma_field(f))),
        None => match real_ip {
            Some(r) => String::from_str(r),
            None => match peer {
                Some(p) => String::from_str(p),
                None => String::from_str("unknown"),
            },
        },
    }
}

} // verus!
