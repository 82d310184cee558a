//! User records and validation of registration and login requests.

use vstd::prelude::*;
use crate::encrypt::MIN_PASSWORD_CHARS;

verus! {

/// A registered user. Timestamps are milliseconds since the Unix epoch.
pub struct User {
    pub id: String,
    pub email: String,
    pub password_hash: String,
    pub icon_url: Option<String>,
    pub created_at: i64,
}

/// A registration request: email, password and the bot-check token.
pub struct CreateUserRequest {
    pub email: String,
    pub password: String,
    pub turnstile: String,
}

/// A login request: email and password.
pub struct LoginRequest {
    pub email: String,
    pub password: String,
}

/// Why a registration request was rejected before any other work.
#[derive(Debug, Clone, Copy, PartialEq, Eq)]
pub enum ValidationError {
    MissingTurnstile,
    MissingEmail,
    MissingPassword,
    /// The password is shorter than the minimum; carries its length in
    /// characters.
    WeakPassword(usize),
}

impl ValidationError {
    /// Machine-readable error code.
    pub fn code(&self) -> (r: &'static str)
        ensures
            r@ == (if self is WeakPassword {
                "WEAK_PASSWORD"@
            } else {
                "INVALID_INPUT"@
            }),
    {
        match self {
            ValidationError::WeakPassword(_) => "WEAK_PASSWORD",
            _ => "INVALID_INPUT",
        }
    }

    /// Human-readable error message.
    pub fn message(&self) -> (r: &'static str)
        ensures
            r@ == match *self {
                ValidationError::MissingTurnstile => "Turnstile token is required"@,
                ValidationError::MissingEmail => "Email is required"@,
                ValidationError::MissingPassword => "Password is required"@,
                ValidationError::WeakPassword(_) => "Password must be at least 8 characters"@,
            },
    {
        match self {
            ValidationError::MissingTurnstile => "Turnstile token is required",
            ValidationError::MissingEmail => "Email is required",
            ValidationError::MissingPassword => "Password is required",
            ValidationError::WeakPassword(_) => "Password must be at least 8 characters",
        }
    }
}

/// The first rule a registration request breaks, checked in the order
/// bot-check token, email, password presence, password length.
pub open spec fn create_user_verdict(turnstile: Seq<char>, email: Seq<char>, password: Seq<char>) -> Result<(), ValidationError> {
    if turnstile.len() == 0 {
        Err(ValidationError::MissingTurnstile)
    } else if email.len() == 0 {
        Err(ValidationError::MissingEmail)
    } else if password.len() == 0 {
        Err(ValidationError::MissingPassword)
    } else if password.len() < MIN_PASSWORD_CHARS {
        Err(ValidationError::WeakPassword(password.len() as usize))
    } else {
        Ok(())
    }
}

/// Checks that a registration request carries every field and a password
/// long enough to be hashed.
pub fn validate_create_user_input(req: &CreateUserRequest) -> (r: Result<(), ValidationError>)
    ensures
        r == create_user_verdict(req.turnstile@, req.email@, req.password@),
{
    if req.turnstile.as_str().unicode_len() == 0 {
        return Err(ValidationError::MissingTurnstile);
    }
    if req.email.as_str().unicode_len() == 0 {
        return Err(ValidationError::MissingEmail);
    }
    let n = req.password.as_str().unicode_len();
    if n == 0 {
        return Err(ValidationError::MissingPassword);
    }
    if n < MIN_PASSWORD_CHARS {
        return Err(ValidationError::WeakPassword(n));
    }
    Ok(())
}

} // verus!
