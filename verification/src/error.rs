//! The errors the backend answers with, their messages and HTTP status codes.

use vstd::prelude::*;
use vstd::string::{StrSliceExecFns, StringExecFns};
use crate::text::{joined, join};

verus! {

/// Top level error of a request.
#[derive(Clone, Debug)]
pub enum Error {
    /// A resource that must be unique was created twice.
    Duplicate(String),
    /// Something went wrong that the client should not see.
    InternalServerError,
    /// The resource does not exist.
    NotFound,
    /// Logging in failed.
    LoginError(LoginError),
    /// A token is invalid or missing.
    TokenError(TokenError),
    /// The request did not pass validation.
    ValidationError(String),
}

/// Why logging in failed.
#[derive(Clone, Debug)]
pub enum LoginError {
    UnknownUsername(String),
    UnknownEmail(String),
    InvalidPassword,
    PendingEmailVerification,
}

/// Why a token was refused.
#[derive(Clone, Copy, Debug, PartialEq, Eq, Structural)]
pub enum TokenError {
    ExpiredEmailToken,
}

/// The HTTP status code of an error.
pub open spec fn spec_status_code(e: Error) -> u16 {
    match e {
        Error::Duplicate(_) => 409,
        Error::InternalServerError => 500,
        Error::LoginError(_) | Error::TokenError(_) => 403,
        Error::NotFound => 404,
        Error::ValidationError(_) => 422,
    }
}

/// The message of a login error.
pub open spec fn login_message(e: LoginError) -> Seq<char> {
    match e {
        LoginError::UnknownUsername(name) => "no profile with username '"@ + name@ + "' was found"@,
        LoginError::UnknownEmail(email) => "no profile with email '"@ + email@ + "' was found"@,
        LoginError::InvalidPassword => "invalid password"@,
        LoginError::PendingEmailVerification => "profile is still awaiting email verification"@,
    }
}

/// The message of a token error.
pub open spec fn token_message(e: TokenError) -> Seq<char> {
    match e {
        TokenError::ExpiredEmailToken => "email confirmation token has expired"@,
    }
}

/// The message of an error, as shown to the client.
pub open spec fn error_message(e: Error) -> Seq<char> {
    match e {
        Error::Duplicate(m) => m@,
        Error::InternalServerError => "internal server error"@,
        Error::NotFound => "not found"@,
        Error::LoginError(l) => login_message(l),
        Error::TokenError(t) => token_message(t),
        Error::ValidationError(m) => m@,
    }
}

/// No underscore in `s` between `from` and `to`.
pub open spec fn no_underscore(s: Seq<char>, from: int, to: int) -> bool {
    forall|k: int| from <= k < to ==> s[k] != '_'
}

/// `s[i + 1..j]` is the second `_`-separated piece of `s`: `i` is the first
/// underscore, and `j` the next one or the end.
pub open spec fn second_piece_at(s: Seq<char>, i: int, j: int) -> bool {
    &&& 0 <= i < j <= s.len()
    &&& s[i] == '_'
    &&& no_underscore(s, 0, i)
    &&& (j == s.len() || s[j] == '_')
    &&& no_underscore(s, i + 1, j)
}

/// The answer to a violated unique constraint named `name`: the column, the
/// second `_`-separated piece of the name, is already in use; a name without
/// an underscore is an internal error.
pub open spec fn unique_violation_answer(name: Seq<char>, r: Error) -> bool {
    &&& no_underscore(name, 0, name.len() as int) ==> r == Error::InternalServerError
    &&& !no_underscore(name, 0, name.len() as int) ==> (r matches Error::Duplicate(m) && exists|i: int, j: int|
        second_piece_at(name, i, j) && m@ == name.subrange(i + 1, j) + " is already in use"@)
}

/// What went wrong in a database operation, as far as the answer to the
/// client depends on it.
#[derive(Clone, Debug)]
pub enum DatabaseFailure {
    /// No row matched.
    NotFound,
    /// A unique constraint was violated; the constraint's name.
    UniqueViolation(String),
    /// Any other failure.
    Other,
}

impl LoginError {
    /// The message of this error.
    pub fn message(&self) -> (r: String)
        ensures
            r@ == login_message(*self),
    {
        match self {
            LoginError::UnknownUsername(name) => {
                let s = String::from_str("no profile with username '");
                let s = s.concat(name.as_str());
                s.concat("' was found")
            },
            LoginError::UnknownEmail(email) => {
                let s = String::from_str("no profile with email '");
                let s = s.concat(email.as_str());
                s.concat("' was found")
            },
            LoginError::InvalidPassword => String::from_str("invalid password"),
            LoginError::PendingEmailVerification => String::from_str(
                "profile is still awaiting email verification",
            ),
        }
    }
}

impl TokenError {
    /// The message of this error.
    pub fn message(&self) -> (r: String)
        ensures
            r@ == token_message(*self),
    {
        match self {
            TokenError::ExpiredEmailToken => String::from_str("email confirmation token has expired"),
        }
    }
}

impl Error {
    /// The HTTP status code this error is answered with.
    pub fn status_code(&self) -> (r: u16)
        ensures
            r == spec_status_code(*self),
            self is LoginError || self is TokenError ==> r == 403,
    {
        match self {
            Error::Duplicate(_) => 409,
            Error::InternalServerError => 500,
            Error::LoginError(_) | Error::TokenError(_) => 403,
            Error::NotFound => 404,
            Error::ValidationError(_) => 422,
        }
    }

    /// The message of this error, as shown to the client.
    pub fn message(&self) -> (r: String)
        ensures
            r@ == error_message(*self),
    {
        match self {
            Error::Duplicate(m) => m.clone(),
            Error::InternalServerError => String::from_str("internal server error"),
            Error::NotFound => String::from_str("not found"),
            Error::LoginError(l) => l.message(),
            Error::TokenError(t) => t.message(),
            Error::ValidationError(m) => m.clone(),
        }
    }

    /// The status code and message the client receives for this error.
    pub fn response(&self) -> (r: (u16, String))
        ensures
            r.0 == spec_status_code(*self),
            r.1@ == error_message(*self),
    {
        (self.status_code(), self.message())
    }

    /// A login error as a request error.
    pub fn from_login(e: LoginError) -> (r: Error)
        ensures
            r == Error::LoginError(e),
    {
        Error::LoginError(e)
    }

    /// A token error as a request error.
    pub fn from_token(e: TokenError) -> (r: Error)
        ensures
            r == Error::TokenError(e),
    {
        Error::TokenError(e)
    }

    /// The error for a password hashing failure: a password that does not
    /// match is an invalid password, anything else is internal.
    pub fn from_hash_error(password_mismatch: bool) -> (r: Error)
        ensures
            password_mismatch ==> r == Error::LoginError(LoginError::InvalidPassword),
            !password_mismatch ==> r == Error::InternalServerError,
    {
        if password_mismatch {
            Error::LoginError(LoginError::InvalidPassword)
        } else {
            Error::InternalServerError
        }
    }

    /// The error for a violated unique constraint.  Constraint names are
    /// `{table}_{column}_{suffix}`; the column is the piece after the first
    /// underscore, and the client is told `{column} is already in use`.  A
    /// name without an underscore is an internal error.
    pub fn from_unique_violation(constraint_name: &str) -> (r: Error)
        ensures
            unique_violation_answer(constraint_name@, r),
    {
        let ghost s = constraint_name@;
        let n = constraint_name.unicode_len();
        let mut i: usize = 0;
        while i < n && constraint_name.get_char(i) != '_'
            invariant
                n == s.len(),
                s == constraint_name@,
                i <= n,
                no_underscore(s, 0, i as int),
            decreases n - i,
        {
            i = i + 1;
        }
        if i == n {
            return Error::InternalServerError;
        }
        let mut j: usize = i + 1;
        while j < n && constraint_name.get_char(j) != '_'
            invariant
                n == s.len(),
                s == constraint_name@,
                i < j <= n,
                no_underscore(s, i + 1, j as int),
            decreases n - j,
        {
            j = j + 1;
        }
        let field = constraint_name.substring_char(i + 1, j);
        let m = String::from_str(field).concat(" is already in use");
        assert(second_piece_at(s, i as int, j as int));
        Error::Duplicate(m)
    }

    /// The error for a failed database operation: a missing row is not
    /// found, a violated unique constraint names the column in use, anything
    /// else is internal.
    pub fn from_database_failure(f: &DatabaseFailure) -> (r: Error)
        ensures
            f is NotFound ==> r == Error::NotFound,
            f matches DatabaseFailure::UniqueViolation(n) ==> unique_violation_answer(n@, r),
            f is Other ==> r == Error::InternalServerError,
    {
        match f {
            DatabaseFailure::NotFound => Error::NotFound,
            DatabaseFailure::UniqueViolation(n) => Error::from_unique_violation(n.as_str()),
            DatabaseFailure::Other => Error::InternalServerError,
        }
    }

    /// The error for a request that failed validation: the messages of each
    /// field joined by newlines, and the fields joined by newlines.
    pub fn from_validation_messages(fields: &Vec<Vec<String>>) -> (r: Error)
        ensures
            r matches Error::ValidationError(m) && m@ == joined(
                fields@.map_values(|f: Vec<String>| joined(f@.map_values(|p: String| p@), "\n"@)),
                "\n"@,
            ),
    {
        let mut parts: Vec<String> = Vec::new();
        let mut k: usize = 0;
        while k < fields.len()
            invariant
                k <= fields@.len(),
                parts@.len() == k,
                forall|q: int|
                    0 <= q < k ==> (#[trigger] parts@[q])@ == joined(
                        fields@[q]@.map_values(|p: String| p@),
                        "\n"@,
                    ),
            decreases fields@.len() - k,
        {
            parts.push(join(&fields[k], "\n"));
            k = k + 1;
        }
        let repr = join(&parts, "\n");
        assert(parts@.map_values(|p: String| p@) =~= fields@.map_values(
            |f: Vec<String>| joined(f@.map_values(|p: String| p@), "\n"@),
        ));
        Error::ValidationError(repr)
    }
}

/// Every failed login and every token error is answered with 403
/// (Forbidden), whatever the variant.
pub proof fn law_login_and_token_errors_are_forbidden(login: LoginError, token: TokenError)
    ensures
        spec_status_code(Error::LoginError(login)) == 403,
        spec_status_code(Error::TokenError(token)) == 403,
{
}

/// The other errors are answered with 409 (Conflict) for a duplicate, 500
/// for an internal error, 404 when nothing was found and 422 (Unprocessable
/// Entity) when validation failed.
pub proof fn law_other_status_codes(message: String)
    ensures
        spec_status_code(Error::Duplicate(message)) == 409,
        spec_status_code(Error::InternalServerError) == 500,
        spec_status_code(Error::NotFound) == 404,
        spec_status_code(Error::ValidationError(message)) == 422,
{
}

} // verus!
