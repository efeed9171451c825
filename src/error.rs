use vstd::prelude::*;

verus! {

/// The registration field that a validation failure names.
#[derive(Clone, Copy, Debug, PartialEq, Eq, Structural)]
pub enum Field {
    UserType,
    Username,
    OrgName,
    OwnerName,
    Country,
    Description,
    Email,
}

/// Why a token could not be turned back into claims.
#[derive(Clone, Copy, Debug, PartialEq, Eq, Structural)]
pub enum TokenError {
    /// The signature does not match the secret.
    InvalidToken,
    /// The token verified, but its expiry time has passed.
    Expired,
    /// The token is not a well-formed signed token, or its payload is not a claim set.
    Malformed,
}

/// Failures of the authentication core, each with its HTTP status.
#[derive(Clone, Copy, Debug, PartialEq, Eq, Structural)]
pub enum AuthError {
    /// Bad credentials, a missing, invalid or expired token, or an unknown session.
    Unauthorized,
    /// Authenticated, but the role or the verification state does not allow the action.
    Forbidden,
    /// A registration field is missing, malformed or already taken.
    Validation(Field),
    /// The account that a session or a token refers to no longer exists.
    NotFound,
    /// Too many attempts from one client within the window.
    RateLimited,
    /// Hashing, signing or storage failed.
    Internal,
}

impl AuthError {
    pub open spec fn spec_status(self) -> u16 {
        match self {
            AuthError::Unauthorized => 401,
            AuthError::Forbidden => 403,
            AuthError::Validation(_) => 400,
            AuthError::NotFound => 404,
            AuthError::RateLimited => 429,
            AuthError::Internal => 500,
        }
    }

    /// The HTTP status code that the error maps to.
    pub fn status(&self) -> (r: u16)
        ensures
            r == self.spec_status(),
    {
        match self {
            AuthError::Unauthorized => 401,
            AuthError::Forbidden => 403,
            AuthError::Validation(_) => 400,
            AuthError::NotFound => 404,
            AuthError::RateLimited => 429,
            AuthError::Internal => 500,
        }
    }
}

} // verus!
