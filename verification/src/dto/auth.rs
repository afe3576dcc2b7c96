//! Records of the authentication surface.

use vstd::prelude::*;

verus! {

/// The refresh-token payload handed in by clients.
pub struct RefreshTokenDTO {
    pub refresh_token: String,
}

/// The authenticated caller, as established from a bearer token.
pub struct AuthUser {
    pub id: i32,
}

/// Rejection of a request whose bearer token is missing or invalid.
pub enum AuthError {
    InvalidToken,
}

} // verus!
