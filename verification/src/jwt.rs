//! Token data shapes. Issuing and signing tokens is an external
//! collaborator's job; the library only fixes what a token's claims and
//! a login answer carry.

use vstd::prelude::*;

verus! {

/// The claims a token carries: the subject and the expiry instant in
/// seconds since the Unix epoch.
pub struct Claims {
    pub sub: String,
    pub exp: usize,
}

/// The response shape of a successful login: the issued token.
pub struct LoginResponse {
    pub token: String,
}

} // verus!
