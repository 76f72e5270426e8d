//! The request and response shapes of the HTTP layer around the
//! system, and the one decision that layer makes on its own: whether
//! a request carries an authorization token at all. Transport,
//! serialization and token signing stay outside the library.

use vstd::prelude::*;

verus! {

/// The authenticated caller, extracted from a request's token.
pub struct UserId(pub String);

/// Request body for registering a website.
pub struct CreateWebsiteInput {
    pub url: String,
}

/// Request body for creating an account or signing in.
pub struct Inputuser {
    pub username: String,
    pub password: String,
}

/// Response body for a registered website.
pub struct CreateWebsiteOutput {
    pub id: String,
}

/// Response body for a created account.
pub struct CreateUserOutput {
    pub id: String,
}

/// Response body for a sign-in: the issued token.
pub struct SigninOutput {
    pub jwt: String,
}

/// Response body for looking one website up.
pub struct GetWebsiteOutput {
    pub url: String,
    pub id: String,
}

/// The claims carried by a session token.
pub struct Claims {
    pub sub: String,
    pub exp: usize,
}

/// Take the authorization header's value, or report the request as
/// carrying no token: the error text of a missing token.
pub fn require_token(header: Option<String>) -> (r: Result<String, String>)
    ensures
        header matches Some(t) ==> (r matches Ok(v) && v@ == t@),
        header is None ==> (r matches Err(e) && e@ == "missing token"@),
{
    match header {
        Some(t) => Ok(t),
        None => Err("missing token".to_owned()),
    }
}

} // verus!
