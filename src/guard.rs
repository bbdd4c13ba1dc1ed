//! The request-time check that resolves a bearer token to an account.
use crate::state::{has_token, State};
use vstd::prelude::*;

verus! {

/// Why a request was turned away.
#[derive(Clone, Copy, Debug, PartialEq, Eq, Structural)]
pub enum AuthError {
    /// No token, or a header that is not text.
    Unauthenticated,
    /// A token that names no account.
    Forbidden,
}

/// Proof that a request carries the token of an existing account; holds that token.
pub struct UserGuard(pub String);

impl UserGuard {
    /// Checks the `Authorization` header: `None` if it is absent, `Some(None)`
    /// if its value is not text, else the token it carries.
    pub fn from_header(state: &State, header: Option<Option<&str>>) -> (r: Result<UserGuard, AuthError>)
        ensures
            header matches Some(Some(t)) ==> {
                &&& r is Ok <==> has_token(state.users@, t@)
                &&& r matches Ok(g) ==> g.0@ == t@
                &&& r is Err ==> r == Err::<UserGuard, AuthError>(AuthError::Forbidden)
            },
            !(header matches Some(Some(_))) ==> r == Err::<UserGuard, AuthError>(AuthError::Unauthenticated),
    {
        match header {
            None => Err(AuthError::Unauthenticated),
            Some(None) => Err(AuthError::Unauthenticated),
            Some(Some(text)) => {
                let token = text.to_owned();
                if state.find_token(&token).is_some() {
                    Ok(UserGuard(token))
                } else {
                    Err(AuthError::Forbidden)
                }
            },
        }
    }
}

} // verus!
