//! The CSRF token of a session: handed to its browser, and required back on state-changing
//! requests.

use vstd::prelude::*;
use vstd::string::StringExecFns;
use crate::secret::secrets_match;
use crate::session_store::UserSession;

verus! {

/// The CSRF token handed to the browser of `session`: its secret.
pub fn token<C>(session: &UserSession<C>) -> (r: String)
    ensures
        r@ == session.spec_csrf_secret(),
{
    String::from_str(session.csrf_secret())
}

/// Whether `candidate` is the CSRF token of `session`, compared in constant time.
pub fn verify<C>(session: &UserSession<C>, candidate: &str) -> (r: bool)
    ensures
        r == (candidate@ == session.spec_csrf_secret()),
{
    secrets_match(session.csrf_secret(), candidate)
}

} // verus!
