//! What an authenticated request resolves to on the server.

use vstd::prelude::*;

verus! {

/// The name of the user a validated bearer credential belongs to.
pub struct AuthenticatedUser(pub String);

impl AuthenticatedUser {
    /// The authenticated username.
    pub fn name(&self) -> (r: &str)
        ensures
            r@ == self.0@,
    {
        self.0.as_str()
    }
}

} // verus!
