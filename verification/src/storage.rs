//! The persistence collaborator the user database writes through.
//!
//! The database never touches files itself; it is handed an
//! implementation of [`Persistence`] (a file store in production, a
//! recording stub in tests) and calls it only when its state is dirty.

use vstd::prelude::*;

verus! {

use crate::auth::{User, users_wf};
use crate::error::Error;
use crate::kv::keys_unique;

/// Which durable file an operation touches.
#[derive(Clone, Copy, Debug)]
pub enum File<'a> {
    LoginDB,
    UserDB(&'a str),
}

/// The injected storage collaborator.
///
/// Implementations live outside the verified core; the one obligation
/// stated here is that a loaded user table is well formed, which a table
/// written by [`save_users`](Persistence::save_users) always is.
pub trait Persistence: Sized {
    /// Load the stored user table; `None` when nothing was stored yet.
    fn load_users(&mut self) -> (r: Result<Option<Vec<(String, User)>>, Error>)
        ensures
            r is Ok && r->Ok_0 is Some ==> keys_unique(r->Ok_0->0@) && users_wf(r->Ok_0->0@),
    ;

    /// Write the user table.
    fn save_users(&mut self, users: &Vec<(String, User)>) -> (r: Result<(), Error>);
}

} // verus!
