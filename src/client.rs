use vstd::prelude::*;

use crate::address::Address;

verus! {

/// What a client knows of itself: the login it typed and the address the
/// relay told it.
#[derive(Clone, Debug)]
pub struct User {
    pub login: Option<String>,
    pub ip: Option<Address>,
}

impl Default for User {
    fn default() -> (r: User)
        ensures
            r.login is None,
            r.ip is None,
    {
        User { login: None, ip: None }
    }
}

/// The screen a client shows.
#[derive(Clone, Copy, Debug, PartialEq, Eq, Structural)]
pub enum Screen {
    Login,
    Chat,
}

} // verus!
