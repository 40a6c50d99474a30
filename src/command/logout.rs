//! Arguments of `logout`.

use vstd::prelude::*;

verus! {

#[derive(Debug, Clone, PartialEq, Eq)]
pub struct Args {
    /// Log out without revoking the token on the server.
    pub force: bool,
}

} // verus!
