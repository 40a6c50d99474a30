//! The commands of the client and their arguments.

pub mod login;
pub mod logout;
pub mod status;
pub mod tunnel;

use vstd::prelude::*;

verus! {

/// A command of the client.
#[derive(Debug, Clone, PartialEq, Eq)]
pub enum Command {
    /// Log in to the tunnel service.
    Login(login::Args),
    /// Log out from the tunnel service.
    Logout(logout::Args),
    /// Show the current login status.
    Status(status::Args),
    /// Start a tunnel to expose a local server.
    Tunnel(tunnel::Args),
}

} // verus!
