//! Arguments of `tunnel`.

use vstd::prelude::*;

verus! {

#[derive(Debug, Clone, PartialEq, Eq)]
pub struct Args {
    /// Local port to forward to.
    pub port: u16,
    /// Local host.
    pub host: String,
    /// Named tunnel (subdomain) to ask for.
    pub subdomain: Option<String>,
    /// Service URL override.
    pub service_url: Option<String>,
}

} // verus!
