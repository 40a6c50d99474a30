//! Arguments of `login`.

use vstd::prelude::*;

verus! {

#[derive(Debug, Clone, PartialEq, Eq)]
pub struct Args {
    /// The service URL.
    pub service_url: Option<String>,
}

} // verus!
