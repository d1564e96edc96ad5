//! The directory listing endpoint.

use vstd::prelude::*;

verus! {

/// Query parameters for directory list.
#[derive(Debug, Clone)]
pub struct DirectoryQueryParams {
    pub path: Option<String>,
}

} // verus!
