//! The directory as a resource of requests.
use vstd::prelude::*;

verus! {

/// A request was refused because no connection to the directory could be had.
#[derive(Debug, Clone, Copy)]
pub struct LDAPConnectionFailed;

} // verus!
