//! The shape of the read-only query surface.
//!
//! The HTTP layer itself is an external collaborator; it resolves each
//! request to one of the store's read actions (`GetAccounts`,
//! `GetTransactions`) carrying the address below.

use vstd::prelude::*;

verus! {

/// The query parameter of both read routes: the address asked about.
#[derive(Debug)]
pub struct ApiParam {
    pub address: String,
}

impl Clone for ApiParam {
    fn clone(&self) -> (res: Self)
        ensures
            res == *self,
    {
        ApiParam { address: self.address.clone() }
    }
}

} // verus!
