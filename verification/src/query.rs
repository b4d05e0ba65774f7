//! The custom chain query for the current epoch, and its response.
//!
//! These are the plain data shapes; the transport derives and the
//! querier plumbing live outside the verified library.

use vstd::prelude::*;

verus! {

/// The custom queries the chain answers.
#[derive(Clone, Copy, Debug, PartialEq, Eq, Structural)]
pub enum BabylonQuery {
    /// Asks for the current epoch number.
    Epoch {},
}

/// The answer to an `Epoch` query.
#[derive(Clone, Copy, Debug, PartialEq, Eq, Structural)]
pub struct CurrentEpochResponse {
    pub epoch: u64,
}

impl BabylonQuery {
    /// The query asking for the current epoch number.
    pub fn current_epoch() -> (q: Self)
        ensures
            q == (BabylonQuery::Epoch {  }),
    {
        BabylonQuery::Epoch {  }
    }
}

} // verus!
