//! The contract's instantiate and query message shapes.

use vstd::prelude::*;

verus! {

/// Needs to know the code identifier of a reflect contract to spawn
/// sub-accounts.
#[derive(Clone, Copy, Debug, PartialEq, Eq, Structural)]
pub struct InstantiateMsg {
    pub reflect_code_id: u64,
}

/// The queries the contract answers.
#[derive(Clone, Copy, Debug, PartialEq, Eq, Structural)]
pub enum QueryMsg {
    GetCurrentEpoch,
}

/// The answer to a `GetCurrentEpoch` query.
#[derive(Clone, Copy, Debug, PartialEq, Eq, Structural)]
pub struct GetCurrentEpochResponse {
    pub epoch: u64,
}

} // verus!
