use vstd::prelude::*;

verus! {

/// Why an operation was refused. A refused operation changes nothing.
#[derive(Clone, Copy, Debug, PartialEq, Eq, Structural)]
pub enum ContractError {
    /// The sender lacks the capability the operation needs.
    Unauthorized,
    /// The token id has no record.
    NotFound,
    /// Mint on a token id that already has a live record.
    AlreadyExists,
    /// A supplied expiration has already elapsed.
    Expired,
}

} // verus!
