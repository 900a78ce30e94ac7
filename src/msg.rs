use vstd::prelude::*;

use crate::expiration::Expiration;

verus! {

/// Parameters of a new collection.
pub struct InstantiateMsg {
    pub name: String,
    pub symbol: String,
    /// The only account that may mint.
    pub minter: String,
}

/// A request to create a token.
pub struct MintMsg<T> {
    pub token_id: String,
    pub owner: String,
    pub token_uri: Option<String>,
    pub extension: T,
}

/// The operations a collection accepts.
#[allow(inconsistent_fields)]
pub enum ExecuteMsg<T, E> {
    Mint(MintMsg<T>),
    Approve { spender: String, token_id: String, expires: Option<Expiration> },
    Revoke { spender: String, token_id: String },
    ApproveAll { operator: String, expires: Option<Expiration> },
    RevokeAll { operator: String },
    TransferNft { recipient: String, token_id: String },
    SendNft { contract: String, token_id: String, msg: Vec<u8> },
    Burn { token_id: String },
    /// Application-defined messages; accepted and ignored.
    Extension { msg: E },
}

/// The expiration a request asks for: none given means never.
pub open spec fn expiration_or_never(e: Option<Expiration>) -> Expiration {
    match e {
        Some(x) => x,
        None => Expiration::Never,
    }
}

} // verus!
