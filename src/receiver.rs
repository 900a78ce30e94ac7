use vstd::prelude::*;

verus! {

/// The notification a receiving contract gets when a token is sent to it.
pub struct Cw721ReceiveMsg {
    /// The account that sent the token.
    pub sender: String,
    /// The token that was sent.
    pub token_id: String,
    /// The payload that came with it, passed on untouched.
    pub msg: Vec<u8>,
}

} // verus!
