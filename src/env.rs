use vstd::prelude::*;

verus! {

/// The block a handler runs in: its height and its time in nanoseconds.
#[derive(Clone, Copy, Debug, PartialEq, Eq, Structural)]
pub struct BlockInfo {
    pub height: u64,
    pub time: u64,
}

/// What the host tells a handler about the chain.
#[derive(Clone, Copy, Debug, PartialEq, Eq, Structural)]
pub struct Env {
    pub block: BlockInfo,
}

/// Who sent the message; the host has already authenticated it.
pub struct MessageInfo {
    pub sender: String,
}

} // verus!
