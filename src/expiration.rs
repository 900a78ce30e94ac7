use vstd::prelude::*;

use crate::env::BlockInfo;

verus! {

/// When a grant stops being valid.
#[derive(Clone, Copy, Debug, PartialEq, Eq, Structural)]
pub enum Expiration {
    /// Expires once the chain reaches this height.
    AtHeight(u64),
    /// Expires once the block time (nanoseconds) reaches this value.
    AtTime(u64),
    /// Never expires.
    Never,
}

impl Expiration {
    /// Whether the expiration has elapsed in the given block.
    pub open spec fn expired_at(self, block: BlockInfo) -> bool {
        match self {
            Expiration::AtHeight(h) => block.height >= h,
            Expiration::AtTime(t) => block.time >= t,
            Expiration::Never => false,
        }
    }

    /// Whether the expiration has elapsed in `block`.
    pub fn is_expired(&self, block: &BlockInfo) -> (r: bool)
        ensures
            r == self.expired_at(*block),
    {
        match self {
            Expiration::AtHeight(h) => block.height >= *h,
            Expiration::AtTime(t) => block.time >= *t,
            Expiration::Never => false,
        }
    }
}

impl Default for Expiration {
    fn default() -> (r: Self)
        ensures
            r == Expiration::Never,
    {
        Expiration::Never
    }
}

} // verus!
