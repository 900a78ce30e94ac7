use vstd::prelude::*;

use crate::receiver::Cw721ReceiveMsg;

verus! {

/// One key/value pair of an operation's outcome.
pub struct Attribute {
    pub key: String,
    pub value: String,
}

/// A notification addressed to another contract.
pub struct Notification {
    pub contract_addr: String,
    pub msg: Cw721ReceiveMsg,
}

/// What a successful operation hands back to the host.
pub struct Response {
    pub attributes: Vec<Attribute>,
    pub messages: Vec<Notification>,
}

/// The attributes as (key, value) pairs of character sequences.
pub open spec fn attrs_view(v: Seq<Attribute>) -> Seq<(Seq<char>, Seq<char>)> {
    v.map_values(|a: Attribute| (a.key@, a.value@))
}

/// An attribute with the given key and value.
pub fn attr(key: &str, value: &str) -> (r: Attribute)
    ensures
        r.key@ == key@,
        r.value@ == value@,
{
    Attribute { key: key.to_owned(), value: value.to_owned() }
}

} // verus!
