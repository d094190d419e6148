//! What the host chain hands to each call, and what a call hands back.
use vstd::prelude::*;
use vstd::string::*;

verus! {

/// The block a call runs in, and the address of the contract itself.
pub struct Env {
    pub block_height: u64,
    pub block_time_nanos: u64,
    pub contract_address: String,
}

/// Who sent the call.
pub struct MessageInfo {
    pub sender: String,
}

/// A key and value that a call reports in its response.
#[derive(Debug, PartialEq)]
pub struct Attribute {
    pub key: String,
    pub value: String,
}

/// The messages a call emits, in order, and the attributes it reports.
#[derive(Debug, PartialEq)]
pub struct Response<M> {
    pub messages: Vec<M>,
    pub attributes: Vec<Attribute>,
}

pub fn attr(key: &str, value: String) -> (r: Attribute)
    ensures
        r.key@ == key@,
        r.value == value,
{
    Attribute { key: String::from_str(key), value }
}

pub fn text(s: &str) -> (r: String)
    ensures
        r@ == s@,
{
    String::from_str(s)
}

} // verus!
