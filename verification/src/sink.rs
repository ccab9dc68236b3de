use crate::engine::{Command, Reply};
use vstd::prelude::*;
use vstd::string::StringExecFns;

verus! {

/// The two collections of the store. Each kind of record has its own.
#[derive(Clone, Copy, Debug, PartialEq, Eq, Structural)]
pub enum Resource {
    Blocks,
    Transactions,
}

impl Resource {
    /// The path of the collection below the store's address.
    pub open spec fn path_spec(self) -> Seq<char> {
        match self {
            Resource::Blocks => "/rest/v1/blocks"@,
            Resource::Transactions => "/rest/v1/transactions"@,
        }
    }

    /// The path of the collection below the store's address.
    pub fn path(self) -> (path: &'static str)
        ensures
            path@ == self.path_spec(),
    {
        match self {
            Resource::Blocks => "/rest/v1/blocks",
            Resource::Transactions => "/rest/v1/transactions",
        }
    }
}

/// The collection that a command writes to, if it writes at all.
pub open spec fn resource_spec(command: Command) -> Option<Resource> {
    match command {
        Command::StoreBlock(_) => Some(Resource::Blocks),
        Command::StoreTransaction(_) => Some(Resource::Transactions),
        _ => None,
    }
}

/// The collection that a command writes to: block records go to one,
/// transaction records to the other, and no other command writes.
pub fn resource_of(command: &Command) -> (resource: Option<Resource>)
    ensures
        resource == resource_spec(*command),
{
    match command {
        Command::StoreBlock(_) => Some(Resource::Blocks),
        Command::StoreTransaction(_) => Some(Resource::Transactions),
        _ => None,
    }
}

/// The address that a record for `resource` is sent to: the store's address
/// followed by the collection's path.
pub fn endpoint(base: &str, resource: Resource) -> (url: String)
    ensures
        url@ == base@ + resource.path_spec(),
{
    String::from_str(base).concat(resource.path())
}

/// The value of the authorization header for a key.
pub fn bearer(api_key: &str) -> (value: String)
    ensures
        value@ == "Bearer "@ + api_key@,
{
    String::from_str("Bearer ").concat(api_key)
}

/// The words that open the report of a refused write to `resource`.
pub open spec fn refusal_prefix(resource: Resource) -> Seq<char> {
    match resource {
        Resource::Blocks => "Failed to store block data: "@,
        Resource::Transactions => "Failed to store transaction data: "@,
    }
}

/// The report of a write to `resource` that the store refused, giving the
/// reason as the store worded it.
pub fn refusal_message(resource: Resource, reason: &str) -> (text: String)
    ensures
        text@ == refusal_prefix(resource) + reason@,
{
    match resource {
        Resource::Blocks => String::from_str("Failed to store block data: ").concat(reason),
        Resource::Transactions => String::from_str("Failed to store transaction data: ").concat(
            reason,
        ),
    }
}

/// What the store's answer to a write amounts to: a status from 200 to 299
/// accepts the record, any other refuses it.
pub fn store_reply(status: u16) -> (reply: Reply)
    ensures
        200 <= status < 300 ==> reply is Stored,
        !(200 <= status < 300) ==> reply is Rejected,
{
    if 200 <= status && status < 300 {
        Reply::Stored
    } else {
        Reply::Rejected
    }
}

} // verus!
