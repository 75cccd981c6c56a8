//! What the store refuses.

use vstd::prelude::*;
use vstd::string::StringExecFns;

verus! {

/// The one way in which an operation on the network fails.
#[derive(Debug)]
pub enum NetworkError {
    /// A link names a node id that the network does not hold.
    NodeNotFound(String),
}

impl NetworkError {
    /// The id that the error is about.
    pub open spec fn missing_id(&self) -> Seq<char> {
        match self {
            NetworkError::NodeNotFound(id) => id@,
        }
    }

    /// The error in words: `Node not found: ` and the id.
    pub fn message(&self) -> (text: String)
        ensures
            text@ == "Node not found: "@ + self.missing_id(),
    {
        match self {
            NetworkError::NodeNotFound(id) => String::from_str("Node not found: ").concat(id.as_str()),
        }
    }
}

} // verus!
