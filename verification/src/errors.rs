//! The error classes of the engine: path resolution, violated
//! preconditions, failed filesystem mutations (with the recoverable
//! rolled-back case kept apart from the one needing manual cleanup), and
//! an unreadable configuration store.
use vstd::prelude::*;

verus! {

use vstd::string::StringExecFns;

#[derive(Debug, Clone, PartialEq, Eq)]
pub enum FfError {
    /// A path could not be resolved, converted, or given a parent; the
    /// payload names the path at fault.
    PathResolution(String),
    /// An operation's precondition did not hold; the payload is the full
    /// explanatory text.
    Precondition(String),
    /// A filesystem mutation failed and the operation was aborted for this
    /// item; the payload names the mutation and its path.
    Mutation(String),
    /// The link step failed and the file move was rolled back; the
    /// original path holds the regular file again.
    MoveReverted,
    /// The link step failed and the rollback failed too: the file stands
    /// only at the path in the payload and must be cleaned up by hand.
    ManualCleanup(String),
    /// The configuration store at the path in the payload could not be
    /// read.
    Config(String),
}

impl FfError {
    /// The descriptive line reported to the user for this error.
    pub open spec fn message_spec(&self) -> Seq<char> {
        match self {
            FfError::PathResolution(s) => "Can't resolve path: "@ + s@,
            FfError::Precondition(s) => s@,
            FfError::Mutation(s) => s@,
            FfError::MoveReverted => "File move reverted"@,
            FfError::ManualCleanup(s) => "Can't revert file move - clean it MANUALLY: "@
                + s@,
            FfError::Config(s) => "Can't load config file: "@ + s@,
        }
    }

    pub fn message(&self) -> (r: String)
        ensures
            r@ == self.message_spec(),
    {
        match self {
            FfError::PathResolution(s) => {
                let mut m = String::from_str("Can't resolve path: ");
                m.append(s.as_str());
                m
            },
            FfError::Precondition(s) => s.clone(),
            FfError::Mutation(s) => s.clone(),
            FfError::MoveReverted => String::from_str("File move reverted"),
            FfError::ManualCleanup(s) => {
                let mut m = String::from_str("Can't revert file move - clean it MANUALLY: ");
                m.append(s.as_str());
                m
            },
            FfError::Config(s) => {
                let mut m = String::from_str("Can't load config file: ");
                m.append(s.as_str());
                m
            },
        }
    }
}

} // verus!
