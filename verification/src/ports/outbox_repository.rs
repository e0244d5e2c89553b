//! What storing outbox records can go wrong with.
use vstd::prelude::*;

verus! {

/// A failure of the outbox store.
#[derive(Debug, Clone, PartialEq, Eq)]
pub enum OutboxError {
    DatabaseError(String),
}

/// The human-readable description of each outbox error.
pub open spec fn outbox_error_message(e: OutboxError) -> Seq<char> {
    match e {
        OutboxError::DatabaseError(msg) => "Database Error: "@ + msg@,
    }
}

impl OutboxError {
    /// The description of this error.
    pub fn message(&self) -> (r: String)
        ensures
            r@ == outbox_error_message(*self),
    {
        match self {
            OutboxError::DatabaseError(msg) => {
                let mut r = "Database Error: ".to_owned();
                r.append(msg.as_str());
                r
            },
        }
    }
}

} // verus!
