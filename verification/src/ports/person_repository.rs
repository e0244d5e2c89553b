//! What storing people can go wrong with.
use vstd::prelude::*;

verus! {

/// A failure of the person store or of a rule of registration.
#[derive(Debug, Clone, PartialEq, Eq)]
pub enum PersonError {
    DatabaseError(String),
    Conflict(String),
    NotFound,
}

/// The human-readable description of each person error.
pub open spec fn person_error_message(e: PersonError) -> Seq<char> {
    match e {
        PersonError::DatabaseError(msg) => "Database Error: "@ + msg@,
        PersonError::Conflict(msg) => "Conflict Error: "@ + msg@,
        PersonError::NotFound => "Person Not Found"@,
    }
}

impl PersonError {
    /// The description of this error.
    pub fn message(&self) -> (r: String)
        ensures
            r@ == person_error_message(*self),
    {
        match self {
            PersonError::DatabaseError(msg) => {
                let mut r = "Database Error: ".to_owned();
                r.append(msg.as_str());
                r
            },
            PersonError::Conflict(msg) => {
                let mut r = "Conflict Error: ".to_owned();
                r.append(msg.as_str());
                r
            },
            PersonError::NotFound => "Person Not Found".to_owned(),
        }
    }
}

} // verus!
