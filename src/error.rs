use vstd::prelude::*;

verus! {

/// Data could not be serialized or deserialized.
#[derive(Debug, Clone, Copy, PartialEq, Eq, Structural)]
pub struct SerializationError;

impl SerializationError {
    /// Returns the message that describes the error.
    pub fn message(&self) -> (r: &'static str)
        ensures
            r@ == "Unable to serialize data"@,
    {
        "Unable to serialize data"
    }
}

/// Shared data could not be reached, as when a lock cannot be taken.
#[derive(Debug, Clone, Copy, PartialEq, Eq, Structural)]
pub struct IOError;

impl IOError {
    /// Returns the message that describes the error.
    pub fn message(&self) -> (r: &'static str)
        ensures
            r@ == "Error retrieving lock for data"@,
    {
        "Error retrieving lock for data"
    }
}

/// An operation named a task that does not exist.
#[derive(Debug, Clone, Copy, PartialEq, Eq, Structural)]
pub struct TaskNotFound;

impl TaskNotFound {
    /// Returns the message that describes the error.
    pub fn message(&self) -> (r: &'static str)
        ensures
            r@ == "The requested task does not exist"@,
    {
        "The requested task does not exist"
    }
}

} // verus!

verus! {

/// An error in the server logic.
pub struct ServerError(pub String);

/// The reply to a failed request, as a message and an HTTP status code:
/// whichever applies first of a failure to reach the shared data, a failure
/// to serialize, and a missing task; any other failure is unknown.
pub fn rejection_reply(lock_failed: bool, serialization_failed: bool, not_found: bool) -> (r: (
    &'static str,
    u16,
))
    ensures
        lock_failed ==> r.0@ == "An IO error occurred on the server"@ && r.1 == 500,
        !lock_failed && serialization_failed ==> r.0@
            == "A serialization error occurred on the server"@ && r.1 == 500,
        !lock_failed && !serialization_failed && not_found ==> r.0@
            == "The specified task doesn't exist"@ && r.1 == 404,
        !lock_failed && !serialization_failed && !not_found ==> r.0@
            == "An unknown error occurred. Sorry!"@ && r.1 == 500,
{
    if lock_failed {
        ("An IO error occurred on the server", 500)
    } else if serialization_failed {
        ("A serialization error occurred on the server", 500)
    } else if not_found {
        ("The specified task doesn't exist", 404)
    } else {
        ("An unknown error occurred. Sorry!", 500)
    }
}

} // verus!
