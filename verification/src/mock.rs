//! The error type of the mock GraphQL server.

use vstd::prelude::*;

verus! {

/// The number of queries that a mock GraphQL server runs when it serves.
pub const MOCK_REQUESTS: usize = 5;

/// The query that a mock GraphQL server runs.
pub fn mock_query() -> (text: &'static str)
    ensures
        text@ == "{ allUsers { name }}"@,
{
    "{ allUsers { name }}"
}

/// The error a mock GraphQL server reports when it cannot serve.
#[derive(Debug)]
pub struct MockServeError;

impl MockServeError {
    /// A short description of the error.
    pub fn description(&self) -> (text: &'static str)
        ensures
            text@ == "Mock serve error"@,
    {
        "Mock serve error"
    }

    /// The message shown to a user; the same as the description.
    pub fn to_string(&self) -> (text: String)
        ensures
            text@ == "Mock serve error"@,
    {
        "Mock serve error".to_owned()
    }
}

} // verus!
