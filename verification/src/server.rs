//! The GraphQL server: its errors, and what it decides from its own state
//! before it opens a channel or a socket.

use crate::schema::{Document, Schema};
use vstd::prelude::*;

verus! {

/// `std::io::Error`, the reason why the server could not bind its address.
#[verifier::external_type_specification]
#[verifier::external_body]
pub struct ExIoError(std::io::Error);

/// Why the server hands out no stream of queries.
#[derive(Clone, Copy, Debug, PartialEq, Eq, Structural)]
pub enum StreamError {
    /// The one stream that there is was handed out before.
    AlreadyCreated,
}

/// Errors that may occur when starting the server.
#[derive(Debug)]
pub enum GraphQLServeError {
    /// No component is set up to handle the queries.
    OrphanError,
    /// The address could not be bound.
    BindError(std::io::Error),
}

impl GraphQLServeError {
    /// A short description of the error.
    pub fn description(&self) -> (text: &'static str)
        ensures
            text@ == "Failed to start the server"@,
    {
        "Failed to start the server"
    }

    /// The message shown to a user.
    pub fn to_string(&self) -> (text: String)
        ensures
            text@ == "OrphanError: No component set up to handle the queries"@,
    {
        "OrphanError: No component set up to handle the queries".to_owned()
    }
}

impl From<std::io::Error> for GraphQLServeError {
    fn from(err: std::io::Error) -> (error: GraphQLServeError) {
        GraphQLServeError::BindError(err)
    }
}

impl vstd::std_specs::convert::FromSpecImpl<std::io::Error> for GraphQLServeError {
    open spec fn obeys_from_spec() -> bool {
        true
    }

    /// An I/O error is the reason why the address was not bound.
    open spec fn from_spec(err: std::io::Error) -> GraphQLServeError {
        GraphQLServeError::BindError(err)
    }
}

/// Whether the server may hand out its stream of queries: it does so once,
/// and `has_query_sink` says whether it did.
pub fn check_query_stream(has_query_sink: bool) -> (allowed: Result<(), StreamError>)
    ensures
        allowed == if has_query_sink {
            Err::<(), StreamError>(StreamError::AlreadyCreated)
        } else {
            Ok::<(), StreamError>(())
        },
{
    if has_query_sink {
        Err(StreamError::AlreadyCreated)
    } else {
        Ok(())
    }
}

/// Whether the server may start to serve: only if a component has taken
/// the stream of queries and will handle what comes in.
pub fn check_serve(has_query_sink: bool) -> (allowed: Result<(), GraphQLServeError>)
    ensures
        allowed is Ok <==> has_query_sink,
        allowed matches Err(error) ==> error is OrphanError,
{
    if has_query_sink {
        Ok(())
    } else {
        Err(GraphQLServeError::OrphanError)
    }
}

/// The schema that the server answers for after a schema with the name
/// `id` was added: the API schema derived from it under that name, or the
/// schema it had before where none could be derived.
pub fn schema_after_added(current: Option<Schema>, id: String, derived: Option<Document>) -> (schema:
    Option<Schema>)
    ensures
        schema == match derived {
            Some(document) => Some(Schema { id, document }),
            None => current,
        },
{
    match derived {
        Some(document) => Some(Schema { id, document }),
        None => current,
    }
}

} // verus!
