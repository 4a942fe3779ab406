//! Data model and query logic of a node that indexes schema-less entities.
//!
//! The heart of the crate is the filter compiler in [`compiler`]: it turns a
//! tree of attribute filters ([`filter`]) over stored values ([`value`],
//! [`scalar`]) into the parameterised predicates ([`query`]) of a
//! `SELECT data FROM entities` statement. Every value that a user supplies
//! reaches the statement as a typed parameter, never as SQL text. What holds
//! of the compiler for every filter is proved in [`laws`].
//!
//! Around it stand the smaller parts of the node that decide something:
//! which answer the GraphQL service gives to which request ([`service`],
//! [`server`], [`mock`]), and how a schema describes itself to
//! introspection queries ([`schema`], [`graphql`], [`introspection`],
//! [`type_objects`], [`resolver`]).

pub mod compiler;
pub mod decimal;
pub mod ethereum;
pub mod filter;
pub mod graphql;
pub mod introspection;
pub mod laws;
pub mod mock;
pub mod query;
pub mod resolver;
pub mod scalar;
pub mod schema;
pub mod server;
pub mod service;
pub mod text;
pub mod type_objects;
pub mod value;
