//! Errors of the GraphQL resolvers.
use vstd::prelude::*;

use crate::error::{forge_message, ForgeError};

verus! {

/// A GraphQL error: its message and the `code` extension it carries.
#[derive(Debug)]
pub struct GqlError {
    pub message: String,
    pub code: &'static str,
}

/// The `code` extension of an error: `NOT_FOUND`, `VALIDATION_ERROR`,
/// `BAD_REQUEST` for malformed input, and `INTERNAL_ERROR` for the rest.
pub open spec fn gql_code(e: ForgeError) -> Seq<char> {
    match e {
        ForgeError::SchemaNotFound { .. } | ForgeError::EntityNotFound { .. } => "NOT_FOUND"@,
        ForgeError::ValidationFailed { .. } => "VALIDATION_ERROR"@,
        ForgeError::InvalidQuery { .. } | ForgeError::InvalidSchemaName { .. }
        | ForgeError::InvalidEntityId { .. } => "BAD_REQUEST"@,
        _ => "INTERNAL_ERROR"@,
    }
}

/// Converts an error to a GraphQL error carrying its message and code.
pub fn forge_error_to_gql(err: ForgeError) -> (g: GqlError)
    ensures
        g.message@ == forge_message(err),
        g.code@ == gql_code(err),
{
    let code = match &err {
        ForgeError::SchemaNotFound { .. } | ForgeError::EntityNotFound { .. } => "NOT_FOUND",
        ForgeError::ValidationFailed { .. } => "VALIDATION_ERROR",
        ForgeError::InvalidQuery { .. } | ForgeError::InvalidSchemaName { .. }
        | ForgeError::InvalidEntityId { .. } => "BAD_REQUEST",
        _ => "INTERNAL_ERROR",
    };
    GqlError { message: err.to_string(), code }
}

} // verus!
