//! Errors returned by SchemaForge HTTP endpoints.
//!
//! Each variant maps to one HTTP status code and one machine-readable kind;
//! the message text is what the JSON `message` field carries.
use vstd::prelude::*;

use crate::text::{concat2, join_seq, join_strings, views};

verus! {

/// Errors returned by SchemaForge HTTP endpoints.
#[derive(Debug, Clone, PartialEq, Eq)]
pub enum ForgeError {
    /// Schema not found by name. Maps to 404.
    SchemaNotFound { name: String },
    /// Entity not found by schema + id. Maps to 404.
    EntityNotFound { schema: String, entity_id: String },
    /// Schema already exists. Maps to 409 Conflict.
    SchemaAlreadyExists { name: String },
    /// Request body failed validation. Maps to 422.
    ValidationFailed { details: Vec<String> },
    /// Invalid schema name (not PascalCase). Maps to 400.
    InvalidSchemaName { name: String },
    /// Invalid entity ID format. Maps to 400.
    InvalidEntityId { id: String },
    /// Invalid query parameters. Maps to 400.
    InvalidQuery { message: String },
    /// Backend storage error. Maps to 502.
    BackendUnavailable { message: String },
    /// Internal error. Maps to 500.
    Internal { message: String },
}

/// A storage-backend failure, as the backend layer reports it. `Other` stands
/// for every further backend variant, carrying that variant's display text.
#[derive(Debug, Clone, PartialEq, Eq)]
pub enum BackendError {
    EntityNotFound { schema: String, entity_id: String },
    SchemaNotFound { schema: String },
    SchemaAlreadyExists { schema: String },
    ValidationFailed { field: String, reason: String },
    RequiredFieldMissing { field: String },
    TypeMismatch { field: String, expected: String, actual: String },
    MigrationFailed { step: String, reason: String },
    ConnectionError { message: String },
    QueryError { message: String },
    Internal { message: String },
    Other { message: String },
}

/// The message text of each variant.
pub open spec fn forge_message(e: ForgeError) -> Seq<char> {
    match e {
        ForgeError::SchemaNotFound { name } => "schema '"@ + name@ + "' not found"@,
        ForgeError::EntityNotFound { schema, entity_id } => "entity '"@ + entity_id@
            + "' not found in schema '"@ + schema@ + "'"@,
        ForgeError::SchemaAlreadyExists { name } => "schema '"@ + name@ + "' already exists"@,
        ForgeError::ValidationFailed { details } => "validation failed: "@ + join_seq(
            views(details@),
            "; "@,
        ),
        ForgeError::InvalidSchemaName { name } => "invalid schema name '"@ + name@
            + "': must be PascalCase (e.g. 'Contact', 'MySchema')"@,
        ForgeError::InvalidEntityId { id } => "invalid entity ID '"@ + id@
            + "': must be a valid TypeID with 'entity' prefix"@,
        ForgeError::InvalidQuery { message } => "invalid query: "@ + message@,
        ForgeError::BackendUnavailable { message } => "backend unavailable: "@ + message@,
        ForgeError::Internal { message } => "internal error: "@ + message@,
    }
}

pub open spec fn forge_status(e: ForgeError) -> u16 {
    match e {
        ForgeError::SchemaNotFound { .. } | ForgeError::EntityNotFound { .. } => 404,
        ForgeError::SchemaAlreadyExists { .. } => 409,
        ForgeError::ValidationFailed { .. } => 422,
        ForgeError::InvalidSchemaName { .. } | ForgeError::InvalidEntityId { .. }
        | ForgeError::InvalidQuery { .. } => 400,
        ForgeError::BackendUnavailable { .. } => 502,
        ForgeError::Internal { .. } => 500,
    }
}

pub open spec fn forge_kind(e: ForgeError) -> Seq<char> {
    match e {
        ForgeError::SchemaNotFound { .. } => "schema_not_found"@,
        ForgeError::EntityNotFound { .. } => "entity_not_found"@,
        ForgeError::SchemaAlreadyExists { .. } => "schema_already_exists"@,
        ForgeError::ValidationFailed { .. } => "validation_failed"@,
        ForgeError::InvalidSchemaName { .. } => "invalid_schema_name"@,
        ForgeError::InvalidEntityId { .. } => "invalid_entity_id"@,
        ForgeError::InvalidQuery { .. } => "invalid_query"@,
        ForgeError::BackendUnavailable { .. } => "backend_unavailable"@,
        ForgeError::Internal { .. } => "internal_error"@,
    }
}

/// The [`ForgeError`] a backend failure maps to, as views: the variant is
/// decided by `forge_from_backend_matches`.
pub open spec fn forge_from_backend_matches(b: BackendError, f: ForgeError) -> bool {
    match b {
        BackendError::EntityNotFound { schema, entity_id } => f matches ForgeError::EntityNotFound {
            schema: s,
            entity_id: id,
        } && s@ == schema@ && id@ == entity_id@,
        BackendError::SchemaNotFound { schema } => f matches ForgeError::SchemaNotFound { name }
            && name@ == schema@,
        BackendError::SchemaAlreadyExists { schema } => f matches ForgeError::SchemaAlreadyExists {
            name,
        } && name@ == schema@,
        BackendError::ValidationFailed { field, reason } => f matches ForgeError::ValidationFailed {
            details,
        } && views(details@) == seq!["field '"@ + field@ + "': "@ + reason@],
        BackendError::RequiredFieldMissing { field } => f matches ForgeError::ValidationFailed {
            details,
        } && views(details@) == seq!["required field '"@ + field@ + "' is missing"@],
        BackendError::TypeMismatch { field, expected, actual } => f matches ForgeError::ValidationFailed {
            details,
        } && views(details@) == seq![
            "type mismatch for field '"@ + field@ + "': expected "@ + expected@ + ", got "@
                + actual@,
        ],
        BackendError::MigrationFailed { step, reason } => f matches ForgeError::Internal { message }
            && message@ == "migration step failed ("@ + step@ + "): "@ + reason@,
        BackendError::ConnectionError { message } => f matches ForgeError::BackendUnavailable {
            message: m,
        } && m@ == message@,
        BackendError::QueryError { message } => f matches ForgeError::BackendUnavailable {
            message: m,
        } && m@ == message@,
        BackendError::Internal { message } => f matches ForgeError::Internal { message: m } && m@
            == message@,
        BackendError::Other { message } => f matches ForgeError::Internal { message: m } && m@
            == message@,
    }
}

fn cat3(a: &str, b: &str, c: &str) -> (r: String)
    ensures
        r@ == a@ + b@ + c@,
{
    let mut r = String::from_str(a);
    r.append(b);
    r.append(c);
    r
}

fn cat5(a: &str, b: &str, c: &str, d: &str, e: &str) -> (r: String)
    ensures
        r@ == a@ + b@ + c@ + d@ + e@,
{
    let mut r = String::from_str(a);
    r.append(b);
    r.append(c);
    r.append(d);
    r.append(e);
    r
}

fn single(s: String) -> (v: Vec<String>)
    ensures
        views(v@) == seq![s@],
{
    let mut v: Vec<String> = Vec::new();
    v.push(s);
    assert(views(v@) =~= seq![s@]);
    v
}

impl ForgeError {
    /// The error's message text, as the JSON `message` field carries it.
    pub fn to_string(&self) -> (s: String)
        ensures
            s@ == forge_message(*self),
    {
        match self {
            ForgeError::SchemaNotFound { name } => cat3("schema '", name.as_str(), "' not found"),
            ForgeError::EntityNotFound { schema, entity_id } => cat5(
                "entity '",
                entity_id.as_str(),
                "' not found in schema '",
                schema.as_str(),
                "'",
            ),
            ForgeError::SchemaAlreadyExists { name } => cat3(
                "schema '",
                name.as_str(),
                "' already exists",
            ),
            ForgeError::ValidationFailed { details } => {
                let joined = join_strings(details.as_slice(), "; ");
                let mut r = String::from_str("validation failed: ");
                r.append(joined.as_str());
                r
            },
            ForgeError::InvalidSchemaName { name } => cat3(
                "invalid schema name '",
                name.as_str(),
                "': must be PascalCase (e.g. 'Contact', 'MySchema')",
            ),
            ForgeError::InvalidEntityId { id } => cat3(
                "invalid entity ID '",
                id.as_str(),
                "': must be a valid TypeID with 'entity' prefix",
            ),
            ForgeError::InvalidQuery { message } => concat2("invalid query: ", message.as_str()),
            ForgeError::BackendUnavailable { message } => concat2("backend unavailable: ", message.as_str()),
            ForgeError::Internal { message } => concat2("internal error: ", message.as_str()),
        }
    }

    /// The HTTP status code for this error variant.
    pub fn status_code(&self) -> (code: u16)
        ensures
            code == forge_status(*self),
    {
        match self {
            ForgeError::SchemaNotFound { .. } | ForgeError::EntityNotFound { .. } => 404,
            ForgeError::SchemaAlreadyExists { .. } => 409,
            ForgeError::ValidationFailed { .. } => 422,
            ForgeError::InvalidSchemaName { .. } | ForgeError::InvalidEntityId { .. }
            | ForgeError::InvalidQuery { .. } => 400,
            ForgeError::BackendUnavailable { .. } => 502,
            ForgeError::Internal { .. } => 500,
        }
    }

    /// The error kind string used in JSON responses.
    pub fn error_kind(&self) -> (k: &'static str)
        ensures
            k@ == forge_kind(*self),
    {
        match self {
            ForgeError::SchemaNotFound { .. } => "schema_not_found",
            ForgeError::EntityNotFound { .. } => "entity_not_found",
            ForgeError::SchemaAlreadyExists { .. } => "schema_already_exists",
            ForgeError::ValidationFailed { .. } => "validation_failed",
            ForgeError::InvalidSchemaName { .. } => "invalid_schema_name",
            ForgeError::InvalidEntityId { .. } => "invalid_entity_id",
            ForgeError::InvalidQuery { .. } => "invalid_query",
            ForgeError::BackendUnavailable { .. } => "backend_unavailable",
            ForgeError::Internal { .. } => "internal_error",
        }
    }

    /// Maps a backend failure to the endpoint error it is reported as.
    pub fn from_backend(err: BackendError) -> (f: ForgeError)
        ensures
            forge_from_backend_matches(err, f),
    {
        match err {
            BackendError::EntityNotFound { schema, entity_id } => ForgeError::EntityNotFound {
                schema,
                entity_id,
            },
            BackendError::SchemaNotFound { schema } => ForgeError::SchemaNotFound { name: schema },
            BackendError::SchemaAlreadyExists { schema } => ForgeError::SchemaAlreadyExists {
                name: schema,
            },
            BackendError::ValidationFailed { field, reason } => {
                let mut d = cat3("field '", field.as_str(), "': ");
                d.append(reason.as_str());
                ForgeError::ValidationFailed { details: single(d) }
            },
            BackendError::RequiredFieldMissing { field } => ForgeError::ValidationFailed {
                details: single(cat3("required field '", field.as_str(), "' is missing")),
            },
            BackendError::TypeMismatch { field, expected, actual } => {
                let mut d = cat5(
                    "type mismatch for field '",
                    field.as_str(),
                    "': expected ",
                    expected.as_str(),
                    ", got ",
                );
                d.append(actual.as_str());
                ForgeError::ValidationFailed { details: single(d) }
            },
            BackendError::MigrationFailed { step, reason } => {
                let mut m = cat3("migration step failed (", step.as_str(), "): ");
                m.append(reason.as_str());
                ForgeError::Internal { message: m }
            },
            BackendError::ConnectionError { message } => ForgeError::BackendUnavailable { message },
            BackendError::QueryError { message } => ForgeError::BackendUnavailable { message },
            BackendError::Internal { message } => ForgeError::Internal { message },
            BackendError::Other { message } => ForgeError::Internal { message },
        }
    }
}

} // verus!
