//! Errors returned by admin UI handlers, and the HTML escaping used when
//! they are rendered.
use vstd::prelude::*;

use crate::error::BackendError;
use crate::text::{chars_of, concat2, join_seq, join_strings, push_char, push_str, views};

verus! {

/// Errors returned by admin UI handlers.
#[derive(Debug)]
pub enum AdminError {
    /// Unauthorized — redirect to login page.
    Unauthorized,
    /// Schema not found by name. Maps to 404.
    SchemaNotFound { name: String },
    /// Entity not found. Maps to 404.
    EntityNotFound { schema: String, entity_id: String },
    /// Form validation failed. Maps to 422.
    ValidationFailed { details: Vec<String> },
    /// Backend error. Maps to 502.
    BackendError { message: String },
    /// Internal error. Maps to 500.
    Internal { message: String },
}

pub open spec fn admin_message(e: AdminError) -> Seq<char> {
    match e {
        AdminError::Unauthorized => "Unauthorized"@,
        AdminError::SchemaNotFound { name } => "Schema '"@ + name@ + "' not found"@,
        AdminError::EntityNotFound { schema, entity_id } => "Entity '"@ + entity_id@
            + "' not found in schema '"@ + schema@ + "'"@,
        AdminError::ValidationFailed { details } => "Validation failed: "@ + join_seq(
            views(details@),
            "; "@,
        ),
        AdminError::BackendError { message } => "Backend error: "@ + message@,
        AdminError::Internal { message } => "Internal error: "@ + message@,
    }
}

pub open spec fn admin_status(e: AdminError) -> u16 {
    match e {
        AdminError::Unauthorized => 401,
        AdminError::SchemaNotFound { .. } | AdminError::EntityNotFound { .. } => 404,
        AdminError::ValidationFailed { .. } => 422,
        AdminError::BackendError { .. } => 502,
        AdminError::Internal { .. } => 500,
    }
}

/// The escape of one character.
pub open spec fn escape_char(c: char) -> Seq<char> {
    if c == '&' {
        "&amp;"@
    } else if c == '<' {
        "&lt;"@
    } else if c == '>' {
        "&gt;"@
    } else if c == '"' {
        "&quot;"@
    } else if c == '\'' {
        "&#39;"@
    } else {
        seq![c]
    }
}

/// Every `&`, `<`, `>`, `"` and `'` replaced by its entity.
pub open spec fn html_escape_spec(s: Seq<char>) -> Seq<char>
    decreases s.len(),
{
    if s.len() == 0 {
        Seq::empty()
    } else {
        html_escape_spec(s.drop_last()) + escape_char(s.last())
    }
}

/// Basic HTML escaping: `&`, `<`, `>`, `"` and `'` become entities.
pub fn html_escape(s: &str) -> (r: String)
    ensures
        r@ == html_escape_spec(s@),
{
    let v = chars_of(s);
    let mut r = String::new();
    let mut i: usize = 0;
    while i < v.len()
        invariant
            v@ == s@,
            i <= v@.len(),
            r@ == html_escape_spec(s@.subrange(0, i as int)),
        decreases v@.len() - i,
    {
        let c = v[i];
        proof {
            let p = s@.subrange(0, i + 1);
            assert(p.drop_last() =~= s@.subrange(0, i as int));
            assert(p.last() == c);
        }
        if c == '&' {
            push_str(&mut r, "&amp;");
        } else if c == '<' {
            push_str(&mut r, "&lt;");
        } else if c == '>' {
            push_str(&mut r, "&gt;");
        } else if c == '"' {
            push_str(&mut r, "&quot;");
        } else if c == '\'' {
            push_str(&mut r, "&#39;");
        } else {
            push_char(&mut r, c);
            assert(r@ =~= html_escape_spec(s@.subrange(0, i as int)) + seq![c]);
        }
        i += 1;
    }
    assert(s@.subrange(0, v@.len() as int) =~= s@);
    r
}

impl AdminError {
    /// The error's display text.
    pub fn to_string(&self) -> (s: String)
        ensures
            s@ == admin_message(*self),
    {
        match self {
            AdminError::Unauthorized => String::from_str("Unauthorized"),
            AdminError::SchemaNotFound { name } => {
                let mut r = String::from_str("Schema '");
                r.append(name.as_str());
                r.append("' not found");
                r
            },
            AdminError::EntityNotFound { schema, entity_id } => {
                let mut r = String::from_str("Entity '");
                r.append(entity_id.as_str());
                r.append("' not found in schema '");
                r.append(schema.as_str());
                r.append("'");
                r
            },
            AdminError::ValidationFailed { details } => {
                let joined = join_strings(details.as_slice(), "; ");
                concat2("Validation failed: ", joined.as_str())
            },
            AdminError::BackendError { message } => concat2("Backend error: ", message.as_str()),
            AdminError::Internal { message } => concat2("Internal error: ", message.as_str()),
        }
    }

    /// The HTTP status code for this error.
    pub fn status_code(&self) -> (code: u16)
        ensures
            code == admin_status(*self),
    {
        match self {
            AdminError::Unauthorized => 401,
            AdminError::SchemaNotFound { .. } | AdminError::EntityNotFound { .. } => 404,
            AdminError::ValidationFailed { .. } => 422,
            AdminError::BackendError { .. } => 502,
            AdminError::Internal { .. } => 500,
        }
    }

    /// Maps a backend failure to the admin error it is shown as: missing
    /// entities and schemas keep their identity, connection and query
    /// failures become backend errors, and anything else is internal with
    /// the failure's own text.
    pub fn from_backend(err: BackendError) -> (a: AdminError)
        ensures
            match err {
                BackendError::EntityNotFound { schema, entity_id } => a matches AdminError::EntityNotFound {
                    schema: s,
                    entity_id: id,
                } && s@ == schema@ && id@ == entity_id@,
                BackendError::SchemaNotFound { schema } => a matches AdminError::SchemaNotFound {
                    name,
                } && name@ == schema@,
                BackendError::ConnectionError { message } => a matches AdminError::BackendError {
                    message: m,
                } && m@ == message@,
                BackendError::QueryError { message } => a matches AdminError::BackendError {
                    message: m,
                } && m@ == message@,
                _ => a matches AdminError::Internal { message } && message@ == backend_text(err),
            },
    {
        match err {
            BackendError::EntityNotFound { schema, entity_id } => AdminError::EntityNotFound {
                schema,
                entity_id,
            },
            BackendError::SchemaNotFound { schema } => AdminError::SchemaNotFound { name: schema },
            BackendError::ConnectionError { message } => AdminError::BackendError { message },
            BackendError::QueryError { message } => AdminError::BackendError { message },
            other => AdminError::Internal { message: backend_error_text(&other) },
        }
    }
}

/// The display text of a backend failure.
pub open spec fn backend_text(e: BackendError) -> Seq<char> {
    match e {
        BackendError::EntityNotFound { schema, entity_id } => "entity '"@ + entity_id@
            + "' not found in schema '"@ + schema@ + "'"@,
        BackendError::SchemaNotFound { schema } => "schema '"@ + schema@ + "' not found"@,
        BackendError::SchemaAlreadyExists { schema } => "schema '"@ + schema@ + "' already exists"@,
        BackendError::ValidationFailed { field, reason } => "validation failed for field '"@
            + field@ + "': "@ + reason@,
        BackendError::RequiredFieldMissing { field } => "required field '"@ + field@
            + "' is missing"@,
        BackendError::TypeMismatch { field, expected, actual } => "type mismatch for field '"@
            + field@ + "': expected "@ + expected@ + ", got "@ + actual@,
        BackendError::MigrationFailed { step, reason } => "migration step failed ("@ + step@
            + "): "@ + reason@,
        BackendError::ConnectionError { message } => "connection error: "@ + message@,
        BackendError::QueryError { message } => "query error: "@ + message@,
        BackendError::Internal { message } => "internal error: "@ + message@,
        BackendError::Other { message } => message@,
    }
}

/// The display text of a backend failure.
pub fn backend_error_text(e: &BackendError) -> (s: String)
    ensures
        s@ == backend_text(*e),
{
    match e {
        BackendError::EntityNotFound { schema, entity_id } => {
            let mut r = String::from_str("entity '");
            r.append(entity_id.as_str());
            r.append("' not found in schema '");
            r.append(schema.as_str());
            r.append("'");
            r
        },
        BackendError::SchemaNotFound { schema } => {
            let mut r = String::from_str("schema '");
            r.append(schema.as_str());
            r.append("' not found");
            r
        },
        BackendError::SchemaAlreadyExists { schema } => {
            let mut r = String::from_str("schema '");
            r.append(schema.as_str());
            r.append("' already exists");
            r
        },
        BackendError::ValidationFailed { field, reason } => {
            let mut r = String::from_str("validation failed for field '");
            r.append(field.as_str());
            r.append("': ");
            r.append(reason.as_str());
            r
        },
        BackendError::RequiredFieldMissing { field } => {
            let mut r = String::from_str("required field '");
            r.append(field.as_str());
            r.append("' is missing");
            r
        },
        BackendError::TypeMismatch { field, expected, actual } => {
            let mut r = String::from_str("type mismatch for field '");
            r.append(field.as_str());
            r.append("': expected ");
            r.append(expected.as_str());
            r.append(", got ");
            r.append(actual.as_str());
            r
        },
        BackendError::MigrationFailed { step, reason } => {
            let mut r = String::from_str("migration step failed (");
            r.append(step.as_str());
            r.append("): ");
            r.append(reason.as_str());
            r
        },
        BackendError::ConnectionError { message } => concat2("connection error: ", message.as_str()),
        BackendError::QueryError { message } => concat2("query error: ", message.as_str()),
        BackendError::Internal { message } => concat2("internal error: ", message.as_str()),
        BackendError::Other { message } => message.clone(),
    }
}

/// No markup character survives escaping: the result holds no `<`, `>`,
/// `"` or `'`.
pub proof fn lemma_html_escape_no_markup(s: Seq<char>)
    ensures
        forall|i: int|
            0 <= i < html_escape_spec(s).len() ==> {
                let c = #[trigger] html_escape_spec(s)[i];
                c != '<' && c != '>' && c != '"' && c != '\''
            },
    decreases s.len(),
{
    reveal_strlit("&amp;");
    reveal_strlit("&lt;");
    reveal_strlit("&gt;");
    reveal_strlit("&quot;");
    reveal_strlit("&#39;");
    if s.len() > 0 {
        lemma_html_escape_no_markup(s.drop_last());
        let a = html_escape_spec(s.drop_last());
        let b = escape_char(s.last());
        assert(html_escape_spec(s) == a + b);
        assert forall|i: int| 0 <= i < (a + b).len() implies {
            let c = #[trigger] (a + b)[i];
            c != '<' && c != '>' && c != '"' && c != '\''
        } by {
            if i < a.len() {
                assert((a + b)[i] == a[i]);
            } else {
                assert((a + b)[i] == b[i - a.len()]);
            }
        }
    }
}

} // verus!
