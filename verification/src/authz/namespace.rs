//! String constants for the Cedar entity-type and action namespaces SchemaForge owns.
//!
//! All built-in Cedar types live under the `Forge::` namespace so user-defined
//! schemas with names like `User`, `Group`, or `Schema` cannot collide with
//! SchemaForge's own types.
use vstd::prelude::*;


verus! {

/// Cedar namespace owning every SchemaForge-built-in entity type and action.
pub const FORGE_NAMESPACE: &'static str = "Forge";

/// Cedar entity type for the authenticated user (the principal).
pub const PRINCIPAL_TYPE: &'static str = "Forge::Principal";

/// Cedar entity type for a role-membership group.
pub const GROUP_TYPE: &'static str = "Forge::Group";

/// Cedar entity type representing a multi-tenancy scope.
pub const TENANT_TYPE: &'static str = "Forge::Tenant";

/// Cedar entity type representing a SchemaForge schema definition.
pub const SCHEMA_TYPE: &'static str = "Forge::Schema";

/// Cedar action namespace prefix for SchemaForge built-in actions.
pub const ACTION_PREFIX: &'static str = "Forge::Action";

/// Action verbs recognised by the policy generator for entity CRUD.
#[derive(Debug, Clone, Copy, PartialEq, Eq, Hash)]
pub enum ActionVerb {
    /// Read a single entity by id.
    Read,
    /// List or query multiple entities of a schema.
    List,
    /// Create a new entity.
    Create,
    /// Update an existing entity.
    Update,
    /// Delete an existing entity.
    Delete,
}

/// The verb portion of an action name.
pub open spec fn verb_text(verb: ActionVerb) -> Seq<char> {
    match verb {
        ActionVerb::Read => "Read"@,
        ActionVerb::List => "List"@,
        ActionVerb::Create => "Create"@,
        ActionVerb::Update => "Update"@,
        ActionVerb::Delete => "Delete"@,
    }
}

/// `Forge::Action::"<inner>"`.
pub open spec fn action_uid_of(inner: Seq<char>) -> Seq<char> {
    "Forge::Action::\""@ + inner + "\""@
}

impl ActionVerb {
    /// Returns the verb portion of the action name (before the schema name).
    pub fn as_str(self) -> (s: &'static str)
        ensures
            s@ == verb_text(self),
    {
        match self {
            ActionVerb::Read => "Read",
            ActionVerb::List => "List",
            ActionVerb::Create => "Create",
            ActionVerb::Update => "Update",
            ActionVerb::Delete => "Delete",
        }
    }
}

/// Builds the fully-qualified action UID string for `verb` on `schema_name`,
/// e.g. `Forge::Action::"ReadContact"`.
pub fn action_uid(verb: ActionVerb, schema_name: &str) -> (r: String)
    ensures
        r@ == action_uid_of(verb_text(verb) + schema_name@),
{
    let mut r = String::from_str("Forge::Action::\"");
    r.append(verb.as_str());
    r.append(schema_name);
    r.append("\"");
    assert(r@ =~= action_uid_of(verb_text(verb) + schema_name@));
    r
}

/// Builds the fully-qualified action UID for the per-field read action,
/// e.g. `Forge::Action::"ReadFieldEmployee_salary"`.
pub fn field_read_action_uid(schema_name: &str, field_name: &str) -> (r: String)
    ensures
        r@ == action_uid_of("ReadField"@ + schema_name@ + "_"@ + field_name@),
{
    let mut r = String::from_str("Forge::Action::\"ReadField");
    r.append(schema_name);
    r.append("_");
    r.append(field_name);
    r.append("\"");
    proof {
        reveal_strlit("Forge::Action::\"ReadField");
        reveal_strlit("Forge::Action::\"");
        reveal_strlit("ReadField");
    }
    assert(r@ =~= action_uid_of("ReadField"@ + schema_name@ + "_"@ + field_name@));
    r
}

/// Builds the fully-qualified action UID for the per-field write action,
/// e.g. `Forge::Action::"WriteFieldEmployee_salary"`.
pub fn field_write_action_uid(schema_name: &str, field_name: &str) -> (r: String)
    ensures
        r@ == action_uid_of("WriteField"@ + schema_name@ + "_"@ + field_name@),
{
    let mut r = String::from_str("Forge::Action::\"WriteField");
    r.append(schema_name);
    r.append("_");
    r.append(field_name);
    r.append("\"");
    proof {
        reveal_strlit("Forge::Action::\"WriteField");
        reveal_strlit("Forge::Action::\"");
        reveal_strlit("WriteField");
    }
    assert(r@ =~= action_uid_of("WriteField"@ + schema_name@ + "_"@ + field_name@));
    r
}

} // verus!
