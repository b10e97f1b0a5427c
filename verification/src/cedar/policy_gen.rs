//! Cedar policy source generator.
//!
//! Pure functions that turn schema definitions into Cedar policy source.
//! Three categories of policy come out of this module:
//!
//! 1. **Global policies** — the `platform_admin` always-permit rule and, when a
//!    `User` schema exists, the User-management role-rank forbid rule.
//! 2. **Per-schema policies** — driven by the `@access` / `@owner`
//!    annotations, plus the schema-admin permit every schema receives.
//! 3. **Per-field policies** — driven by `@field_access`.
use vstd::prelude::*;

use crate::definition::{AccessRoles, FieldDefinition, SchemaDefinition};

use crate::text::{ascii_lower, to_ascii_lowercase, views, join_seq, join_strings, is_ascii_alnum, is_ascii_alnum_char, chars_of, push_char};

verus! {

/// A generated Cedar policy carrying a description for audit logs.
#[derive(Debug, Clone, PartialEq, Eq)]
pub struct CedarPolicy {
    /// Human-readable description of what this policy allows or denies.
    pub description: String,
    /// Cedar policy source text.
    pub cedar_text: String,
}

/// A policy as (description, Cedar text).
pub type PolicyView = (Seq<char>, Seq<char>);

impl CedarPolicy {
    pub open spec fn view(&self) -> PolicyView {
        (self.description@, self.cedar_text@)
    }

    /// A field-by-field copy.
    pub fn copy(&self) -> (r: CedarPolicy)
        ensures
            r@ == self@,
    {
        CedarPolicy { description: self.description.clone(), cedar_text: self.cedar_text.clone() }
    }
}

pub open spec fn policy_views(v: Seq<CedarPolicy>) -> Seq<PolicyView> {
    v.map_values(|p: CedarPolicy| p@)
}

// ---------------------------------------------------------------------------
// Fixed texts
// ---------------------------------------------------------------------------

pub const PLATFORM_ADMIN_PERMIT_DESCRIPTION: &'static str = "Members of Forge::Group::\"platform_admin\" are permitted any action on any resource";

pub const PLATFORM_ADMIN_PERMIT_TEXT: &'static str = r#"@id("forge.global.platform_admin_permit")
permit (
    principal,
    action,
    resource
) when {
    principal in Forge::Group::"platform_admin"
};"#;

pub const USER_RANK_GUARD_DESCRIPTION: &'static str = "Forbid User-management actions when the caller's role_rank is below the target's";

pub const USER_RANK_GUARD_TEXT: &'static str = r#"@id("forge.global.user_role_rank_guard")
forbid (
    principal,
    action in [
        Action::"ReadUser",
        Action::"ListUser",
        Action::"CreateUser",
        Action::"UpdateUser",
        Action::"DeleteUser"
    ],
    resource is User
) unless {
    principal.role_rank >= resource.role_rank
};"#;

// ---------------------------------------------------------------------------
// Specification of every generated policy
// ---------------------------------------------------------------------------

/// `sanitize_id`: every character that is not ASCII alphanumeric or `_`
/// becomes `_`.
pub open spec fn sanitize_id_spec(s: Seq<char>) -> Seq<char> {
    s.map_values(|c: char| if is_ascii_alnum(c) || c == '_' { c } else { '_' })
}

pub open spec fn owner_write_spec(name: Seq<char>, field: Seq<char>) -> PolicyView {
    (
        "Allow the owner (resource."@ + field + ") to update "@ + name + " entities they created"@,
        "@id(\"forge."@ + ascii_lower(name) + ".owner_write\")\npermit (\n    principal is Forge::Principal,\n    action == Action::\"Update"@
            + name + "\",\n    resource is "@ + name + "\n) when {\n    resource has \""@ + field
            + "\" && resource[\""@ + field + "\"] == principal.id\n};"@,
    )
}

pub open spec fn owner_restrict_spec(name: Seq<char>, field: Seq<char>) -> PolicyView {
    (
        "Forbid per-record actions on "@ + name
            + " when the caller does not own the record (resource."@ + field + ")"@,
        "@id(\"forge."@ + ascii_lower(name) + ".owner_restrict\")\nforbid (\n    principal is Forge::Principal,\n    action in [\n        Action::\"Read"@
            + name + "\",\n        Action::\"List"@ + name + "\",\n        Action::\"Update"@ + name
            + "\",\n        Action::\"Delete"@ + name + "\"\n    ],\n    resource is "@ + name
            + "\n) when {\n    resource has \""@ + field + "\"\n    && resource[\""@ + field
            + "\"] != principal.id\n    && !(principal in Forge::Group::\"platform_admin\")\n};"@,
    )
}

pub open spec fn schema_admin_spec(name: Seq<char>) -> PolicyView {
    (
        "Allow Forge::Group::\"schema-admin\" to modify the "@ + name + " schema"@,
        "@id(\"forge."@ + ascii_lower(name) + ".schema_admin\")\npermit (\n    principal in Forge::Group::\"schema-admin\",\n    action in [Action::\"UpdateSchema\", Action::\"DeleteSchema\"],\n    resource == Forge::Schema::\""@
            + name + "\"\n);"@,
    )
}

/// `action == A` for one action, `action in [A, B, ...]` otherwise.
pub open spec fn actions_clause_spec(actions: Seq<Seq<char>>) -> Seq<char> {
    if actions.len() == 1 {
        "action == "@ + actions[0]
    } else {
        "action in ["@ + join_seq(actions, ", "@) + "]"@
    }
}

pub open spec fn authenticated_spec(name: Seq<char>, label: Seq<char>, clause: Seq<char>) -> PolicyView {
    (
        "Allow any authenticated user to "@ + label + " "@ + name + " entities"@,
        "@id(\"forge."@ + ascii_lower(name) + "."@ + label
            + "_authenticated\")\npermit (\n    principal is Forge::Principal,\n    "@ + clause
            + ",\n    resource is "@ + name + "\n);"@,
    )
}

pub open spec fn public_spec(name: Seq<char>, label: Seq<char>, clause: Seq<char>) -> PolicyView {
    (
        "Allow public (unauthenticated) "@ + label + " on "@ + name + " entities"@,
        "@id(\"forge."@ + ascii_lower(name) + "."@ + label + "_public\")\npermit (\n    principal,\n    "@
            + clause + ",\n    resource is "@ + name + "\n);"@,
    )
}

pub open spec fn group_spec(name: Seq<char>, label: Seq<char>, clause: Seq<char>, role: Seq<char>) -> PolicyView {
    (
        "Allow Forge::Group::\""@ + role + "\" to "@ + label + " "@ + name + " entities"@,
        "@id(\"forge."@ + ascii_lower(name) + "."@ + label + "_"@ + sanitize_id_spec(role)
            + "\")\npermit (\n    principal in Forge::Group::\""@ + role + "\",\n    "@ + clause
            + ",\n    resource is "@ + name + "\n);"@,
    )
}

/// The policy one listed role receives: `public` opens the action to
/// unauthenticated callers, any other role to members of that group.
pub open spec fn role_spec(name: Seq<char>, label: Seq<char>, clause: Seq<char>, role: Seq<char>) -> PolicyView {
    if role == "public"@ {
        public_spec(name, label, clause)
    } else {
        group_spec(name, label, clause, role)
    }
}

/// An empty role list permits any authenticated user; otherwise each role
/// gets its own permit, in list order.
pub open spec fn role_policies_spec(
    name: Seq<char>,
    label: Seq<char>,
    actions: Seq<Seq<char>>,
    roles: Seq<Seq<char>>,
) -> Seq<PolicyView> {
    let clause = actions_clause_spec(actions);
    if roles.len() == 0 {
        seq![authenticated_spec(name, label, clause)]
    } else {
        roles.map_values(|r: Seq<char>| role_spec(name, label, clause, r))
    }
}

pub open spec fn quoted_action(verb: Seq<char>, name: Seq<char>) -> Seq<char> {
    "Action::\""@ + verb + name + "\""@
}

pub open spec fn annotation_policies_spec(
    name: Seq<char>,
    read: Seq<Seq<char>>,
    write: Seq<Seq<char>>,
    delete: Seq<Seq<char>>,
) -> Seq<PolicyView> {
    role_policies_spec(
        name,
        "read"@,
        seq![quoted_action("Read"@, name), quoted_action("List"@, name)],
        read,
    ) + role_policies_spec(
        name,
        "write"@,
        seq![quoted_action("Create"@, name), quoted_action("Update"@, name)],
        write,
    ) + role_policies_spec(name, "delete"@, seq![quoted_action("Delete"@, name)], delete)
}

pub open spec fn field_authenticated_spec(
    name: Seq<char>,
    field: Seq<char>,
    label: Seq<char>,
    action: Seq<char>,
) -> PolicyView {
    (
        "Allow any authenticated user to "@ + label + " field "@ + field + " on "@ + name,
        "@id(\"forge."@ + ascii_lower(name) + ".field_"@ + field + "_"@ + label
            + "_authenticated\")\npermit (\n    principal is Forge::Principal,\n    action == "@
            + action + ",\n    resource is "@ + name + "\n);"@,
    )
}

pub open spec fn field_group_spec(
    name: Seq<char>,
    field: Seq<char>,
    label: Seq<char>,
    action: Seq<char>,
    role: Seq<char>,
) -> PolicyView {
    (
        "Allow Forge::Group::\""@ + role + "\" to "@ + label + " field "@ + field + " on "@ + name,
        "@id(\"forge."@ + ascii_lower(name) + ".field_"@ + field + "_"@ + label + "_"@
            + sanitize_id_spec(role) + "\")\npermit (\n    principal in Forge::Group::\""@ + role
            + "\",\n    action == "@ + action + ",\n    resource is "@ + name + "\n);"@,
    )
}

pub open spec fn field_action_policies_spec(
    name: Seq<char>,
    field: Seq<char>,
    label: Seq<char>,
    action: Seq<char>,
    roles: Seq<Seq<char>>,
) -> Seq<PolicyView> {
    if roles.len() == 0 {
        seq![field_authenticated_spec(name, field, label, action)]
    } else {
        roles.map_values(|r: Seq<char>| field_group_spec(name, field, label, action, r))
    }
}

pub open spec fn field_policies_of(name: Seq<char>, f: FieldDefinition) -> Seq<PolicyView> {
    match f.field_access {
        None => Seq::empty(),
        Some(fa) => field_action_policies_spec(
            name,
            f.name@,
            "read"@,
            "Action::\"ReadField"@ + name + "_"@ + f.name@ + "\""@,
            views(fa.read@),
        ) + field_action_policies_spec(
            name,
            f.name@,
            "write"@,
            "Action::\"WriteField"@ + name + "_"@ + f.name@ + "\""@,
            views(fa.write@),
        ),
    }
}

/// Per-field policies of the fields in order.
pub open spec fn field_access_policies_spec(name: Seq<char>, fields: Seq<FieldDefinition>) -> Seq<PolicyView>
    decreases fields.len(),
{
    if fields.len() == 0 {
        Seq::empty()
    } else {
        field_access_policies_spec(name, fields.drop_last()) + field_policies_of(name, fields.last())
    }
}

/// The first field carrying `@owner`, if any.
pub open spec fn owner_field_spec(fields: Seq<FieldDefinition>) -> Option<Seq<char>>
    decreases fields.len(),
{
    if fields.len() == 0 {
        None
    } else if fields[0].owner {
        Some(fields[0].name@)
    } else {
        owner_field_spec(fields.drop_first())
    }
}

/// Every policy generated for one schema, in emission order.
pub open spec fn schema_policies_spec(s: SchemaDefinition) -> Seq<PolicyView> {
    let name = s.name@;
    let base = match s.access {
        Some(a) => annotation_policies_spec(name, views(a.read@), views(a.write@), views(a.delete@)),
        None => Seq::empty(),
    };
    let owned = match owner_field_spec(s.fields@) {
        Some(f) => base + seq![owner_write_spec(name, f), owner_restrict_spec(name, f)],
        None => base,
    };
    owned + seq![schema_admin_spec(name)] + field_access_policies_spec(name, s.fields@)
}

pub open spec fn has_user_schema(schemas: Seq<SchemaDefinition>) -> bool {
    exists|i: int| 0 <= i < schemas.len() && schemas[i].name@ == "User"@
}

pub open spec fn global_policies_spec(schemas: Seq<SchemaDefinition>) -> Seq<PolicyView> {
    if has_user_schema(schemas) {
        seq![
            (PLATFORM_ADMIN_PERMIT_DESCRIPTION@, PLATFORM_ADMIN_PERMIT_TEXT@),
            (USER_RANK_GUARD_DESCRIPTION@, USER_RANK_GUARD_TEXT@),
        ]
    } else {
        seq![(PLATFORM_ADMIN_PERMIT_DESCRIPTION@, PLATFORM_ADMIN_PERMIT_TEXT@)]
    }
}

/// Per-schema policies of every schema, in order.
pub open spec fn all_schema_policies_spec(schemas: Seq<SchemaDefinition>) -> Seq<PolicyView>
    decreases schemas.len(),
{
    if schemas.len() == 0 {
        Seq::empty()
    } else {
        all_schema_policies_spec(schemas.drop_last()) + schema_policies_spec(schemas.last())
    }
}

// ---------------------------------------------------------------------------
// Generation
// ---------------------------------------------------------------------------

fn policy(description: String, cedar_text: String) -> (p: CedarPolicy)
    ensures
        p@ == (description@, cedar_text@),
{
    CedarPolicy { description, cedar_text }
}

/// Maps every character that is not ASCII alphanumeric or `_` to `_`.
pub fn sanitize_id(s: &str) -> (r: String)
    ensures
        r@ == sanitize_id_spec(s@),
{
    let v = chars_of(s);
    let mut r = String::new();
    let mut i: usize = 0;
    while i < v.len()
        invariant
            v@ == s@,
            i <= v@.len(),
            r@ == sanitize_id_spec(s@).subrange(0, i as int),
        decreases v@.len() - i,
    {
        let c = v[i];
        let d = if is_ascii_alnum_char(c) || c == '_' {
            c
        } else {
            '_'
        };
        push_char(&mut r, d);
        i += 1;
        assert(r@ =~= sanitize_id_spec(s@).subrange(0, i as int));
    }
    assert(r@ =~= sanitize_id_spec(s@));
    r
}

fn platform_admin_permit_policy() -> (p: CedarPolicy)
    ensures
        p@ == (PLATFORM_ADMIN_PERMIT_DESCRIPTION@, PLATFORM_ADMIN_PERMIT_TEXT@),
{
    policy(
        String::from_str(PLATFORM_ADMIN_PERMIT_DESCRIPTION),
        String::from_str(PLATFORM_ADMIN_PERMIT_TEXT),
    )
}

fn user_management_role_rank_forbid_policy() -> (p: CedarPolicy)
    ensures
        p@ == (USER_RANK_GUARD_DESCRIPTION@, USER_RANK_GUARD_TEXT@),
{
    policy(
        String::from_str(USER_RANK_GUARD_DESCRIPTION),
        String::from_str(USER_RANK_GUARD_TEXT),
    )
}

fn owner_write_policy(name: &str, field: &str) -> (p: CedarPolicy)
    ensures
        p@ == owner_write_spec(name@, field@),
{
    let lname = to_ascii_lowercase(name);
    let mut d = String::from_str("Allow the owner (resource.");
    d.append(field);
    d.append(") to update ");
    d.append(name);
    d.append(" entities they created");
    let mut t = String::from_str("@id(\"forge.");
    t.append(lname.as_str());
    t.append(".owner_write\")\npermit (\n    principal is Forge::Principal,\n    action == Action::\"Update");
    t.append(name);
    t.append("\",\n    resource is ");
    t.append(name);
    t.append("\n) when {\n    resource has \"");
    t.append(field);
    t.append("\" && resource[\"");
    t.append(field);
    t.append("\"] == principal.id\n};");
    policy(d, t)
}

fn owner_restrict_forbid_policy(name: &str, field: &str) -> (p: CedarPolicy)
    ensures
        p@ == owner_restrict_spec(name@, field@),
{
    let lname = to_ascii_lowercase(name);
    let mut d = String::from_str("Forbid per-record actions on ");
    d.append(name);
    d.append(" when the caller does not own the record (resource.");
    d.append(field);
    d.append(")");
    let mut t = String::from_str("@id(\"forge.");
    t.append(lname.as_str());
    t.append(".owner_restrict\")\nforbid (\n    principal is Forge::Principal,\n    action in [\n        Action::\"Read");
    t.append(name);
    t.append("\",\n        Action::\"List");
    t.append(name);
    t.append("\",\n        Action::\"Update");
    t.append(name);
    t.append("\",\n        Action::\"Delete");
    t.append(name);
    t.append("\"\n    ],\n    resource is ");
    t.append(name);
    t.append("\n) when {\n    resource has \"");
    t.append(field);
    t.append("\"\n    && resource[\"");
    t.append(field);
    t.append("\"] != principal.id\n    && !(principal in Forge::Group::\"platform_admin\")\n};");
    policy(d, t)
}

fn schema_admin_policy(name: &str) -> (p: CedarPolicy)
    ensures
        p@ == schema_admin_spec(name@),
{
    let lname = to_ascii_lowercase(name);
    let mut d = String::from_str("Allow Forge::Group::\"schema-admin\" to modify the ");
    d.append(name);
    d.append(" schema");
    let mut t = String::from_str("@id(\"forge.");
    t.append(lname.as_str());
    t.append(".schema_admin\")\npermit (\n    principal in Forge::Group::\"schema-admin\",\n    action in [Action::\"UpdateSchema\", Action::\"DeleteSchema\"],\n    resource == Forge::Schema::\"");
    t.append(name);
    t.append("\"\n);");
    policy(d, t)
}

/// `action == A` for a single action, `action in [A, B, ...]` otherwise.
pub fn format_actions_clause(actions: &[String]) -> (r: String)
    ensures
        r@ == actions_clause_spec(views(actions@)),
{
    if actions.len() == 1 {
        let mut r = String::from_str("action == ");
        r.append(actions[0].as_str());
        r
    } else {
        let mut r = String::from_str("action in [");
        let joined = join_strings(actions, ", ");
        r.append(joined.as_str());
        r.append("]");
        r
    }
}

fn authenticated_policy(name: &str, label: &str, clause: &str) -> (p: CedarPolicy)
    ensures
        p@ == authenticated_spec(name@, label@, clause@),
{
    let lname = to_ascii_lowercase(name);
    let mut d = String::from_str("Allow any authenticated user to ");
    d.append(label);
    d.append(" ");
    d.append(name);
    d.append(" entities");
    let mut t = String::from_str("@id(\"forge.");
    t.append(lname.as_str());
    t.append(".");
    t.append(label);
    t.append("_authenticated\")\npermit (\n    principal is Forge::Principal,\n    ");
    t.append(clause);
    t.append(",\n    resource is ");
    t.append(name);
    t.append("\n);");
    policy(d, t)
}

fn public_policy(name: &str, label: &str, clause: &str) -> (p: CedarPolicy)
    ensures
        p@ == public_spec(name@, label@, clause@),
{
    let lname = to_ascii_lowercase(name);
    let mut d = String::from_str("Allow public (unauthenticated) ");
    d.append(label);
    d.append(" on ");
    d.append(name);
    d.append(" entities");
    let mut t = String::from_str("@id(\"forge.");
    t.append(lname.as_str());
    t.append(".");
    t.append(label);
    t.append("_public\")\npermit (\n    principal,\n    ");
    t.append(clause);
    t.append(",\n    resource is ");
    t.append(name);
    t.append("\n);");
    policy(d, t)
}

fn group_policy(name: &str, label: &str, clause: &str, role: &str) -> (p: CedarPolicy)
    ensures
        p@ == group_spec(name@, label@, clause@, role@),
{
    let lname = to_ascii_lowercase(name);
    let suffix = sanitize_id(role);
    let mut d = String::from_str("Allow Forge::Group::\"");
    d.append(role);
    d.append("\" to ");
    d.append(label);
    d.append(" ");
    d.append(name);
    d.append(" entities");
    let mut t = String::from_str("@id(\"forge.");
    t.append(lname.as_str());
    t.append(".");
    t.append(label);
    t.append("_");
    t.append(suffix.as_str());
    t.append("\")\npermit (\n    principal in Forge::Group::\"");
    t.append(role);
    t.append("\",\n    ");
    t.append(clause);
    t.append(",\n    resource is ");
    t.append(name);
    t.append("\n);");
    policy(d, t)
}

/// Appends the policies for one action group (`read`, `write`, `delete`).
pub fn push_role_policies(
    out: &mut Vec<CedarPolicy>,
    schema_name: &str,
    label: &str,
    actions: &[String],
    roles: &[String],
)
    ensures
        policy_views(final(out)@) == policy_views(old(out)@) + role_policies_spec(
            schema_name@,
            label@,
            views(actions@),
            views(roles@),
        ),
{
    let clause = format_actions_clause(actions);
    let ghost start = policy_views(out@);
    let ghost cl = actions_clause_spec(views(actions@));
    if roles.len() == 0 {
        let p = authenticated_policy(schema_name, label, clause.as_str());
        out.push(p);
        assert(policy_views(out@) =~= start + seq![authenticated_spec(schema_name@, label@, cl)]);
        return;
    }
    let ghost rs = views(roles@);
    let mut i: usize = 0;
    while i < roles.len()
        invariant
            i <= roles@.len(),
            rs == views(roles@),
            clause@ == cl,
            policy_views(out@) == start + rs.subrange(0, i as int).map_values(
                |r: Seq<char>| role_spec(schema_name@, label@, cl, r),
            ),
        decreases roles@.len() - i,
    {
        let role = &roles[i];
        let p = if *role == String::from_str("public") {
            public_policy(schema_name, label, clause.as_str())
        } else {
            group_policy(schema_name, label, clause.as_str(), role.as_str())
        };
        let ghost before = out@;
        out.push(p);
        proof {
            assert(rs[i as int] == role@);
        }
        i += 1;
        assert(policy_views(out@) =~= start + rs.subrange(0, i as int).map_values(
            |r: Seq<char>| role_spec(schema_name@, label@, cl, r),
        )) by {
            assert(policy_views(out@) == policy_views(before).push(p@));
            assert(rs.subrange(0, i as int).map_values(|r: Seq<char>| role_spec(schema_name@, label@, cl, r))
                =~= rs.subrange(0, i - 1).map_values(|r: Seq<char>| role_spec(schema_name@, label@, cl, r)).push(
                role_spec(schema_name@, label@, cl, rs[i - 1]),
            ));
        }
    }
    assert(rs.subrange(0, roles@.len() as int) =~= rs);
}

fn quoted(verb: &str, name: &str) -> (r: String)
    ensures
        r@ == quoted_action(verb@, name@),
{
    let mut r = String::from_str("Action::\"");
    r.append(verb);
    r.append(name);
    r.append("\"");
    r
}

/// Policies driven by a schema's `@access` role lists.
pub fn generate_annotation_policies(
    name: &str,
    read_roles: &[String],
    write_roles: &[String],
    delete_roles: &[String],
) -> (r: Vec<CedarPolicy>)
    ensures
        policy_views(r@) == annotation_policies_spec(
            name@,
            views(read_roles@),
            views(write_roles@),
            views(delete_roles@),
        ),
{
    let mut policies: Vec<CedarPolicy> = Vec::new();
    let mut read_actions: Vec<String> = Vec::new();
    read_actions.push(quoted("Read", name));
    read_actions.push(quoted("List", name));
    let mut write_actions: Vec<String> = Vec::new();
    write_actions.push(quoted("Create", name));
    write_actions.push(quoted("Update", name));
    let mut delete_actions: Vec<String> = Vec::new();
    delete_actions.push(quoted("Delete", name));
    assert(views(read_actions@) =~= seq![quoted_action("Read"@, name@), quoted_action("List"@, name@)]);
    assert(views(write_actions@) =~= seq![quoted_action("Create"@, name@), quoted_action("Update"@, name@)]);
    assert(views(delete_actions@) =~= seq![quoted_action("Delete"@, name@)]);
    assert(policy_views(policies@) =~= Seq::<PolicyView>::empty());
    push_role_policies(&mut policies, name, "read", read_actions.as_slice(), read_roles);
    push_role_policies(&mut policies, name, "write", write_actions.as_slice(), write_roles);
    push_role_policies(&mut policies, name, "delete", delete_actions.as_slice(), delete_roles);
    policies
}

fn field_authenticated_policy(name: &str, field: &str, label: &str, action: &str) -> (p: CedarPolicy)
    ensures
        p@ == field_authenticated_spec(name@, field@, label@, action@),
{
    let lname = to_ascii_lowercase(name);
    let mut d = String::from_str("Allow any authenticated user to ");
    d.append(label);
    d.append(" field ");
    d.append(field);
    d.append(" on ");
    d.append(name);
    let mut t = String::from_str("@id(\"forge.");
    t.append(lname.as_str());
    t.append(".field_");
    t.append(field);
    t.append("_");
    t.append(label);
    t.append("_authenticated\")\npermit (\n    principal is Forge::Principal,\n    action == ");
    t.append(action);
    t.append(",\n    resource is ");
    t.append(name);
    t.append("\n);");
    policy(d, t)
}

fn field_group_policy(name: &str, field: &str, label: &str, action: &str, role: &str) -> (p: CedarPolicy)
    ensures
        p@ == field_group_spec(name@, field@, label@, action@, role@),
{
    let lname = to_ascii_lowercase(name);
    let suffix = sanitize_id(role);
    let mut d = String::from_str("Allow Forge::Group::\"");
    d.append(role);
    d.append("\" to ");
    d.append(label);
    d.append(" field ");
    d.append(field);
    d.append(" on ");
    d.append(name);
    let mut t = String::from_str("@id(\"forge.");
    t.append(lname.as_str());
    t.append(".field_");
    t.append(field);
    t.append("_");
    t.append(label);
    t.append("_");
    t.append(suffix.as_str());
    t.append("\")\npermit (\n    principal in Forge::Group::\"");
    t.append(role);
    t.append("\",\n    action == ");
    t.append(action);
    t.append(",\n    resource is ");
    t.append(name);
    t.append("\n);");
    policy(d, t)
}

/// The per-field permits for one direction (`read` or `write`) of a field.
pub fn field_action_policies(
    schema_name: &str,
    field_name: &str,
    label: &str,
    action_uid: &str,
    roles: &[String],
) -> (r: Vec<CedarPolicy>)
    ensures
        policy_views(r@) == field_action_policies_spec(
            schema_name@,
            field_name@,
            label@,
            action_uid@,
            views(roles@),
        ),
{
    let mut out: Vec<CedarPolicy> = Vec::new();
    if roles.len() == 0 {
        out.push(field_authenticated_policy(schema_name, field_name, label, action_uid));
        assert(policy_views(out@) =~= seq![field_authenticated_spec(schema_name@, field_name@, label@, action_uid@)]);
        return out;
    }
    let ghost rs = views(roles@);
    let mut i: usize = 0;
    while i < roles.len()
        invariant
            i <= roles@.len(),
            rs == views(roles@),
            policy_views(out@) == rs.subrange(0, i as int).map_values(
                |r: Seq<char>| field_group_spec(schema_name@, field_name@, label@, action_uid@, r),
            ),
        decreases roles@.len() - i,
    {
        let p = field_group_policy(schema_name, field_name, label, action_uid, roles[i].as_str());
        let ghost before = out@;
        out.push(p);
        proof {
            assert(rs[i as int] == roles@[i as int]@);
        }
        i += 1;
        assert(policy_views(out@) =~= rs.subrange(0, i as int).map_values(
            |r: Seq<char>| field_group_spec(schema_name@, field_name@, label@, action_uid@, r),
        )) by {
            assert(policy_views(out@) == policy_views(before).push(p@));
        }
    }
    assert(rs.subrange(0, roles@.len() as int) =~= rs);
    out
}

fn field_uid(kind: &str, name: &str, field: &str) -> (r: String)
    ensures
        r@ == "Action::\""@ + kind@ + name@ + "_"@ + field@ + "\""@,
{
    let mut r = String::from_str("Action::\"");
    r.append(kind);
    r.append(name);
    r.append("_");
    r.append(field);
    r.append("\"");
    r
}

/// Per-field permits for every field carrying `@field_access`, in field order.
pub fn generate_field_access_policies(schema: &SchemaDefinition) -> (r: Vec<CedarPolicy>)
    ensures
        policy_views(r@) == field_access_policies_spec(schema.name@, schema.fields@),
{
    let name = schema.name.as_str();
    let mut out: Vec<CedarPolicy> = Vec::new();
    let mut i: usize = 0;
    while i < schema.fields.len()
        invariant
            i <= schema.fields@.len(),
            name@ == schema.name@,
            policy_views(out@) == field_access_policies_spec(
                schema.name@,
                schema.fields@.subrange(0, i as int),
            ),
        decreases schema.fields@.len() - i,
    {
        let field = &schema.fields[i];
        let ghost before = policy_views(out@);
        let ghost prefix = schema.fields@.subrange(0, i + 1);
        proof {
            assert(prefix.drop_last() =~= schema.fields@.subrange(0, i as int));
            assert(prefix.last() == *field);
        }
        match &field.field_access {
            None => {
                assert(policy_views(out@) =~= field_access_policies_spec(schema.name@, prefix));
            },
            Some(fa) => {
                let fname = field.name.as_str();
                let read_uid = field_uid("ReadField", name, fname);
                let write_uid = field_uid("WriteField", name, fname);
                proof {
                    reveal_strlit("Action::\"ReadField");
                    reveal_strlit("Action::\"WriteField");
                    reveal_strlit("Action::\"");
                    reveal_strlit("ReadField");
                    reveal_strlit("WriteField");
                    assert(read_uid@ =~= "Action::\"ReadField"@ + name@ + "_"@ + fname@ + "\""@);
                    assert(write_uid@ =~= "Action::\"WriteField"@ + name@ + "_"@ + fname@ + "\""@);
                }
                let reads = field_action_policies(name, fname, "read", read_uid.as_str(), fa.read.as_slice());
                let writes = field_action_policies(name, fname, "write", write_uid.as_str(), fa.write.as_slice());
                append_policies(&mut out, &reads);
                append_policies(&mut out, &writes);
                assert(policy_views(out@) =~= field_access_policies_spec(schema.name@, prefix));
            },
        }
        i += 1;
    }
    assert(schema.fields@.subrange(0, schema.fields@.len() as int) =~= schema.fields@);
    out
}

/// The name of the first field carrying `@owner`, if any.
pub fn find_owner_field(schema: &SchemaDefinition) -> (r: Option<String>)
    ensures
        match r {
            Some(f) => owner_field_spec(schema.fields@) == Some(f@),
            None => owner_field_spec(schema.fields@) is None,
        },
{
    let mut i: usize = 0;
    assert(schema.fields@.subrange(0, schema.fields@.len() as int) =~= schema.fields@);
    while i < schema.fields.len()
        invariant
            i <= schema.fields@.len(),
            owner_field_spec(schema.fields@) == owner_field_spec(
                schema.fields@.subrange(i as int, schema.fields@.len() as int),
            ),
        decreases schema.fields@.len() - i,
    {
        let ghost rest = schema.fields@.subrange(i as int, schema.fields@.len() as int);
        if schema.fields[i].owner {
            assert(rest[0] == schema.fields@[i as int]);
            return Some(schema.fields[i].name.clone());
        }
        assert(rest.drop_first() =~= schema.fields@.subrange(i + 1, schema.fields@.len() as int));
        i += 1;
    }
    None
}

fn append_policies(out: &mut Vec<CedarPolicy>, more: &Vec<CedarPolicy>)
    ensures
        policy_views(final(out)@) == policy_views(old(out)@) + policy_views(more@),
{
    let ghost start = policy_views(out@);
    let mut k: usize = 0;
    while k < more.len()
        invariant
            k <= more@.len(),
            policy_views(out@) == start + policy_views(more@).subrange(0, k as int),
        decreases more@.len() - k,
    {
        let ghost before = out@;
        let p = more[k].copy();
        out.push(p);
        assert(out@ == before.push(p));
        assert(policy_views(out@) == policy_views(before).push(p@));
        assert(p@ == policy_views(more@)[k as int]);
        k += 1;
        assert(policy_views(out@) =~= start + policy_views(more@).subrange(0, k as int));
    }
    assert(policy_views(more@).subrange(0, more@.len() as int) =~= policy_views(more@));
}

/// Generates the per-schema policy set.
///
/// Secure by default: without `@access` a schema receives no user-facing
/// permits, only the schema-admin permit (and the global platform-admin
/// permit). `@owner` adds the owner-write permit and the owner-restrict
/// forbid; `@field_access` adds per-field permits.
pub fn generate_cedar_policies(schema: &SchemaDefinition) -> (r: Vec<CedarPolicy>)
    ensures
        policy_views(r@) == schema_policies_spec(*schema),
{
    let name = schema.name.as_str();
    let mut policies: Vec<CedarPolicy> = match &schema.access {
        Some(a) => generate_annotation_policies(name, a.read.as_slice(), a.write.as_slice(), a.delete.as_slice()),
        None => {
            let v: Vec<CedarPolicy> = Vec::new();
            assert(policy_views(v@) =~= Seq::<PolicyView>::empty());
            v
        },
    };
    match find_owner_field(schema) {
        Some(f) => {
            let ghost before = policy_views(policies@);
            policies.push(owner_write_policy(name, f.as_str()));
            policies.push(owner_restrict_forbid_policy(name, f.as_str()));
            assert(policy_views(policies@) =~= before + seq![owner_write_spec(name@, f@), owner_restrict_spec(name@, f@)]);
        },
        None => {},
    }
    let ghost before = policy_views(policies@);
    policies.push(schema_admin_policy(name));
    assert(policy_views(policies@) =~= before + seq![schema_admin_spec(name@)]);
    let fields = generate_field_access_policies(schema);
    append_policies(&mut policies, &fields);
    policies
}

/// Whether any schema is named `User`.
fn any_user_schema(schemas: &[SchemaDefinition]) -> (b: bool)
    ensures
        b == has_user_schema(schemas@),
{
    let user = String::from_str("User");
    let mut i: usize = 0;
    while i < schemas.len()
        invariant
            i <= schemas@.len(),
            user@ == "User"@,
            forall|j: int| 0 <= j < i ==> schemas@[j].name@ != "User"@,
        decreases schemas@.len() - i,
    {
        if schemas[i].name == user {
            return true;
        }
        i += 1;
    }
    false
}

/// Generates the cross-schema global policies: the platform-admin permit,
/// and the User role-rank guard when a `User` schema is present.
pub fn generate_global_policies(schemas: &[SchemaDefinition]) -> (r: Vec<CedarPolicy>)
    ensures
        policy_views(r@) == global_policies_spec(schemas@),
{
    let mut out: Vec<CedarPolicy> = Vec::new();
    out.push(platform_admin_permit_policy());
    if any_user_schema(schemas) {
        out.push(user_management_role_rank_forbid_policy());
    }
    assert(policy_views(out@) =~= global_policies_spec(schemas@));
    out
}

/// Generates the full policy set: the global policies followed by each
/// schema's policies in order.
pub fn generate_full_policy_set(schemas: &[SchemaDefinition]) -> (r: Vec<CedarPolicy>)
    ensures
        policy_views(r@) == global_policies_spec(schemas@) + all_schema_policies_spec(schemas@),
{
    let mut out = generate_global_policies(schemas);
    let mut i: usize = 0;
    while i < schemas.len()
        invariant
            i <= schemas@.len(),
            policy_views(out@) == global_policies_spec(schemas@) + all_schema_policies_spec(
                schemas@.subrange(0, i as int),
            ),
        decreases schemas@.len() - i,
    {
        let more = generate_cedar_policies(&schemas[i]);
        append_policies(&mut out, &more);
        proof {
            let prefix = schemas@.subrange(0, i + 1);
            assert(prefix.drop_last() =~= schemas@.subrange(0, i as int));
        }
        i += 1;
    }
    assert(schemas@.subrange(0, schemas@.len() as int) =~= schemas@);
    out
}

// ---------------------------------------------------------------------------
// Laws
// ---------------------------------------------------------------------------

/// No field carries `@field_access`.
pub open spec fn no_field_access(fields: Seq<FieldDefinition>) -> bool {
    forall|i: int| 0 <= i < fields.len() ==> (#[trigger] fields[i]).field_access is None
}

proof fn lemma_no_field_policies(name: Seq<char>, fields: Seq<FieldDefinition>)
    requires
        no_field_access(fields),
    ensures
        field_access_policies_spec(name, fields) == Seq::<PolicyView>::empty(),
    decreases fields.len(),
{
    if fields.len() > 0 {
        assert(no_field_access(fields.drop_last())) by {
            assert forall|i: int| 0 <= i < fields.drop_last().len() implies (
            #[trigger] fields.drop_last()[i]).field_access is None by {
                assert(fields.drop_last()[i] == fields[i]);
            }
        }
        lemma_no_field_policies(name, fields.drop_last());
        assert(fields.last().field_access is None) by {
            assert(fields[fields.len() - 1].field_access is None);
        }
    }
}

/// Secure by default: a schema with no `@access`, no `@owner` field and no
/// `@field_access` field receives exactly one policy, the schema-admin
/// permit; no user-facing permit is generated for it.
pub proof fn lemma_secure_by_default(s: SchemaDefinition)
    requires
        s.access is None,
        owner_field_spec(s.fields@) is None,
        no_field_access(s.fields@),
    ensures
        schema_policies_spec(s) == seq![schema_admin_spec(s.name@)],
{
    lemma_no_field_policies(s.name@, s.fields@);
    assert(Seq::<PolicyView>::empty() + seq![schema_admin_spec(s.name@)] + Seq::<PolicyView>::empty()
        =~= seq![schema_admin_spec(s.name@)]);
}

/// Every schema receives the schema-admin permit, whatever its annotations.
pub proof fn lemma_schema_admin_always_present(s: SchemaDefinition)
    ensures
        schema_policies_spec(s).contains(schema_admin_spec(s.name@)),
{
    let name = s.name@;
    let base = match s.access {
        Some(a) => annotation_policies_spec(name, views(a.read@), views(a.write@), views(a.delete@)),
        None => Seq::empty(),
    };
    let owned = match owner_field_spec(s.fields@) {
        Some(f) => base + seq![owner_write_spec(name, f), owner_restrict_spec(name, f)],
        None => base,
    };
    let all = owned + seq![schema_admin_spec(name)] + field_access_policies_spec(name, s.fields@);
    assert(all[owned.len() as int] == schema_admin_spec(name));
}

/// `@owner` always yields the owner-write permit and the owner-restrict
/// forbid for the first owner field, independent of any `@access`.
pub proof fn lemma_owner_independent_of_access(s: SchemaDefinition, f: Seq<char>)
    requires
        owner_field_spec(s.fields@) == Some(f),
    ensures
        schema_policies_spec(s).contains(owner_write_spec(s.name@, f)),
        schema_policies_spec(s).contains(owner_restrict_spec(s.name@, f)),
{
    let name = s.name@;
    let base = match s.access {
        Some(a) => annotation_policies_spec(name, views(a.read@), views(a.write@), views(a.delete@)),
        None => Seq::empty(),
    };
    let owned = base + seq![owner_write_spec(name, f), owner_restrict_spec(name, f)];
    let all = owned + seq![schema_admin_spec(name)] + field_access_policies_spec(name, s.fields@);
    assert(all[base.len() as int] == owner_write_spec(name, f));
    assert(all[base.len() as int + 1] == owner_restrict_spec(name, f));
}

/// The global policies start with the platform-admin permit, and include
/// the User role-rank guard exactly when some schema is named `User`.
pub proof fn lemma_global_policies(schemas: Seq<SchemaDefinition>)
    ensures
        global_policies_spec(schemas)[0] == (PLATFORM_ADMIN_PERMIT_DESCRIPTION@, PLATFORM_ADMIN_PERMIT_TEXT@),
        global_policies_spec(schemas).contains((USER_RANK_GUARD_DESCRIPTION@, USER_RANK_GUARD_TEXT@))
            <==> has_user_schema(schemas),
{
    reveal_strlit("Members of Forge::Group::\"platform_admin\" are permitted any action on any resource");
    reveal_strlit("Forbid User-management actions when the caller's role_rank is below the target's");
    let g = global_policies_spec(schemas);
    if has_user_schema(schemas) {
        assert(g[1] == (USER_RANK_GUARD_DESCRIPTION@, USER_RANK_GUARD_TEXT@));
    } else {
        if g.contains((USER_RANK_GUARD_DESCRIPTION@, USER_RANK_GUARD_TEXT@)) {
            assert(g.len() == 1);
            assert(PLATFORM_ADMIN_PERMIT_DESCRIPTION@[0] != USER_RANK_GUARD_DESCRIPTION@[0]);
        }
    }
}

/// `needle` occurs in `hay`.
pub open spec fn text_contains(hay: Seq<char>, needle: Seq<char>) -> bool {
    exists|p: int| 0 <= p <= hay.len() - needle.len() && #[trigger] hay.subrange(p, p + needle.len()) == needle
}

proof fn lemma_contains_middle(a: Seq<char>, b: Seq<char>, c: Seq<char>)
    ensures
        text_contains(a + b + c, b),
{
    let h = a + b + c;
    assert(h.subrange(a.len() as int, (a.len() + b.len()) as int) =~= b);
}

proof fn lemma_write_clause(name: Seq<char>)
    ensures
        actions_clause_spec(seq![quoted_action("Create"@, name), quoted_action("Update"@, name)])
            == "action in [Action::\"Create"@ + name + "\", Action::\"Update"@ + name + "\"]"@,
{
    let acts = seq![quoted_action("Create"@, name), quoted_action("Update"@, name)];
    assert(acts.len() == 2);
    assert(acts.drop_last() =~= seq![quoted_action("Create"@, name)]);
    assert(acts.drop_last().len() == 1);
    assert(join_seq(acts.drop_last(), ", "@) == quoted_action("Create"@, name));
    assert(acts.last() == quoted_action("Update"@, name));
    assert(join_seq(acts, ", "@) == quoted_action("Create"@, name) + ", "@ + quoted_action("Update"@, name));
    reveal_strlit("action in [");
    reveal_strlit("]");
    reveal_strlit(", ");
    reveal_strlit("Action::\"");
    reveal_strlit("Create");
    reveal_strlit("Update");
    reveal_strlit("\"");
    reveal_strlit("action in [Action::\"Create");
    reveal_strlit("\", Action::\"Update");
    reveal_strlit("\"]");
    assert(actions_clause_spec(acts) =~= "action in [Action::\"Create"@ + name + "\", Action::\"Update"@ + name
        + "\"]"@);
}

proof fn lemma_role_permit_text(name: Seq<char>, label: Seq<char>, clause: Seq<char>, role: Seq<char>)
    ensures
        text_contains(role_spec(name, label, clause, role).1, clause),
        role != "public"@ ==> text_contains(
            role_spec(name, label, clause, role).1,
            "principal in Forge::Group::\""@ + role + "\","@,
        ),
{
    let text = role_spec(name, label, clause, role).1;
    let head = "@id(\"forge."@ + ascii_lower(name) + "."@ + label;
    let post = ",\n    resource is "@ + name + "\n);"@;
    if role == "public"@ {
        let pre = head + "_public\")\npermit (\n    principal,\n    "@;
        assert(text =~= pre + clause + post);
        lemma_contains_middle(pre, clause, post);
    } else {
        let pre = head + "_"@ + sanitize_id_spec(role) + "\")\npermit (\n    principal in Forge::Group::\""@ + role
            + "\",\n    "@;
        assert(text =~= pre + clause + post);
        lemma_contains_middle(pre, clause, post);
        let gneedle = "principal in Forge::Group::\""@ + role + "\","@;
        let gpre = head + "_"@ + sanitize_id_spec(role) + "\")\npermit (\n    "@;
        let gpost = "\n    "@ + clause + post;
        reveal_strlit("\")\npermit (\n    principal in Forge::Group::\"");
        reveal_strlit("\")\npermit (\n    ");
        reveal_strlit("principal in Forge::Group::\"");
        reveal_strlit("\",\n    ");
        reveal_strlit("\",");
        reveal_strlit("\n    ");
        assert(text =~= gpre + gneedle + gpost);
        lemma_contains_middle(gpre, gneedle, gpost);
    }
}

/// Write grants exactly create and update: for every role in a schema's
/// `@access` write list, the schema's policies hold a permit whose action
/// clause is `action in [Action::"Create<S>", Action::"Update<S>"]`; for a
/// role other than `public`, that permit's principal is a member of the
/// group `Forge::Group::"<role>"`.
pub proof fn lemma_write_grants_create_and_update(s: SchemaDefinition, a: AccessRoles, i: int)
    requires
        s.access == Some(a),
        0 <= i < a.write@.len(),
    ensures
        exists|k: int|
            0 <= k < schema_policies_spec(s).len() && #[trigger] text_contains(
                schema_policies_spec(s)[k].1,
                "action in [Action::\"Create"@ + s.name@ + "\", Action::\"Update"@ + s.name@ + "\"]"@,
            ) && (a.write@[i]@ != "public"@ ==> text_contains(
                schema_policies_spec(s)[k].1,
                "principal in Forge::Group::\""@ + a.write@[i]@ + "\","@,
            )),
{
    let name = s.name@;
    let read = views(a.read@);
    let write = views(a.write@);
    let delete = views(a.delete@);
    let acts = seq![quoted_action("Create"@, name), quoted_action("Update"@, name)];
    let clause = actions_clause_spec(acts);
    lemma_write_clause(name);
    let rp = role_policies_spec(name, "read"@, seq![quoted_action("Read"@, name), quoted_action("List"@, name)], read);
    let wp = role_policies_spec(name, "write"@, acts, write);
    let dp = role_policies_spec(name, "delete"@, seq![quoted_action("Delete"@, name)], delete);
    let base = annotation_policies_spec(name, read, write, delete);
    assert(base == rp + wp + dp);
    let role = write[i];
    assert(role == a.write@[i]@);
    assert(wp[i] == role_spec(name, "write"@, clause, role));
    lemma_role_permit_text(name, "write"@, clause, role);
    let k = rp.len() + i;
    assert(base[k] == wp[i]);
    let owned = match owner_field_spec(s.fields@) {
        Some(f) => base + seq![owner_write_spec(name, f), owner_restrict_spec(name, f)],
        None => base,
    };
    let all = owned + seq![schema_admin_spec(name)] + field_access_policies_spec(name, s.fields@);
    assert(all == schema_policies_spec(s));
    assert(all[k] == base[k]);
}

proof fn lemma_read_clause(name: Seq<char>)
    ensures
        actions_clause_spec(seq![quoted_action("Read"@, name), quoted_action("List"@, name)])
            == "action in [Action::\"Read"@ + name + "\", Action::\"List"@ + name + "\"]"@,
{
    let acts = seq![quoted_action("Read"@, name), quoted_action("List"@, name)];
    assert(acts.drop_last() =~= seq![quoted_action("Read"@, name)]);
    assert(join_seq(acts.drop_last(), ", "@) == quoted_action("Read"@, name));
    assert(join_seq(acts, ", "@) == quoted_action("Read"@, name) + ", "@ + quoted_action("List"@, name));
    reveal_strlit("action in [");
    reveal_strlit("]");
    reveal_strlit(", ");
    reveal_strlit("Action::\"");
    reveal_strlit("Read");
    reveal_strlit("List");
    reveal_strlit("\"");
    reveal_strlit("action in [Action::\"Read");
    reveal_strlit("\", Action::\"List");
    reveal_strlit("\"]");
    assert(actions_clause_spec(acts) =~= "action in [Action::\"Read"@ + name + "\", Action::\"List"@ + name
        + "\"]"@);
}

proof fn lemma_delete_clause(name: Seq<char>)
    ensures
        actions_clause_spec(seq![quoted_action("Delete"@, name)]) == "action == Action::\"Delete"@ + name + "\""@,
{
    reveal_strlit("action == ");
    reveal_strlit("Action::\"");
    reveal_strlit("Delete");
    reveal_strlit("\"");
    reveal_strlit("action == Action::\"Delete");
    assert(actions_clause_spec(seq![quoted_action("Delete"@, name)]) =~= "action == Action::\"Delete"@ + name
        + "\""@);
}

/// Read grants exactly read and list, delete exactly delete: for every
/// role in a schema's `@access` read list, the schema's policies hold a
/// permit whose action clause is `action in [Action::"Read<S>",
/// Action::"List<S>"]`, and for every role in its delete list one whose
/// clause is `action == Action::"Delete<S>"`; for a role other than
/// `public`, the permit's principal is a member of the role's group.
pub proof fn lemma_read_and_delete_grants(s: SchemaDefinition, a: AccessRoles, i: int, j: int)
    requires
        s.access == Some(a),
    ensures
        0 <= i < a.read@.len() ==> exists|k: int|
            0 <= k < schema_policies_spec(s).len() && #[trigger] text_contains(
                schema_policies_spec(s)[k].1,
                "action in [Action::\"Read"@ + s.name@ + "\", Action::\"List"@ + s.name@ + "\"]"@,
            ) && (a.read@[i]@ != "public"@ ==> text_contains(
                schema_policies_spec(s)[k].1,
                "principal in Forge::Group::\""@ + a.read@[i]@ + "\","@,
            )),
        0 <= j < a.delete@.len() ==> exists|k: int|
            0 <= k < schema_policies_spec(s).len() && #[trigger] text_contains(
                schema_policies_spec(s)[k].1,
                "action == Action::\"Delete"@ + s.name@ + "\""@,
            ) && (a.delete@[j]@ != "public"@ ==> text_contains(
                schema_policies_spec(s)[k].1,
                "principal in Forge::Group::\""@ + a.delete@[j]@ + "\","@,
            )),
{
    let name = s.name@;
    let read = views(a.read@);
    let write = views(a.write@);
    let delete = views(a.delete@);
    let racts = seq![quoted_action("Read"@, name), quoted_action("List"@, name)];
    let wacts = seq![quoted_action("Create"@, name), quoted_action("Update"@, name)];
    let dacts = seq![quoted_action("Delete"@, name)];
    let rp = role_policies_spec(name, "read"@, racts, read);
    let wp = role_policies_spec(name, "write"@, wacts, write);
    let dp = role_policies_spec(name, "delete"@, dacts, delete);
    let base = annotation_policies_spec(name, read, write, delete);
    assert(base == rp + wp + dp);
    let owned = match owner_field_spec(s.fields@) {
        Some(f) => base + seq![owner_write_spec(name, f), owner_restrict_spec(name, f)],
        None => base,
    };
    let all = owned + seq![schema_admin_spec(name)] + field_access_policies_spec(name, s.fields@);
    assert(all == schema_policies_spec(s));
    if 0 <= i < a.read@.len() {
        lemma_read_clause(name);
        let role = read[i];
        assert(role == a.read@[i]@);
        assert(rp[i] == role_spec(name, "read"@, actions_clause_spec(racts), role));
        lemma_role_permit_text(name, "read"@, actions_clause_spec(racts), role);
        assert(all[i] == base[i]);
        assert(base[i] == rp[i]);
    }
    if 0 <= j < a.delete@.len() {
        lemma_delete_clause(name);
        let role = delete[j];
        assert(role == a.delete@[j]@);
        assert(dp[j] == role_spec(name, "delete"@, actions_clause_spec(dacts), role));
        lemma_role_permit_text(name, "delete"@, actions_clause_spec(dacts), role);
        let k = rp.len() + wp.len() + j;
        assert(all[k] == base[k]);
        assert(base[k] == dp[j]);
    }
}

} // verus!
