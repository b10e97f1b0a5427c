//! Schema-level and field-level access vocabulary: which Cedar verbs an
//! access check evaluates, the permission summaries handed to clients, and
//! the tenant a request is scoped to.
use vstd::prelude::*;

use crate::auth::Claims;
use crate::authz::adapters::{is_platform_admin, EntityParts};
use crate::authz::engine::{
    authorization_is, authorize, authorize_field, authz_message, field_action_text, field_authorization_is, AuthzDecision,
    AuthzError, FieldDirection,
};
use crate::authz::namespace::{action_uid_of, verb_text, ActionVerb};
use crate::authz::principal_claims::PrincipalClaimMappings;
use crate::authz::store::PolicyStoreSnapshot;
use crate::definition::{FieldDefinition, SchemaDefinition};
use crate::form::FieldValue;
use crate::text::{push_str, str_to_string};

verus! {

/// Actions that can be checked against schema-level `@access` annotations.
#[derive(Debug, Clone, Copy, PartialEq, Eq)]
pub enum AccessAction {
    /// Reading entities (GET single, GET list).
    Read,
    /// Listing entities (GET collection).
    List,
    /// Creating new entities (POST).
    Create,
    /// Updating existing entities (PUT/PATCH).
    Update,
    /// Accepted by the schema-level check as the union of `Create` and
    /// `Update`: the caller is permitted if they can do either.
    Write,
    /// Deleting entities (DELETE).
    Delete,
}

/// The verb evaluated first for an action.
pub open spec fn primary_verb_of(a: AccessAction) -> ActionVerb {
    match a {
        AccessAction::Read => ActionVerb::Read,
        AccessAction::List => ActionVerb::List,
        AccessAction::Create | AccessAction::Write => ActionVerb::Create,
        AccessAction::Update => ActionVerb::Update,
        AccessAction::Delete => ActionVerb::Delete,
    }
}

/// The verbs tried after the primary one, any of which also grants the action.
pub open spec fn additional_verbs_of(a: AccessAction) -> Seq<ActionVerb> {
    match a {
        AccessAction::Write => seq![ActionVerb::Update],
        _ => Seq::empty(),
    }
}

/// Every verb whose permission grants the action, in the order they are
/// evaluated.
pub open spec fn granting_verbs(a: AccessAction) -> Seq<ActionVerb> {
    seq![primary_verb_of(a)] + additional_verbs_of(a)
}

impl AccessAction {
    /// The verb evaluated first for this action.
    pub fn primary_verb(self) -> (v: ActionVerb)
        ensures
            v == primary_verb_of(self),
    {
        match self {
            AccessAction::Read => ActionVerb::Read,
            AccessAction::List => ActionVerb::List,
            AccessAction::Create | AccessAction::Write => ActionVerb::Create,
            AccessAction::Update => ActionVerb::Update,
            AccessAction::Delete => ActionVerb::Delete,
        }
    }

    /// The secondary verbs that may also grant this action: `Write`
    /// succeeds if either `Create` or `Update` is permitted.
    pub fn additional_verbs(self) -> (v: Vec<ActionVerb>)
        ensures
            v@ == additional_verbs_of(self),
    {
        let mut v: Vec<ActionVerb> = Vec::new();
        match self {
            AccessAction::Write => {
                v.push(ActionVerb::Update);
            },
            _ => {},
        }
        assert(v@ =~= additional_verbs_of(self));
        v
    }
}

/// `Write` is granted exactly by `Create` or `Update`; every other action by
/// its own verb alone.
pub proof fn lemma_write_is_create_or_update(a: AccessAction)
    ensures
        a == AccessAction::Write ==> granting_verbs(a) == seq![ActionVerb::Create, ActionVerb::Update],
        a != AccessAction::Write ==> granting_verbs(a) == seq![primary_verb_of(a)],
{
    assert(seq![ActionVerb::Create] + seq![ActionVerb::Update] =~= seq![
        ActionVerb::Create,
        ActionVerb::Update,
    ]);
    assert(seq![primary_verb_of(a)] + Seq::<ActionVerb>::empty() =~= seq![primary_verb_of(a)]);
}

/// Direction for field-level access filtering.
#[derive(Debug, Clone, Copy, PartialEq, Eq)]
pub enum FieldFilterDirection {
    /// Filter fields for read operations (GET responses).
    Read,
    /// Filter fields for write operations (POST/PUT request bodies).
    Write,
}

/// Summary of schema-level operations the caller may perform.
#[derive(Debug, Clone, Copy)]
pub struct SchemaPermissions {
    /// Whether the caller can create new entities of this schema.
    pub create: bool,
}

/// Summary of per-entity operations the caller may perform.
#[derive(Debug, Clone, Copy)]
pub struct EntityPermissions {
    /// Whether the caller can update this entity.
    pub update: bool,
    /// Whether the caller can delete this entity.
    pub delete: bool,
}

/// The reserved role name that grants unauthenticated (public) access.
pub const PUBLIC_ROLE: &'static str = "public";

/// The claims carry the `platform_admin` role.
pub open spec fn has_platform_admin(c: Claims) -> bool {
    exists|i: int| 0 <= i < c.roles@.len() && (#[trigger] c.roles@[i])@ == "platform_admin"@
}

/// The deepest tenant of the chain, when there is one.
pub open spec fn deepest_tenant(c: Claims) -> Option<Seq<char>> {
    if c.tenant_chain@.len() == 0 {
        None
    } else {
        Some(c.tenant_chain@.last().entity_id@)
    }
}

fn deepest_tenant_id(c: &Claims) -> (r: Option<String>)
    ensures
        match r {
            Some(t) => deepest_tenant(*c) == Some(t@),
            None => deepest_tenant(*c) is None,
        },
{
    let n = c.tenant_chain.len();
    if n == 0 {
        None
    } else {
        Some(c.tenant_chain[n - 1].entity_id.clone())
    }
}

/// The tenant a query is scoped to, as a `_tenant = <id>` filter joined to
/// the query's own filter: the deepest tenant of the principal's chain.
/// There is none when tenancy is disabled, when the request carries no
/// claims, when the principal is `platform_admin` (who sees every tenant),
/// or when the chain is empty.
pub open spec fn query_scope(claims: Option<Claims>, tenancy_enabled: bool) -> Option<Seq<char>> {
    if !tenancy_enabled {
        None
    } else {
        match claims {
            None => None,
            Some(c) => if has_platform_admin(c) {
                None
            } else {
                deepest_tenant(c)
            },
        }
    }
}

/// The tenant a newly created entity is stamped with in its `_tenant`
/// field: the deepest tenant of the principal's chain, whatever the
/// principal's roles. There is none when tenancy is disabled, when the
/// request carries no claims, or when the chain is empty.
pub open spec fn create_stamp(claims: Option<Claims>, tenancy_enabled: bool) -> Option<Seq<char>> {
    if !tenancy_enabled {
        None
    } else {
        match claims {
            None => None,
            Some(c) => deepest_tenant(c),
        }
    }
}

/// The claims behind an optional reference.
pub open spec fn claims_of(claims: Option<&Claims>) -> Option<Claims> {
    match claims {
        Some(c) => Some(*c),
        None => None,
    }
}

/// The view of an optional string.
pub open spec fn opt_text(o: Option<String>) -> Option<Seq<char>> {
    match o {
        Some(s) => Some(s@),
        None => None,
    }
}

/// The tenant a query is scoped to (see [`query_scope`]).
pub fn tenant_scope_for_query(claims: Option<&Claims>, tenancy_enabled: bool) -> (r: Option<String>)
    ensures
        opt_text(r) == query_scope(claims_of(claims), tenancy_enabled),
{
    if !tenancy_enabled {
        return None;
    }
    match claims {
        None => None,
        Some(c) => if is_platform_admin(c.roles.as_slice()) {
            None
        } else {
            deepest_tenant_id(c)
        },
    }
}

/// The tenant a newly created entity is stamped with (see
/// [`create_stamp`]).
pub fn tenant_for_create(claims: Option<&Claims>, tenancy_enabled: bool) -> (r: Option<String>)
    ensures
        opt_text(r) == create_stamp(claims_of(claims), tenancy_enabled),
{
    if !tenancy_enabled {
        return None;
    }
    match claims {
        None => None,
        Some(c) => deepest_tenant_id(c),
    }
}

/// Law: tenant scoping keeps a principal inside its tenant. With tenancy
/// enabled, a principal that is not `platform_admin` and belongs to a
/// tenant reads only the tenant its new entities are stamped with, the
/// deepest of its chain; `platform_admin` reads every tenant, yet what it
/// creates is still stamped with its own deepest tenant.
pub proof fn lemma_scope_matches_stamp(c: Claims)
    requires
        c.tenant_chain@.len() > 0,
    ensures
        !has_platform_admin(c) ==> query_scope(Some(c), true) == create_stamp(Some(c), true),
        create_stamp(Some(c), true) == Some(c.tenant_chain@.last().entity_id@),
        has_platform_admin(c) ==> query_scope(Some(c), true) is None,
{
}

// ---------------------------------------------------------------------------
// Access checks, decided by the Cedar engine
// ---------------------------------------------------------------------------

/// Why an access check refuses.
#[derive(Debug)]
pub enum AccessError {
    /// No claims: the request is not authenticated (401).
    Unauthorized { message: String },
    /// The engine denies the action (403).
    Forbidden { message: String },
    /// The engine could not decide (500).
    Internal { message: String },
}

/// The authorization `r` grants: Cedar allows, with no evaluation error.
pub open spec fn grants(r: Result<AuthzDecision, AuthzError>) -> bool {
    r matches Ok(d) && d.allowed && d.errors@.len() == 0
}

/// `r` is what `authorize` gives for `verb` on `schema` and the resource
/// `given` (else the schema's placeholder), against `snapshot`.
pub open spec fn authorized_as(
    r: Result<AuthzDecision, AuthzError>,
    snapshot: PolicyStoreSnapshot,
    principal_claims: PrincipalClaimMappings,
    claims: Option<Claims>,
    verb: ActionVerb,
    schema: SchemaDefinition,
    given: Option<EntityParts>,
) -> bool {
    authorization_is(
        r,
        snapshot.policies@,
        snapshot.schema@,
        snapshot.role_ranks@,
        principal_claims,
        claims,
        action_uid_of(verb_text(verb) + schema.name@),
        given,
        schema,
    )
}

/// Whether `authorize`'s result grants, as a plain answer.
fn granted(r: &Result<AuthzDecision, AuthzError>) -> (b: bool)
    ensures
        b == grants(*r),
{
    match r {
        Ok(d) => d.is_allow(),
        Err(_) => false,
    }
}

/// The name of an access action.
pub open spec fn access_action_name(a: AccessAction) -> Seq<char> {
    match a {
        AccessAction::Read => "Read"@,
        AccessAction::List => "List"@,
        AccessAction::Create => "Create"@,
        AccessAction::Update => "Update"@,
        AccessAction::Write => "Write"@,
        AccessAction::Delete => "Delete"@,
    }
}

fn access_action_text(a: AccessAction) -> (s: &'static str)
    ensures
        s@ == access_action_name(a),
{
    proof {
        reveal_strlit("Read");
        reveal_strlit("List");
        reveal_strlit("Create");
        reveal_strlit("Update");
        reveal_strlit("Write");
        reveal_strlit("Delete");
    }
    match a {
        AccessAction::Read => "Read",
        AccessAction::List => "List",
        AccessAction::Create => "Create",
        AccessAction::Update => "Update",
        AccessAction::Write => "Write",
        AccessAction::Delete => "Delete",
    }
}

/// The message of a denied action.
pub open spec fn denied_message(a: AccessAction, schema_name: Seq<char>) -> Seq<char> {
    "access denied: user lacks permission for "@ + access_action_name(a) + " on schema '"@ + schema_name + "'"@
}

/// The message of an engine failure.
pub open spec fn engine_failure_message(e: AuthzError) -> Seq<char> {
    "authz engine error: "@ + authz_message(e)
}

/// What the check makes of the decision `r` on the last verb it tries:
/// a grant passes, an engine failure is internal, a denial forbids.
pub open spec fn last_verdict(
    out: Result<(), AccessError>,
    r: Result<AuthzDecision, AuthzError>,
    a: AccessAction,
    schema_name: Seq<char>,
) -> bool {
    match r {
        Err(e) => out matches Err(AccessError::Internal { message }) && message@ == engine_failure_message(e),
        Ok(_) => if grants(r) {
            out is Ok
        } else {
            out matches Err(AccessError::Forbidden { message }) && message@ == denied_message(a, schema_name)
        },
    }
}

fn engine_failure(e: AuthzError) -> (out: Result<(), AccessError>)
    ensures
        out matches Err(AccessError::Internal { message }) && message@ == engine_failure_message(e),
{
    let mut m = str_to_string("authz engine error: ");
    push_str(&mut m, e.to_string().as_str());
    Err(AccessError::Internal { message: m })
}

fn denied(a: AccessAction, schema_name: &str) -> (out: Result<(), AccessError>)
    ensures
        out matches Err(AccessError::Forbidden { message }) && message@ == denied_message(a, schema_name@),
{
    let mut m = str_to_string("access denied: user lacks permission for ");
    push_str(&mut m, access_action_text(a));
    push_str(&mut m, " on schema '");
    push_str(&mut m, schema_name);
    push_str(&mut m, "'");
    Err(AccessError::Forbidden { message: m })
}

/// Checks whether the caller may perform `action` on `schema`, as the Cedar
/// engine decides it on the schema's placeholder: no claims is
/// `Unauthorized`; otherwise the action's primary verb is authorized, and
/// for `Write`, when that does not grant, `Update` as well; a grant passes,
/// an engine failure is `Internal`, and a denial of the last verb tried is
/// `Forbidden`.
pub fn check_schema_access(
    snapshot: &PolicyStoreSnapshot,
    principal_claims: &PrincipalClaimMappings,
    schema: &SchemaDefinition,
    claims: Option<&Claims>,
    action: AccessAction,
) -> (out: Result<(), AccessError>)
    ensures
        match claims {
            None => out matches Err(AccessError::Unauthorized { message }) && message@ == "authentication required"@,
            Some(_) => exists|r1: Result<AuthzDecision, AuthzError>|
                {
                    &&& #[trigger] authorized_as(
                        r1,
                        *snapshot,
                        *principal_claims,
                        claims_of(claims),
                        primary_verb_of(action),
                        *schema,
                        None,
                    )
                    &&& if r1 is Ok && !grants(r1) && action == AccessAction::Write {
                        exists|r2: Result<AuthzDecision, AuthzError>|
                            {
                                &&& #[trigger] authorized_as(
                                    r2,
                                    *snapshot,
                                    *principal_claims,
                                    claims_of(claims),
                                    ActionVerb::Update,
                                    *schema,
                                    None,
                                )
                                &&& last_verdict(out, r2, action, schema.name@)
                            }
                    } else {
                        last_verdict(out, r1, action, schema.name@)
                    }
                }
        },
{
    if claims.is_none() {
        proof {
            reveal_strlit("authentication required");
        }
        return Err(AccessError::Unauthorized { message: str_to_string("authentication required") });
    }
    let r1 = authorize(snapshot, principal_claims, claims, action.primary_verb(), schema, None);
    proof {
        assert(authorized_as(r1, *snapshot, *principal_claims, claims_of(claims), primary_verb_of(action), *schema, None));
    }
    let g1 = granted(&r1);
    match r1 {
        Err(e) => return engine_failure(e),
        Ok(_) => {},
    }
    if g1 {
        return Ok(());
    }
    let extra = action.additional_verbs();
    if extra.len() > 0 {
        let verb = extra[0];
        assert(action == AccessAction::Write && verb == ActionVerb::Update);
        let r2 = authorize(snapshot, principal_claims, claims, verb, schema, None);
        proof {
            assert(authorized_as(r2, *snapshot, *principal_claims, claims_of(claims), ActionVerb::Update, *schema, None));
        }
        let g2 = granted(&r2);
        match r2 {
            Err(e) => return engine_failure(e),
            Ok(_) => {},
        }
        if g2 {
            return Ok(());
        }
    }
    denied(action, schema.name.as_str())
}

/// The schema-level permissions of the caller: whether Cedar grants
/// `Create` on the schema's placeholder (an engine failure counts as no).
pub fn schema_permissions(
    snapshot: &PolicyStoreSnapshot,
    principal_claims: &PrincipalClaimMappings,
    schema: &SchemaDefinition,
    claims: Option<&Claims>,
) -> (p: SchemaPermissions)
    ensures
        exists|r: Result<AuthzDecision, AuthzError>|
            #[trigger] authorized_as(r, *snapshot, *principal_claims, claims_of(claims), ActionVerb::Create, *schema, None)
                && p.create == grants(r),
{
    let r = authorize(snapshot, principal_claims, claims, ActionVerb::Create, schema, None);
    proof {
        assert(authorized_as(r, *snapshot, *principal_claims, claims_of(claims), ActionVerb::Create, *schema, None));
    }
    SchemaPermissions { create: granted(&r) }
}

/// The permissions of the caller on one entity: whether Cedar grants
/// `Update` and `Delete` on the entity itself (an engine failure counts as
/// no).
pub fn entity_permissions(
    snapshot: &PolicyStoreSnapshot,
    principal_claims: &PrincipalClaimMappings,
    schema: &SchemaDefinition,
    entity: &EntityParts,
    claims: Option<&Claims>,
) -> (p: EntityPermissions)
    ensures
        exists|r: Result<AuthzDecision, AuthzError>|
            #[trigger] authorized_as(
                r,
                *snapshot,
                *principal_claims,
                claims_of(claims),
                ActionVerb::Update,
                *schema,
                Some(*entity),
            ) && p.update == grants(r),
        exists|r: Result<AuthzDecision, AuthzError>|
            #[trigger] authorized_as(
                r,
                *snapshot,
                *principal_claims,
                claims_of(claims),
                ActionVerb::Delete,
                *schema,
                Some(*entity),
            ) && p.delete == grants(r),
{
    let ru = authorize(snapshot, principal_claims, claims, ActionVerb::Update, schema, Some(entity));
    let rd = authorize(snapshot, principal_claims, claims, ActionVerb::Delete, schema, Some(entity));
    proof {
        assert(authorized_as(ru, *snapshot, *principal_claims, claims_of(claims), ActionVerb::Update, *schema, Some(*entity)));
        assert(authorized_as(rd, *snapshot, *principal_claims, claims_of(claims), ActionVerb::Delete, *schema, Some(*entity)));
    }
    EntityPermissions { update: granted(&ru), delete: granted(&rd) }
}

/// The first field of `fields` named `name`.
pub open spec fn field_named(fields: Seq<FieldDefinition>, name: Seq<char>) -> Option<FieldDefinition>
    decreases fields.len(),
{
    if fields.len() == 0 {
        None
    } else if fields[0].name@ == name {
        Some(fields[0])
    } else {
        field_named(fields.drop_first(), name)
    }
}

/// The schema declares a field `name` with a `@field_access` annotation.
pub open spec fn restricted_field(schema: SchemaDefinition, name: Seq<char>) -> bool {
    field_named(schema.fields@, name) matches Some(f) && f.field_access is Some
}

/// Whether the schema restricts the field `name` (see `restricted_field`).
fn is_restricted(schema: &SchemaDefinition, name: &str) -> (b: bool)
    ensures
        b == restricted_field(*schema, name@),
{
    let ghost fields = schema.fields@;
    let n = str_to_string(name);
    let mut k: usize = 0;
    assert(fields.subrange(0, fields.len() as int) =~= fields);
    while k < schema.fields.len()
        invariant
            k <= fields.len(),
            fields == schema.fields@,
            n@ == name@,
            field_named(fields, name@) == field_named(fields.subrange(k as int, fields.len() as int), name@),
        decreases fields.len() - k,
    {
        let ghost t = fields.subrange(k as int, fields.len() as int);
        assert(t.drop_first() =~= fields.subrange(k + 1, fields.len() as int));
        assert(t[0] == fields[k as int]);
        if schema.fields[k].name == n {
            return schema.fields[k].field_access.is_some();
        }
        k += 1;
    }
    false
}

/// The engine's direction for a filtering direction.
pub open spec fn cedar_direction(d: FieldFilterDirection) -> FieldDirection {
    match d {
        FieldFilterDirection::Read => FieldDirection::Read,
        FieldFilterDirection::Write => FieldDirection::Write,
    }
}

/// `r` is what `authorize_field` gives for the field `name` of `entity`.
pub open spec fn field_authorized_as(
    r: Result<AuthzDecision, AuthzError>,
    snapshot: PolicyStoreSnapshot,
    principal_claims: PrincipalClaimMappings,
    claims: Option<Claims>,
    schema: SchemaDefinition,
    entity: EntityParts,
    name: Seq<char>,
    dir: FieldFilterDirection,
) -> bool {
    field_authorization_is(
        r,
        snapshot.policies@,
        snapshot.schema@,
        snapshot.role_ranks@,
        principal_claims,
        claims,
        field_action_text(schema.name@, name, cedar_direction(dir)),
        entity,
    )
}

/// `keep` says which of `fields` stay: an unrestricted field stays; a
/// restricted one stays exactly when its decision (in `decisions`) grants.
pub open spec fn keeps(
    fields: Seq<(String, FieldValue)>,
    keep: Seq<bool>,
    decisions: Seq<Result<AuthzDecision, AuthzError>>,
    snapshot: PolicyStoreSnapshot,
    principal_claims: PrincipalClaimMappings,
    claims: Option<Claims>,
    schema: SchemaDefinition,
    entity: EntityParts,
    dir: FieldFilterDirection,
) -> bool {
    &&& keep.len() == fields.len()
    &&& decisions.len() == fields.len()
    &&& forall|i: int|
        0 <= i < fields.len() ==> if restricted_field(schema, (#[trigger] fields[i]).0@) {
            &&& field_authorized_as(decisions[i], snapshot, principal_claims, claims, schema, entity, fields[i].0@, dir)
            &&& keep[i] == grants(decisions[i])
        } else {
            keep[i]
        }
}

/// The fields `keep` keeps, in order.
pub open spec fn kept(fields: Seq<(String, FieldValue)>, keep: Seq<bool>) -> Seq<(String, FieldValue)>
    decreases fields.len(),
{
    if fields.len() == 0 {
        Seq::empty()
    } else {
        let rest = kept(fields.drop_last(), keep.drop_last());
        if keep.last() {
            rest.push(fields.last())
        } else {
            rest
        }
    }
}

/// Removes from an entity's fields those the caller may not access in
/// `direction`: with claims, each field the schema restricts by a
/// `@field_access` annotation stays only when Cedar grants its field
/// action on `entity` (an engine failure removes it); other fields stay.
/// Without claims nothing is removed.
pub fn filter_entity_fields(
    snapshot: &PolicyStoreSnapshot,
    principal_claims: &PrincipalClaimMappings,
    fields: &mut Vec<(String, FieldValue)>,
    entity: &EntityParts,
    schema: &SchemaDefinition,
    claims: Option<&Claims>,
    direction: FieldFilterDirection,
)
    ensures
        claims is None ==> final(fields)@ == old(fields)@,
        claims is Some ==> exists|keep: Seq<bool>, decisions: Seq<Result<AuthzDecision, AuthzError>>|
            {
                &&& #[trigger] keeps(
                    old(fields)@,
                    keep,
                    decisions,
                    *snapshot,
                    *principal_claims,
                    claims_of(claims),
                    *schema,
                    *entity,
                    direction,
                )
                &&& kept(old(fields)@, keep) == final(fields)@
            },
{
    if claims.is_none() {
        return;
    }
    let dir = match direction {
        FieldFilterDirection::Read => FieldDirection::Read,
        FieldFilterDirection::Write => FieldDirection::Write,
    };
    let mut rest: Vec<(String, FieldValue)> = Vec::new();
    std::mem::swap(fields, &mut rest);
    let ghost orig = rest@;
    let total = rest.len();
    let ghost mut keep: Seq<bool> = Seq::empty();
    let ghost mut decisions: Seq<Result<AuthzDecision, AuthzError>> = Seq::empty();
    let mut i: usize = 0;
    assert(orig.subrange(0, 0) =~= Seq::<(String, FieldValue)>::empty());
    assert(orig.subrange(0, orig.len() as int) =~= orig);
    while rest.len() > 0
        invariant
            i + rest@.len() == orig.len(),
            total == orig.len(),
            rest@ == orig.subrange(i as int, orig.len() as int),
            dir == cedar_direction(direction),
            claims is Some,
            keeps(
                orig.subrange(0, i as int),
                keep,
                decisions,
                *snapshot,
                *principal_claims,
                claims_of(claims),
                *schema,
                *entity,
                direction,
            ),
            fields@ == kept(orig.subrange(0, i as int), keep),
        decreases rest@.len(),
    {
        let ghost pre = orig.subrange(0, i as int);
        let ghost next = orig.subrange(0, i + 1);
        assert(next.drop_last() =~= pre);
        let ghost keep_old = keep;
        let ghost fields_old = fields@;
        let item = rest.remove(0);
        assert(item == orig[i as int]);
        assert(next.last() == item);
        assert(rest@ =~= orig.subrange(i + 1, orig.len() as int));
        let restricted = is_restricted(schema, item.0.as_str());
        if restricted {
            let r = authorize_field(snapshot, principal_claims, claims, schema, entity, item.0.as_str(), dir);
            let g = granted(&r);
            proof {
                keep = keep.push(g);
                decisions = decisions.push(r);
            }
            if g {
                fields.push(item);
            }
        } else {
            proof {
                keep = keep.push(true);
                decisions = decisions.push(vstd::pervasive::arbitrary());
            }
            fields.push(item);
        }
        proof {
            assert(keep.drop_last() =~= keep_old);
            assert(fields@ == kept(next, keep));
            assert forall|j: int| 0 <= j < next.len() implies (if restricted_field(*schema, (#[trigger] next[j]).0@) {
                &&& field_authorized_as(decisions[j], *snapshot, *principal_claims, claims_of(claims), *schema, *entity, next[j].0@, direction)
                &&& keep[j] == grants(decisions[j])
            } else {
                keep[j]
            }) by {
                if j < i {
                    assert(next[j] == pre[j]);
                }
            }
        }
        i += 1;
    }
    assert(orig.subrange(0, i as int) =~= orig);
}

} // verus!
