//! Conversion between SchemaForge identities and Cedar entities: UIDs, the
//! principal entity with its groups and tenants, and placeholder resources.
use vstd::prelude::*;
use vstd::string::*;

use crate::auth::{Claims, TenantRef};
use crate::authz::namespace::{action_uid, action_uid_of, verb_text, ActionVerb, GROUP_TYPE, PRINCIPAL_TYPE, SCHEMA_TYPE, TENANT_TYPE};
use crate::authz::principal_claims::{extracted, extraction_fails_at, CedarAttr, PrincipalClaimMappings};
use crate::authz::role_ranks::{max_rank_of, RoleRanks, PLATFORM_ADMIN_ROLE};
use crate::cedar::schema_gen::cedar_type_spec;
use crate::definition::{FieldDefinition, FieldType, IntegerConstraints, SchemaDefinition};
use crate::text::{chars_of, has_prefix, push_str, starts_with, str_to_string, views};

verus! {

/// Errors raised while converting domain values to Cedar entities.
#[derive(Debug)]
pub enum AdapterError {
    /// A Cedar identifier could not be parsed (entity type, action, etc.).
    InvalidIdentifier { value: String, detail: String },
    /// A field value could not be represented as a Cedar restricted expression.
    UnrepresentableValue { field: String, detail: String },
}

/// The message of each error.
pub open spec fn adapter_message(e: AdapterError) -> Seq<char> {
    match e {
        AdapterError::InvalidIdentifier { value, detail } => "invalid Cedar identifier '"@ + value@
            + "': "@ + detail@,
        AdapterError::UnrepresentableValue { field, detail } => "field '"@ + field@
            + "' carried unrepresentable value: "@ + detail@,
    }
}

impl AdapterError {
    /// The error's display text.
    pub fn to_string(&self) -> (s: String)
        ensures
            s@ == adapter_message(*self),
    {
        match self {
            AdapterError::InvalidIdentifier { value, detail } => {
                let mut s = str_to_string("invalid Cedar identifier '");
                push_str(&mut s, value.as_str());
                push_str(&mut s, "': ");
                push_str(&mut s, detail.as_str());
                s
            },
            AdapterError::UnrepresentableValue { field, detail } => {
                let mut s = str_to_string("field '");
                push_str(&mut s, field.as_str());
                push_str(&mut s, "' carried unrepresentable value: ");
                push_str(&mut s, detail.as_str());
                s
            },
        }
    }
}

/// A subject with one leading `user:` removed.
pub open spec fn user_id_spec(sub: Seq<char>) -> Seq<char> {
    if has_prefix(sub, "user:"@) {
        sub.subrange(5, sub.len() as int)
    } else {
        sub
    }
}

/// Strips the `user:` prefix some auth pipelines add to token subjects.
pub fn user_id_from_sub(sub: &str) -> (r: &str)
    ensures
        r@ == user_id_spec(sub@),
{
    proof {
        reveal_strlit("user:");
    }
    let v = chars_of(sub);
    if starts_with(&v, &chars_of("user:")) {
        sub.substring_char(5, v.len())
    } else {
        sub
    }
}

/// The principal's Cedar UID text: `Forge::Principal::"<user id>"`.
pub fn principal_uid_text(sub: &str) -> (r: String)
    ensures
        r@ == "Forge::Principal"@ + "::\""@ + user_id_spec(sub@) + "\""@,
{
    proof {
        reveal_strlit("Forge::Principal");
    }
    let mut r = str_to_string(PRINCIPAL_TYPE);
    push_str(&mut r, "::\"");
    push_str(&mut r, user_id_from_sub(sub));
    push_str(&mut r, "\"");
    r
}

/// A schema-administration target's Cedar UID text: `Forge::Schema::"<name>"`.
pub fn schema_uid_text(schema_name: &str) -> (r: String)
    ensures
        r@ == "Forge::Schema"@ + "::\""@ + schema_name@ + "\""@,
{
    proof {
        reveal_strlit("Forge::Schema");
    }
    let mut r = str_to_string(SCHEMA_TYPE);
    push_str(&mut r, "::\"");
    push_str(&mut r, schema_name);
    push_str(&mut r, "\"");
    r
}

/// A Cedar entity UID, as `cedar_policy` parses it.
#[verifier::external_type_specification]
#[verifier::external_body]
pub struct ExEntityUid(cedar_policy::EntityUid);

/// Names what parsing `raw` as a Cedar entity UID gives: success, or the
/// text of the parse error.
pub uninterp spec fn cedar_uid_outcome(raw: Seq<char>) -> Result<(), Seq<char>>;

/// A parsed Cedar entity UID, with the text it was parsed from.
pub struct CedarUid {
    uid: cedar_policy::EntityUid,
    text: Ghost<Seq<char>>,
}

impl View for CedarUid {
    type V = Seq<char>;

    /// The text the UID was parsed from.
    closed spec fn view(&self) -> Seq<char> {
        self.text@
    }
}

impl CedarUid {
    /// The Cedar UID itself.
    pub fn cedar(&self) -> &cedar_policy::EntityUid {
        &self.uid
    }

    /// The Cedar UID itself, by value.
    pub fn into_cedar(self) -> cedar_policy::EntityUid {
        self.uid
    }
}

/// cedar `EntityUid::from_str`: the UID (kept with its text), or the parse
/// error's display text; which of them, and the text, are named by
/// `cedar_uid_outcome`.
#[verifier::external_body]
fn parse_entity_uid(raw: &str) -> (r: Result<CedarUid, String>)
    ensures
        match r {
            Ok(u) => cedar_uid_outcome(raw@) == Ok::<(), Seq<char>>(()) && u@ == raw@,
            Err(e) => cedar_uid_outcome(raw@) == Err::<(), Seq<char>>(e@),
        },
{
    match raw.parse::<cedar_policy::EntityUid>() {
        Ok(uid) => Ok(CedarUid { uid, text: Ghost(raw@) }),
        Err(e) => Err(e.to_string()),
    }
}

/// `r` is the UID parsed from `raw` when Cedar parses it, else the
/// invalid-identifier error carrying `raw` and Cedar's message.
pub open spec fn uid_parsed_from(r: Result<CedarUid, AdapterError>, raw: Seq<char>) -> bool {
    match cedar_uid_outcome(raw) {
        Ok(_) => r matches Ok(u) && u@ == raw,
        Err(d) => match r {
            Err(AdapterError::InvalidIdentifier { value, detail }) => value@ == raw && detail@ == d,
            _ => false,
        },
    }
}

pub(crate) fn uid_from_text(raw: String) -> (r: Result<CedarUid, AdapterError>)
    ensures
        uid_parsed_from(r, raw@),
{
    match parse_entity_uid(raw.as_str()) {
        Ok(uid) => Ok(uid),
        Err(detail) => Err(AdapterError::InvalidIdentifier { value: raw, detail }),
    }
}

/// The Cedar UID of a SchemaForge action: `Forge::Action::"<Verb><Schema>"`.
pub fn action_entity_uid(verb: ActionVerb, schema_name: &str) -> (r: Result<CedarUid, AdapterError>)
    ensures
        uid_parsed_from(r, action_uid_of(verb_text(verb) + schema_name@)),
{
    uid_from_text(action_uid(verb, schema_name))
}

/// The Cedar UID of a schema-administration target: `Forge::Schema::"<name>"`.
pub fn schema_entity_uid(schema_name: &str) -> (r: Result<CedarUid, AdapterError>)
    ensures
        uid_parsed_from(r, "Forge::Schema"@ + "::\""@ + schema_name@ + "\""@),
{
    uid_from_text(schema_uid_text(schema_name))
}

/// The principal's stable Cedar UID: `Forge::Principal::"<user id>"`,
/// the user id being the subject without its `user:` prefix.
pub fn principal_uid(claims: &Claims) -> (r: Result<CedarUid, AdapterError>)
    ensures
        uid_parsed_from(r, "Forge::Principal"@ + "::\""@ + user_id_spec(claims.sub@) + "\""@),
{
    uid_from_text(principal_uid_text(claims.sub.as_str()))
}

/// Whether the principal's roles include `platform_admin`.
pub fn is_platform_admin(roles: &[String]) -> (b: bool)
    ensures
        b == exists|i: int| 0 <= i < roles@.len() && (#[trigger] roles@[i])@ == "platform_admin"@,
{
    proof {
        reveal_strlit("platform_admin");
    }
    let admin = str_to_string(PLATFORM_ADMIN_ROLE);
    let mut i: usize = 0;
    while i < roles.len()
        invariant
            i <= roles@.len(),
            admin@ == "platform_admin"@,
            forall|k: int| 0 <= k < i ==> (#[trigger] roles@[k])@ != "platform_admin"@,
        decreases roles@.len() - i,
    {
        if roles[i] == admin {
            return true;
        }
        i += 1;
    }
    false
}

/// The parts of a Cedar entity: its UID text, its attributes, and the UID
/// texts of its parents.
#[derive(Debug)]
pub struct EntityParts {
    pub uid: String,
    pub attrs: Vec<(String, CedarAttr)>,
    pub parents: Vec<String>,
}

/// Whether a field type has a Cedar default: every type Cedar can
/// represent, and arrays whatever their items.
pub open spec fn has_default(ft: FieldType) -> bool {
    !(ft is Json) && !(ft is Composite)
}

/// `a` is the Cedar default of a field of type `ft`: the empty string for
/// text-like types and to-one relations, `0` for numbers and timestamps,
/// `false` for booleans, the empty set for to-many relations and arrays,
/// and nothing for JSON and composites.
pub open spec fn default_for(ft: FieldType, a: Option<CedarAttr>) -> bool {
    match ft {
        FieldType::Text(_) | FieldType::RichText | FieldType::Enum(_) | FieldType::File(_) => a matches Some(
            CedarAttr::String(s),
        ) && s@ == Seq::<char>::empty(),
        FieldType::Integer(_) | FieldType::Float(_) | FieldType::DateTime => a == Some(CedarAttr::Long(0)),
        FieldType::Boolean => a == Some(CedarAttr::Bool(false)),
        FieldType::Relation { many, .. } => if many {
            a matches Some(CedarAttr::SetOfString(xs)) && xs@.len() == 0
        } else {
            a matches Some(CedarAttr::String(s)) && s@ == Seq::<char>::empty()
        },
        FieldType::Array(_) => a matches Some(CedarAttr::SetOfString(xs)) && xs@.len() == 0,
        FieldType::Json | FieldType::Composite(_) => a is None,
    }
}

/// The default Cedar value of a field type, for placeholder resources.
pub fn default_cedar_expr(ft: &FieldType) -> (r: Option<CedarAttr>)
    ensures
        default_for(*ft, r),
        r is Some <==> has_default(*ft),
{
    match ft {
        FieldType::Text(_) | FieldType::RichText | FieldType::Enum(_) | FieldType::File(_) => Some(
            CedarAttr::String(String::new()),
        ),
        FieldType::Integer(_) | FieldType::Float(_) | FieldType::DateTime => Some(CedarAttr::Long(0)),
        FieldType::Boolean => Some(CedarAttr::Bool(false)),
        FieldType::Relation { many, .. } => if *many {
            Some(CedarAttr::SetOfString(Vec::new()))
        } else {
            Some(CedarAttr::String(String::new()))
        },
        FieldType::Array(_) => Some(CedarAttr::SetOfString(Vec::new())),
        FieldType::Json | FieldType::Composite(_) => None,
    }
}

/// A field the placeholder resource carries: required, not `@hidden`, and
/// of a type with a Cedar default.
pub open spec fn placeholder_field(f: FieldDefinition) -> bool {
    f.required && !f.hidden && has_default(f.field_type)
}

/// `attrs` are the placeholder attributes of `fields`: one per placeholder
/// field, in field order, each the field's default.
pub open spec fn placeholder_attrs(fields: Seq<FieldDefinition>, attrs: Seq<(String, CedarAttr)>) -> bool
    decreases fields.len(),
{
    if fields.len() == 0 {
        attrs.len() == 0
    } else if placeholder_field(fields.last()) {
        &&& attrs.len() > 0
        &&& attrs.last().0@ == fields.last().name@
        &&& default_for(fields.last().field_type, Some(attrs.last().1))
        &&& placeholder_attrs(fields.drop_last(), attrs.drop_last())
    } else {
        placeholder_attrs(fields.drop_last(), attrs)
    }
}

/// Builds the synthetic resource used to authorize actions with no concrete
/// entity yet (creating, listing): UID `<Schema>::"_any"`, no parents, and
/// a default value for every required, visible field Cedar can represent,
/// so that a strict-mode validator accepts it as a member of the type.
pub fn build_resource_placeholder(schema: &SchemaDefinition) -> (e: EntityParts)
    ensures
        e.uid@ == schema.name@ + "::\"_any\""@,
        placeholder_attrs(schema.fields@, e.attrs@),
        e.parents@.len() == 0,
{
    let mut uid = schema.name.clone();
    push_str(&mut uid, "::\"_any\"");
    let mut attrs: Vec<(String, CedarAttr)> = Vec::new();
    let mut i: usize = 0;
    while i < schema.fields.len()
        invariant
            i <= schema.fields@.len(),
            placeholder_attrs(schema.fields@.subrange(0, i as int), attrs@),
        decreases schema.fields@.len() - i,
    {
        let f = &schema.fields[i];
        let ghost pre = schema.fields@.subrange(0, i + 1);
        assert(pre.drop_last() =~= schema.fields@.subrange(0, i as int));
        assert(pre.last() == schema.fields@[i as int]);
        if f.required && !f.hidden {
            match default_cedar_expr(&f.field_type) {
                Some(expr) => {
                    let ghost before = attrs@;
                    attrs.push((f.name.clone(), expr));
                    assert(attrs@.drop_last() =~= before);
                },
                None => {},
            }
        }
        i += 1;
    }
    assert(schema.fields@.subrange(0, i as int) =~= schema.fields@);
    EntityParts { uid, attrs, parents: Vec::new() }
}

/// `a` has Cedar type `t`: sets, empty or not, are of any set type.
pub open spec fn attr_has_type(a: CedarAttr, t: Seq<char>) -> bool {
    match a {
        CedarAttr::String(_) => t == "String"@,
        CedarAttr::Long(_) => t == "Long"@,
        CedarAttr::Bool(_) => t == "Bool"@,
        CedarAttr::SetOfString(_) => has_prefix(t, "Set<"@),
    }
}

/// An array whose items Cedar cannot represent.
pub open spec fn opaque_array(ft: FieldType) -> bool {
    ft is Array && cedar_type_spec(ft) is None
}

/// Law: the placeholder defaults agree with the Cedar schema. Leaving out
/// arrays of items Cedar cannot represent, a field type has a default
/// exactly when the schema generator declares a Cedar type for it, and the
/// default has that type. With the field-level facts, a field is carried
/// by the placeholder exactly when the generated Cedar schema declares it
/// as a required attribute.
pub proof fn lemma_defaults_match_schema_types(f: FieldDefinition, a: CedarAttr)
    requires
        !opaque_array(f.field_type),
    ensures
        has_default(f.field_type) <==> cedar_type_spec(f.field_type) is Some,
        placeholder_field(f) <==> (f.required && !f.hidden && cedar_type_spec(f.field_type) is Some),
        default_for(f.field_type, Some(a)) ==> attr_has_type(a, cedar_type_spec(f.field_type)->0),
{
    reveal_strlit("Set<");
    match f.field_type {
        FieldType::Relation { many, .. } => {
            if many {
                assert(has_prefix("Set<String>"@, "Set<"@)) by {
                    reveal_strlit("Set<String>");
                    assert("Set<String>"@.subrange(0, 4) =~= "Set<"@);
                }
            }
        },
        FieldType::Array(inner) => {
            let t = cedar_type_spec(*inner)->0;
            assert(("Set<"@ + t + ">"@).subrange(0, 4) =~= "Set<"@);
        },
        _ => {},
    }
}

// ---------------------------------------------------------------------------
// Principal entities
// ---------------------------------------------------------------------------

/// The items of `s` in order, each kept at its first occurrence only.
pub open spec fn first_occurrences(s: Seq<Seq<char>>) -> Seq<Seq<char>>
    decreases s.len(),
{
    if s.len() == 0 {
        Seq::empty()
    } else {
        let r = first_occurrences(s.drop_last());
        if r.contains(s.last()) {
            r
        } else {
            r.push(s.last())
        }
    }
}

/// The Cedar UID text of the group for `role`.
pub open spec fn group_uid(role: Seq<char>) -> Seq<char> {
    "Forge::Group"@ + "::\""@ + role + "\""@
}

/// The Cedar UID text of the tenant entity `id`.
pub open spec fn tenant_uid(id: Seq<char>) -> Seq<char> {
    "Forge::Tenant"@ + "::\""@ + id + "\""@
}

/// The entity ids of a tenant chain.
pub open spec fn chain_ids(chain: Seq<TenantRef>) -> Seq<Seq<char>> {
    chain.map_values(|t: TenantRef| t.entity_id@)
}

/// The rank of `role`, `0` when unregistered.
pub open spec fn rank_or_zero(m: Map<Seq<char>, i64>, role: Seq<char>) -> i64 {
    if m.contains_key(role) {
        m[role]
    } else {
        0
    }
}

/// Attribute `a` is named `name` and holds the string `v`.
pub open spec fn attr_is_str(a: (String, CedarAttr), name: Seq<char>, v: Seq<char>) -> bool {
    &&& a.0@ == name
    &&& a.1 matches CedarAttr::String(s) && s@ == v
}

/// Attribute `a` is named `name` and holds the number `v`.
pub open spec fn attr_is_long(a: (String, CedarAttr), name: Seq<char>, v: i64) -> bool {
    a.0@ == name && a.1 == CedarAttr::Long(v)
}

/// Attribute `a` is named `name` and holds the strings `vs`, in order.
pub open spec fn attr_is_set(a: (String, CedarAttr), name: Seq<char>, vs: Seq<Seq<char>>) -> bool {
    &&& a.0@ == name
    &&& a.1 matches CedarAttr::SetOfString(xs) && views(xs@) == vs
}

/// `e` is the principal entity of `claims`: UID `Forge::Principal::"<id>"`;
/// attributes `id`, `role_rank` (the highest rank among its roles) and
/// `roles`, then the mapped custom claims; parents, the group of each of
/// its roles and each tenant of its chain, each once.
pub open spec fn principal_parts(
    e: EntityParts,
    claims: Claims,
    ranks: Map<Seq<char>, i64>,
    ms: Seq<crate::authz::principal_claims::PrincipalClaimMapping>,
) -> bool {
    let roles = views(claims.roles@);
    let id = user_id_spec(claims.sub@);
    &&& e.uid@ == "Forge::Principal"@ + "::\""@ + id + "\""@
    &&& e.attrs@.len() >= 3
    &&& attr_is_str(e.attrs@[0], "id"@, id)
    &&& attr_is_long(e.attrs@[1], "role_rank"@, max_rank_of(ranks, roles))
    &&& attr_is_set(e.attrs@[2], "roles"@, roles)
    &&& extracted(e.attrs@.subrange(3, e.attrs@.len() as int), claims.custom@, ms)
    &&& views(e.parents@) == first_occurrences(roles).map_values(|r: Seq<char>| group_uid(r))
        + first_occurrences(chain_ids(claims.tenant_chain@)).map_values(|t: Seq<char>| tenant_uid(t))
}

/// `e` is the group entity of `role`: its name and rank, no parents.
pub open spec fn group_parts(e: EntityParts, role: Seq<char>, ranks: Map<Seq<char>, i64>) -> bool {
    &&& e.uid@ == group_uid(role)
    &&& e.attrs@.len() == 2
    &&& attr_is_str(e.attrs@[0], "name"@, role)
    &&& attr_is_long(e.attrs@[1], "rank"@, rank_or_zero(ranks, role))
    &&& e.parents@.len() == 0
}

/// `e` is the entity of tenant hop `t`: its schema and entity id, no
/// parents.
pub open spec fn tenant_parts(e: EntityParts, t: TenantRef) -> bool {
    &&& e.uid@ == tenant_uid(t.entity_id@)
    &&& e.attrs@.len() == 2
    &&& attr_is_str(e.attrs@[0], "schema"@, t.schema@)
    &&& attr_is_str(e.attrs@[1], "entity_id"@, t.entity_id@)
    &&& e.parents@.len() == 0
}

fn string_attr(name: &str, value: String) -> (a: (String, CedarAttr))
    ensures
        a.0@ == name@,
        a.1 matches CedarAttr::String(s) && s@ == value@,
{
    (str_to_string(name), CedarAttr::String(value))
}

fn quoted_uid(entity_type: &str, id: &str) -> (r: String)
    ensures
        r@ == entity_type@ + "::\""@ + id@ + "\""@,
{
    let mut r = str_to_string(entity_type);
    push_str(&mut r, "::\"");
    push_str(&mut r, id);
    push_str(&mut r, "\"");
    r
}

fn contains_string(v: &Vec<String>, s: &String) -> (b: bool)
    ensures
        b == views(v@).contains(s@),
{
    let mut i: usize = 0;
    while i < v.len()
        invariant
            i <= v@.len(),
            forall|j: int| 0 <= j < i ==> v@[j]@ != s@,
        decreases v@.len() - i,
    {
        if v[i] == *s {
            assert(views(v@)[i as int] == s@);
            return true;
        }
        i += 1;
    }
    proof {
        if views(v@).contains(s@) {
            let j = choose|j: int| 0 <= j < views(v@).len() && views(v@)[j] == s@;
            assert(v@[j]@ == s@);
        }
    }
    false
}

/// The distinct items of `items`, in order of first occurrence.
fn distinct_strings(items: &Vec<String>) -> (r: Vec<String>)
    ensures
        views(r@) == first_occurrences(views(items@)),
{
    let mut r: Vec<String> = Vec::new();
    let mut i: usize = 0;
    while i < items.len()
        invariant
            i <= items@.len(),
            views(r@) == first_occurrences(views(items@).subrange(0, i as int)),
        decreases items@.len() - i,
    {
        let ghost pre = views(items@).subrange(0, i + 1);
        assert(pre.drop_last() =~= views(items@).subrange(0, i as int));
        assert(pre.last() == items@[i as int]@);
        if !contains_string(&r, &items[i]) {
            let ghost before = r@;
            r.push(items[i].clone());
            assert(views(r@) =~= views(before).push(items@[i as int]@));
        }
        i += 1;
    }
    assert(views(items@).subrange(0, items@.len() as int) =~= views(items@));
    r
}

fn tenant_ids(chain: &Vec<TenantRef>) -> (r: Vec<String>)
    ensures
        views(r@) == chain_ids(chain@),
{
    let mut r: Vec<String> = Vec::new();
    let mut i: usize = 0;
    while i < chain.len()
        invariant
            i <= chain@.len(),
            r@.len() == i,
            forall|k: int| 0 <= k < i ==> (#[trigger] r@[k])@ == chain@[k].entity_id@,
        decreases chain@.len() - i,
    {
        r.push(chain[i].entity_id.clone());
        i += 1;
    }
    assert(views(r@) =~= chain_ids(chain@));
    r
}

/// `es` are the principal's entities: the principal itself, then one group
/// per distinct role (in order of the roles), then one tenant per hop of
/// the tenant chain (outermost first).
pub open spec fn principal_entities_built(
    es: Seq<EntityParts>,
    claims: Claims,
    ranks: Map<Seq<char>, i64>,
    mappings: Seq<crate::authz::principal_claims::PrincipalClaimMapping>,
) -> bool {
    let groups = first_occurrences(views(claims.roles@));
    &&& es.len() == 1 + groups.len() + claims.tenant_chain@.len()
    &&& principal_parts(es[0], claims, ranks, mappings)
    &&& forall|i: int| 0 <= i < groups.len() ==> group_parts(#[trigger] es[1 + i], groups[i], ranks)
    &&& forall|i: int|
        0 <= i < claims.tenant_chain@.len() ==> tenant_parts(
            #[trigger] es[1 + groups.len() + i],
            claims.tenant_chain@[i],
        )
}

/// Builds the principal entity of `claims`, followed by the entity of each
/// distinct group it belongs to (in order of its roles) and of each hop of
/// its tenant chain (outermost first). Fails, before anything else is
/// built, when the custom claims do not satisfy the principal-claim
/// mappings, with the error [`PrincipalClaimMappings::extract_attributes`]
/// reports.
pub fn build_principal_entities(
    claims: &Claims,
    role_ranks: &RoleRanks,
    principal_claims: &PrincipalClaimMappings,
) -> (r: Result<Vec<EntityParts>, AdapterError>)
    ensures
        match r {
            Ok(es) => principal_entities_built(es@, *claims, role_ranks@, principal_claims.mappings()),
            Err(e) => exists|i: int| extraction_fails_at(claims.custom@, principal_claims.mappings(), i, e),
        },
{
    proof {
        reveal_strlit("Forge::Principal");
        reveal_strlit("Forge::Group");
        reveal_strlit("Forge::Tenant");
    }
    let extra = match principal_claims.extract_attributes(claims.custom.as_slice()) {
        Ok(a) => a,
        Err(e) => return Err(e),
    };
    let id = user_id_from_sub(claims.sub.as_str());
    let uid = quoted_uid(PRINCIPAL_TYPE, id);
    let rank = role_ranks.max_rank(claims.roles.as_slice());
    let mut attrs: Vec<(String, CedarAttr)> = Vec::new();
    attrs.push(string_attr("id", str_to_string(id)));
    attrs.push((str_to_string("role_rank"), CedarAttr::Long(rank)));
    let mut role_set: Vec<String> = Vec::new();
    let mut k: usize = 0;
    while k < claims.roles.len()
        invariant
            k <= claims.roles@.len(),
            role_set@ == claims.roles@.subrange(0, k as int),
        decreases claims.roles@.len() - k,
    {
        role_set.push(claims.roles[k].clone());
        k += 1;
        assert(role_set@ =~= claims.roles@.subrange(0, k as int));
    }
    assert(role_set@ =~= claims.roles@);
    attrs.push((str_to_string("roles"), CedarAttr::SetOfString(role_set)));
    let ghost intrinsic = attrs@;
    let ghost extra_view = extra@;
    let mut extra = extra;
    attrs.append(&mut extra);
    assert(attrs@ == intrinsic + extra_view);
    assert(attrs@.subrange(3, attrs@.len() as int) =~= extra_view);

    let roles = distinct_strings(&claims.roles);
    let ids = tenant_ids(&claims.tenant_chain);
    let distinct_ids = distinct_strings(&ids);
    let ghost gseq = first_occurrences(views(claims.roles@));
    let ghost tseq = first_occurrences(chain_ids(claims.tenant_chain@));
    let mut parents: Vec<String> = Vec::new();
    let mut g: usize = 0;
    while g < roles.len()
        invariant
            g <= roles@.len(),
            views(roles@) == gseq,
            parents@.len() == g,
            forall|k: int| 0 <= k < g ==> (#[trigger] parents@[k])@ == group_uid(gseq[k]),
        decreases roles@.len() - g,
    {
        assert(roles@[g as int]@ == gseq[g as int]);
        parents.push(quoted_uid(GROUP_TYPE, roles[g].as_str()));
        g += 1;
    }
    let mut t: usize = 0;
    while t < distinct_ids.len()
        invariant
            t <= distinct_ids@.len(),
            views(distinct_ids@) == tseq,
            views(roles@) == gseq,
            parents@.len() == gseq.len() + t,
            forall|k: int| 0 <= k < gseq.len() ==> (#[trigger] parents@[k])@ == group_uid(gseq[k]),
            forall|k: int|
                0 <= k < t ==> (#[trigger] parents@[gseq.len() + k])@ == tenant_uid(tseq[k]),
        decreases distinct_ids@.len() - t,
    {
        assert(distinct_ids@[t as int]@ == tseq[t as int]);
        parents.push(quoted_uid(TENANT_TYPE, distinct_ids[t].as_str()));
        t += 1;
    }
    proof {
        let gu = gseq.map_values(|r: Seq<char>| group_uid(r));
        let tu = tseq.map_values(|x: Seq<char>| tenant_uid(x));
        assert forall|k: int| 0 <= k < views(parents@).len() implies views(parents@)[k] == (gu + tu)[k] by {
            if k < gseq.len() {
                assert(parents@[k]@ == group_uid(gseq[k]));
            } else {
                assert(parents@[gseq.len() + (k - gseq.len())]@ == tenant_uid(tseq[k - gseq.len()]));
            }
        }
        assert(views(parents@) =~= gu + tu);
    }

    let mut all: Vec<EntityParts> = Vec::new();
    all.push(EntityParts { uid, attrs, parents });
    let ghost n = gseq.len();
    let mut i: usize = 0;
    while i < roles.len()
        invariant
            n == gseq.len(),
            views(roles@) == gseq,
            i <= n,
            all@.len() == 1 + i,
            principal_parts(all@[0], *claims, role_ranks@, principal_claims.mappings()),
            forall|x: int| 0 <= x < i ==> group_parts(#[trigger] all@[1 + x], gseq[x], role_ranks@),
        decreases n - i,
    {
        let role = &roles[i];
        assert(role@ == gseq[i as int]);
        let rank = match role_ranks.get(role.as_str()) {
            Some(r) => r,
            None => 0,
        };
        let mut gattrs: Vec<(String, CedarAttr)> = Vec::new();
        gattrs.push(string_attr("name", role.clone()));
        gattrs.push((str_to_string("rank"), CedarAttr::Long(rank)));
        all.push(EntityParts { uid: quoted_uid(GROUP_TYPE, role.as_str()), attrs: gattrs, parents: Vec::new() });
        i += 1;
    }
    let mut h: usize = 0;
    while h < claims.tenant_chain.len()
        invariant
            h <= claims.tenant_chain@.len(),
            all@.len() == 1 + n + h,
            n == gseq.len(),
            principal_parts(all@[0], *claims, role_ranks@, principal_claims.mappings()),
            forall|x: int| 0 <= x < n ==> group_parts(#[trigger] all@[1 + x], gseq[x], role_ranks@),
            forall|x: int|
                0 <= x < h ==> tenant_parts(#[trigger] all@[1 + n + x], claims.tenant_chain@[x]),
        decreases claims.tenant_chain@.len() - h,
    {
        let hop = &claims.tenant_chain[h];
        let mut tattrs: Vec<(String, CedarAttr)> = Vec::new();
        tattrs.push(string_attr("schema", hop.schema.clone()));
        tattrs.push(string_attr("entity_id", hop.entity_id.clone()));
        all.push(EntityParts {
            uid: quoted_uid(TENANT_TYPE, hop.entity_id.as_str()),
            attrs: tattrs,
            parents: Vec::new(),
        });
        h += 1;
    }
    Ok(all)
}

/// A timestamp's placeholder default is the Cedar `Long` zero, the same
/// default an integer or a float field gets.
pub proof fn lemma_datetime_default_is_long_zero(a: Option<CedarAttr>, ci: IntegerConstraints)
    ensures
        default_for(FieldType::DateTime, a) <==> a == Some(CedarAttr::Long(0)),
        default_for(FieldType::DateTime, a) <==> default_for(FieldType::Integer(ci), a),
{
}

} // verus!
