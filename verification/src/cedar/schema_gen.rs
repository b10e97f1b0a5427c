//! Cedar schema source generator.
//!
//! Produces the Cedar schema text that declares every entity type, action
//! and attribute the policy generator refers to: the `Forge::` namespace
//! (Group, Tenant, Schema, Principal) with the schema-administration
//! actions, then for each application schema its entity type, its CRUD
//! actions, and the per-field actions of its `@field_access` fields.
//!
use vstd::prelude::*;

use crate::authz::principal_claims::{fragment_spec, PrincipalClaimMappings};
use crate::definition::{FieldDefinition, FieldType, FloatConstraints, IntegerConstraints, SchemaDefinition, TextConstraints};
use crate::order::{insert_name, lemma_sorted_insert_props, sorted_insert, strictly_sorted};
use crate::text::{join_seq, push_str, str_to_string};

verus! {

/// A formatting failure reported by std.
#[verifier::external_type_specification]
#[verifier::external_body]
pub struct ExFmtError(std::fmt::Error);

/// Errors raised while generating Cedar schema source.
#[derive(Debug)]
pub enum SchemaGenError {
    /// String formatting failed.
    Write(std::fmt::Error),
}

/// The `Forge` namespace up to the principal's intrinsic attributes.
pub const FORGE_NAMESPACE_HEAD: &'static str = "namespace Forge {\n    entity Group = {\n        name: String,\n        rank: Long,\n    };\n\n    entity Tenant in [Tenant] = {\n        schema: String,\n        entity_id: String,\n    };\n\n    entity Schema = {\n        name: String,\n    };\n\n    entity Principal in [Group, Tenant] = {\n        id: String,\n        role_rank: Long,\n        roles: Set<String>,\n";

/// The rest of the `Forge` namespace, after the principal's mapped claims,
/// and the schema-administration actions.
pub const FORGE_NAMESPACE_TAIL: &'static str = "    };\n}\n\naction UpdateSchema, DeleteSchema appliesTo {\n    principal: [Forge::Principal],\n    resource: [Forge::Schema],\n};\n\n";

/// The Cedar attribute type of a field type; `None` for types Cedar cannot
/// represent (JSON, composites).
pub open spec fn cedar_type_spec(k: FieldType) -> Option<Seq<char>>
    decreases k,
{
    match k {
        FieldType::Text(_) | FieldType::RichText | FieldType::Enum(_) | FieldType::File(_) => Some("String"@),
        FieldType::Integer(_) | FieldType::Float(_) | FieldType::DateTime => Some("Long"@),
        FieldType::Boolean => Some("Bool"@),
        FieldType::Json | FieldType::Composite(_) => None,
        FieldType::Relation { many, .. } => if many {
            Some("Set<String>"@)
        } else {
            Some("String"@)
        },
        FieldType::Array(inner) => match cedar_type_spec(*inner) {
            Some(t) => Some("Set<"@ + t + ">"@),
            None => None,
        },
    }
}

/// Maps a field type to its Cedar attribute type expression.
pub fn cedar_type_for(k: &FieldType) -> (r: Option<String>)
    ensures
        match r {
            Some(t) => cedar_type_spec(*k) == Some(t@),
            None => cedar_type_spec(*k) is None,
        },
    decreases k,
{
    match k {
        FieldType::Text(_) | FieldType::RichText | FieldType::Enum(_) | FieldType::File(_) => Some(
            str_to_string("String"),
        ),
        FieldType::Integer(_) | FieldType::Float(_) | FieldType::DateTime => Some(str_to_string("Long")),
        FieldType::Boolean => Some(str_to_string("Bool")),
        FieldType::Json | FieldType::Composite(_) => None,
        FieldType::Relation { many, .. } => if *many {
            Some(str_to_string("Set<String>"))
        } else {
            Some(str_to_string("String"))
        },
        FieldType::Array(inner) => match cedar_type_for(inner) {
            Some(t) => {
                let mut s = str_to_string("Set<");
                push_str(&mut s, t.as_str());
                push_str(&mut s, ">");
                Some(s)
            },
            None => None,
        },
    }
}

/// The attribute line of a field: none for `@hidden` fields and types
/// Cedar cannot represent; required fields have no `?` marker.
pub open spec fn attribute_line(f: FieldDefinition) -> Seq<char> {
    if f.hidden {
        Seq::empty()
    } else {
        match cedar_type_spec(f.field_type) {
            None => Seq::empty(),
            Some(t) => "    \""@ + f.name@ + "\""@ + (if f.required {
                ""@
            } else {
                "?"@
            }) + ": "@ + t + ",\n"@,
        }
    }
}

pub open spec fn attribute_lines(fields: Seq<FieldDefinition>) -> Seq<char>
    decreases fields.len(),
{
    if fields.len() == 0 {
        Seq::empty()
    } else {
        attribute_lines(fields.drop_last()) + attribute_line(fields.last())
    }
}

/// The entity type of a schema, with its optional `_tenant` reference.
pub open spec fn entity_block(s: SchemaDefinition) -> Seq<char> {
    "entity "@ + s.name@ + " in [Forge::Tenant] = {\n"@ + "    \"_tenant\"?: Forge::Tenant,\n"@
        + attribute_lines(s.fields@) + "};\n\n"@
}

/// The CRUD actions of a schema.
pub open spec fn crud_actions(name: Seq<char>) -> Seq<char> {
    "action Read"@ + name + ", List"@ + name + ", Create"@ + name + ", Update"@ + name + ", Delete"@
        + name + " appliesTo {\n    principal: [Forge::Principal],\n    resource: ["@ + name
        + "],\n};\n\n"@
}

/// The names of the fields that carry `@field_access` and are not
/// `@hidden`, each once, in ascending order.
pub open spec fn access_field_names(fields: Seq<FieldDefinition>) -> Seq<Seq<char>>
    decreases fields.len(),
{
    if fields.len() == 0 {
        Seq::empty()
    } else {
        let rest = access_field_names(fields.drop_last());
        let f = fields.last();
        if !f.hidden && f.field_access is Some {
            sorted_insert(rest, f.name@)
        } else {
            rest
        }
    }
}

/// The per-field actions of a schema: `ReadField<schema>_<field>` for each
/// name, then `WriteField<schema>_<field>` for each, in one declaration;
/// nothing when there is no such field.
pub open spec fn field_actions_block(name: Seq<char>, names: Seq<Seq<char>>) -> Seq<char> {
    if names.len() == 0 {
        Seq::empty()
    } else {
        let reads = names.map_values(|f: Seq<char>| "ReadField"@ + name + "_"@ + f);
        let writes = names.map_values(|f: Seq<char>| "WriteField"@ + name + "_"@ + f);
        "action "@ + join_seq(reads + writes, ", "@) + " appliesTo {\n    principal: [Forge::Principal],\n    resource: ["@
            + name + "],\n};\n\n"@
    }
}

/// Everything generated for one schema.
pub open spec fn schema_source(s: SchemaDefinition) -> Seq<char> {
    entity_block(s) + crud_actions(s.name@) + field_actions_block(
        s.name@,
        access_field_names(s.fields@),
    )
}

pub open spec fn schemas_source(schemas: Seq<SchemaDefinition>) -> Seq<char>
    decreases schemas.len(),
{
    if schemas.len() == 0 {
        Seq::empty()
    } else {
        schemas_source(schemas.drop_last()) + schema_source(schemas.last())
    }
}

/// The whole Cedar schema document.
pub open spec fn cedar_schema_spec(schemas: Seq<SchemaDefinition>, claims: PrincipalClaimMappings) -> Seq<char> {
    FORGE_NAMESPACE_HEAD@ + fragment_spec(claims.mappings()) + FORGE_NAMESPACE_TAIL@ + schemas_source(
        schemas,
    )
}


/// A field whose per-field actions are declared: not `@hidden`, with
/// `@field_access`.
pub open spec fn is_access_field(fields: Seq<FieldDefinition>, x: Seq<char>) -> bool {
    exists|i: int|
        0 <= i < fields.len() && !(#[trigger] fields[i]).hidden && fields[i].field_access is Some && fields[i].name@
            == x
}

/// The per-field action names come in strictly ascending order, each field
/// once, and exactly the visible `@field_access` fields are named (the
/// order a sorted set gives them).
pub proof fn lemma_access_names(fields: Seq<FieldDefinition>)
    ensures
        strictly_sorted(access_field_names(fields)),
        forall|x: Seq<char>| access_field_names(fields).contains(x) <==> is_access_field(fields, x),
    decreases fields.len(),
{
    if fields.len() > 0 {
        let init = fields.drop_last();
        lemma_access_names(init);
        let rest = access_field_names(init);
        let f = fields.last();
        if !f.hidden && f.field_access is Some {
            lemma_sorted_insert_props(rest, f.name@);
        }
        assert forall|x: Seq<char>| access_field_names(fields).contains(x) <==> is_access_field(fields, x) by {
            if is_access_field(fields, x) {
                let i = choose|i: int|
                    0 <= i < fields.len() && !(#[trigger] fields[i]).hidden && fields[i].field_access is Some
                        && fields[i].name@ == x;
                if i < init.len() {
                    assert(init[i] == fields[i]);
                    assert(is_access_field(init, x));
                }
            }
            if is_access_field(init, x) {
                let i = choose|i: int|
                    0 <= i < init.len() && !(#[trigger] init[i]).hidden && init[i].field_access is Some && init[i].name@
                        == x;
                assert(fields[i] == init[i]);
            }
        }
    }
}

/// The per-field action names of `fields`, as `access_field_names`.
fn access_names(fields: &[FieldDefinition]) -> (r: Vec<String>)
    ensures
        r@.map_values(|n: String| n@) == access_field_names(fields@),
{
    let mut names: Vec<String> = Vec::new();
    let mut i: usize = 0;
    while i < fields.len()
        invariant
            i <= fields@.len(),
            names@.map_values(|n: String| n@) == access_field_names(fields@.subrange(0, i as int)),
        decreases fields@.len() - i,
    {
        let ghost pre = fields@.subrange(0, i + 1);
        assert(pre.drop_last() =~= fields@.subrange(0, i as int));
        proof {
            lemma_access_names(fields@.subrange(0, i as int));
        }
        let f = &fields[i];
        if !f.hidden && f.field_access.is_some() {
            names = insert_name(names, f.name.clone());
        }
        i += 1;
    }
    assert(fields@.subrange(0, i as int) =~= fields@);
    names
}

fn write_attribute_line(out: &mut String, f: &FieldDefinition)
    ensures
        final(out)@ == old(out)@ + attribute_line(*f),
{
    if f.hidden {
        assert(old(out)@ + attribute_line(*f) =~= old(out)@);
        return;
    }
    match cedar_type_for(&f.field_type) {
        None => {
            assert(old(out)@ + attribute_line(*f) =~= old(out)@);
        },
        Some(t) => {
            let ghost start = out@;
            push_str(out, "    \"");
            push_str(out, f.name.as_str());
            push_str(out, "\"");
            if f.required {
                push_str(out, "");
            } else {
                push_str(out, "?");
            }
            push_str(out, ": ");
            push_str(out, t.as_str());
            push_str(out, ",\n");
            assert(out@ =~= start + attribute_line(*f));
        },
    }
}

fn write_schema_entity(out: &mut String, s: &SchemaDefinition)
    ensures
        final(out)@ == old(out)@ + entity_block(*s),
{
    let ghost start = out@;
    push_str(out, "entity ");
    push_str(out, s.name.as_str());
    push_str(out, " in [Forge::Tenant] = {\n");
    push_str(out, "    \"_tenant\"?: Forge::Tenant,\n");
    let ghost head = out@;
    let mut i: usize = 0;
    while i < s.fields.len()
        invariant
            i <= s.fields@.len(),
            out@ == head + attribute_lines(s.fields@.subrange(0, i as int)),
        decreases s.fields@.len() - i,
    {
        let ghost pre = s.fields@.subrange(0, i + 1);
        assert(pre.drop_last() =~= s.fields@.subrange(0, i as int));
        write_attribute_line(out, &s.fields[i]);
        i += 1;
        assert(out@ =~= head + attribute_lines(s.fields@.subrange(0, i as int)));
    }
    assert(s.fields@.subrange(0, i as int) =~= s.fields@);
    push_str(out, "};\n\n");
    assert(out@ =~= start + entity_block(*s));
}

fn write_schema_actions(out: &mut String, name: &str)
    ensures
        final(out)@ == old(out)@ + crud_actions(name@),
{
    let ghost start = out@;
    push_str(out, "action Read");
    push_str(out, name);
    push_str(out, ", List");
    push_str(out, name);
    push_str(out, ", Create");
    push_str(out, name);
    push_str(out, ", Update");
    push_str(out, name);
    push_str(out, ", Delete");
    push_str(out, name);
    push_str(out, " appliesTo {\n    principal: [Forge::Principal],\n    resource: [");
    push_str(out, name);
    push_str(out, "],\n};\n\n");
    assert(out@ =~= start + crud_actions(name@));
}

/// `<prefix><schema>_<name>` for each name, appended to `acts`.
fn push_field_actions(acts: &mut Vec<String>, prefix: &str, schema: &str, names: &Vec<String>)
    ensures
        final(acts)@.map_values(|a: String| a@) == old(acts)@.map_values(|a: String| a@) + names@.map_values(
            |n: String| n@,
        ).map_values(|f: Seq<char>| prefix@ + schema@ + "_"@ + f),
{
    let ghost start = acts@.map_values(|a: String| a@);
    let ghost nv = names@.map_values(|n: String| n@);
    let mut i: usize = 0;
    while i < names.len()
        invariant
            i <= names@.len(),
            nv == names@.map_values(|n: String| n@),
            acts@.map_values(|a: String| a@) == start + nv.subrange(0, i as int).map_values(
                |f: Seq<char>| prefix@ + schema@ + "_"@ + f,
            ),
        decreases names@.len() - i,
    {
        let mut a = str_to_string(prefix);
        push_str(&mut a, schema);
        push_str(&mut a, "_");
        push_str(&mut a, names[i].as_str());
        let ghost before = acts@.map_values(|a: String| a@);
        let ghost av = a@;
        acts.push(a);
        assert(acts@.map_values(|a: String| a@) =~= before.push(av));
        assert(av == prefix@ + schema@ + "_"@ + nv[i as int]);
        let ghost mapped = nv.subrange(0, i + 1).map_values(|f: Seq<char>| prefix@ + schema@ + "_"@ + f);
        assert(mapped =~= nv.subrange(0, i as int).map_values(|f: Seq<char>| prefix@ + schema@ + "_"@ + f).push(av));
        i += 1;
        assert(acts@.map_values(|a: String| a@) =~= start + nv.subrange(0, i as int).map_values(
            |f: Seq<char>| prefix@ + schema@ + "_"@ + f,
        ));
    }
    assert(nv.subrange(0, i as int) =~= nv);
}

fn write_per_field_actions(out: &mut String, s: &SchemaDefinition)
    ensures
        final(out)@ == old(out)@ + field_actions_block(s.name@, access_field_names(s.fields@)),
{
    let names = access_names(s.fields.as_slice());
    let ghost nv = names@.map_values(|n: String| n@);
    if names.len() == 0 {
        assert(old(out)@ + field_actions_block(s.name@, nv) =~= old(out)@);
        return;
    }
    let mut acts: Vec<String> = Vec::new();
    push_field_actions(&mut acts, "ReadField", s.name.as_str(), &names);
    push_field_actions(&mut acts, "WriteField", s.name.as_str(), &names);
    let ghost reads = nv.map_values(|f: Seq<char>| "ReadField"@ + s.name@ + "_"@ + f);
    let ghost writes = nv.map_values(|f: Seq<char>| "WriteField"@ + s.name@ + "_"@ + f);
    assert(acts@.map_values(|a: String| a@) =~= reads + writes);
    let joined = crate::text::join_strings(acts.as_slice(), ", ");
    assert(crate::text::views(acts@) =~= acts@.map_values(|a: String| a@));
    let ghost start = out@;
    push_str(out, "action ");
    push_str(out, joined.as_str());
    push_str(out, " appliesTo {\n    principal: [Forge::Principal],\n    resource: [");
    push_str(out, s.name.as_str());
    push_str(out, "],\n};\n\n");
    assert(out@ =~= start + field_actions_block(s.name@, nv));
}

/// Generates Cedar schema source for `schemas`, with one optional
/// attribute on `Forge::Principal` per principal-claim mapping: the `Forge`
/// namespace, then each schema's entity type, CRUD actions and per-field
/// actions, in order.
pub fn generate_cedar_schema_with_inputs(
    schemas: &[SchemaDefinition],
    principal_claims: &PrincipalClaimMappings,
) -> (r: Result<String, SchemaGenError>)
    ensures
        r matches Ok(s) && s@ == cedar_schema_spec(schemas@, *principal_claims),
{
    let mut out = str_to_string(FORGE_NAMESPACE_HEAD);
    push_str(&mut out, principal_claims.cedar_schema_fragment().as_str());
    push_str(&mut out, FORGE_NAMESPACE_TAIL);
    let ghost head = out@;
    let mut i: usize = 0;
    while i < schemas.len()
        invariant
            i <= schemas@.len(),
            out@ == head + schemas_source(schemas@.subrange(0, i as int)),
        decreases schemas@.len() - i,
    {
        let ghost pre = schemas@.subrange(0, i + 1);
        assert(pre.drop_last() =~= schemas@.subrange(0, i as int));
        write_schema_entity(&mut out, &schemas[i]);
        write_schema_actions(&mut out, schemas[i].name.as_str());
        write_per_field_actions(&mut out, &schemas[i]);
        i += 1;
        assert(out@ =~= head + schemas_source(schemas@.subrange(0, i as int)));
    }
    assert(schemas@.subrange(0, i as int) =~= schemas@);
    Ok(out)
}

/// Generates Cedar schema source for `schemas` with no principal-claim
/// mappings.
pub fn generate_cedar_schema(schemas: &[SchemaDefinition]) -> (r: Result<String, SchemaGenError>)
    ensures
        r matches Ok(s) && s@ == FORGE_NAMESPACE_HEAD@ + FORGE_NAMESPACE_TAIL@ + schemas_source(schemas@),
{
    let none = PrincipalClaimMappings::empty();
    let r = generate_cedar_schema_with_inputs(schemas, &none);
    assert(fragment_spec(none.mappings()) =~= Seq::<char>::empty());
    r
}

/// Timestamps are Cedar `Long`s, like integers and floats: an optional,
/// visible `DateTime` field is declared `"<name>"?: Long`.
pub proof fn lemma_datetime_is_long(f: FieldDefinition, ci: IntegerConstraints, cf: FloatConstraints)
    ensures
        cedar_type_spec(FieldType::DateTime) == Some("Long"@),
        cedar_type_spec(FieldType::DateTime) == cedar_type_spec(FieldType::Integer(ci)),
        cedar_type_spec(FieldType::DateTime) == cedar_type_spec(FieldType::Float(cf)),
        f.field_type is DateTime && !f.hidden && !f.required ==> attribute_line(f) == "    \""@ + f.name@
            + "\"?: Long,\n"@,
{
    if f.field_type is DateTime && !f.hidden && !f.required {
        assert(attribute_line(f) =~= "    \""@ + f.name@ + "\"?: Long,\n"@) by {
            reveal_strlit("    \"");
            reveal_strlit("\"");
            reveal_strlit("?");
            reveal_strlit(": ");
            reveal_strlit("Long");
            reveal_strlit(",\n");
            reveal_strlit("\"?: Long,\n");
        }
    }
}

/// The Cedar type of each scalar kind: text, rich text, enums and files
/// are `String`s; integers, floats and timestamps `Long`s; booleans
/// `Bool`s; JSON and composite values have none.
pub proof fn lemma_scalar_cedar_types(
    ct: TextConstraints,
    ci: IntegerConstraints,
    cf: FloatConstraints,
    variants: Vec<String>,
    subs: Vec<FieldDefinition>,
)
    ensures
        cedar_type_spec(FieldType::Text(ct)) == Some("String"@),
        cedar_type_spec(FieldType::RichText) == Some("String"@),
        cedar_type_spec(FieldType::Enum(variants)) == Some("String"@),
        cedar_type_spec(FieldType::Integer(ci)) == Some("Long"@),
        cedar_type_spec(FieldType::Float(cf)) == Some("Long"@),
        cedar_type_spec(FieldType::DateTime) == Some("Long"@),
        cedar_type_spec(FieldType::Boolean) == Some("Bool"@),
        cedar_type_spec(FieldType::Json) is None,
        cedar_type_spec(FieldType::Composite(subs)) is None,
{
}

} // verus!
