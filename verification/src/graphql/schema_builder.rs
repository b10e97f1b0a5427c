//! The GraphQL schema generated from the application schemas: its object,
//! connection, input and enum types, its query and mutation fields, the
//! naming rules behind them, and the check that no two schemas generate
//! the same query field.
use vstd::prelude::*;

use crate::definition::{FieldDefinition, FieldType, SchemaDefinition};
use crate::graphql::description::{
    enum_is, field_def, fields_are, input_object_is, input_value, lemma_fields_concat, object_is,
    values_are, EnumDef, FieldDef, FieldSpec, InputObjectDef, InputValueDef, ObjectDef, ScalarDef,
    ValueSpec,
};
use crate::graphql::input_types::{
    build_create_input, build_filter_input, build_sort_field_enum, build_sort_input,
    build_sort_order_enum, filter_input_fields, input_fields, SORT_ORDER_ENUM,
};
use crate::graphql::type_mapping::{field_type_to_type_ref, type_ref_spec, DATETIME_SCALAR, INT64_SCALAR, JSON_SCALAR};
use crate::text::{views, copy_strings, char_lowercase, char_to_lowercase, chars_of, concat2, ends_with, has_suffix, push_str, str_to_string, string_from};

verus! {

/// The first character lowercased (by `char::to_lowercase`), the rest kept.
pub open spec fn lcfirst_spec(s: Seq<char>) -> Seq<char> {
    if s.len() == 0 {
        Seq::empty()
    } else {
        char_lowercase(s[0]) + s.drop_first()
    }
}

/// Lowercases the first character: `Contact` becomes `contact`.
pub fn lcfirst(s: &str) -> (r: String)
    ensures
        r@ == lcfirst_spec(s@),
{
    let v = chars_of(s);
    if v.len() == 0 {
        return String::new();
    }
    let mut r = char_to_lowercase(v[0]);
    let rest = string_from(vstd::slice::slice_subrange(v.as_slice(), 1, v.len()));
    push_str(&mut r, rest.as_str());
    assert(v@.subrange(1, v@.len() as int) =~= s@.drop_first());
    r
}

pub open spec fn is_vowel(c: char) -> bool {
    c == 'a' || c == 'e' || c == 'i' || c == 'o' || c == 'u'
}

/// Simple English pluralization: `-es` after a sibilant ending, `-ies` in
/// place of a `y` that follows a consonant, `-s` otherwise.
pub open spec fn pluralize_spec(s: Seq<char>) -> Seq<char> {
    if has_suffix(s, "sh"@) || has_suffix(s, "ch"@) || has_suffix(s, "s"@) || has_suffix(s, "x"@)
        || has_suffix(s, "z"@) {
        s + "es"@
    } else if has_suffix(s, "y"@) && s.len() > 1 && !is_vowel(s[s.len() - 2]) {
        s.drop_last() + "ies"@
    } else {
        s + "s"@
    }
}

/// Simple English pluralization.
pub fn pluralize(s: &str) -> (r: String)
    ensures
        r@ == pluralize_spec(s@),
{
    proof {
        reveal_strlit("sh");
        reveal_strlit("ch");
        reveal_strlit("s");
        reveal_strlit("x");
        reveal_strlit("z");
        reveal_strlit("y");
    }
    let v = chars_of(s);
    if ends_with(&v, &chars_of("sh")) || ends_with(&v, &chars_of("ch")) || ends_with(
        &v,
        &chars_of("s"),
    ) || ends_with(&v, &chars_of("x")) || ends_with(&v, &chars_of("z")) {
        concat2(s, "es")
    } else if ends_with(&v, &chars_of("y")) && v.len() > 1 && !(v[v.len() - 2] == 'a' || v[v.len()
        - 2] == 'e' || v[v.len() - 2] == 'i' || v[v.len() - 2] == 'o' || v[v.len() - 2] == 'u') {
        let stem = string_from(vstd::slice::slice_subrange(v.as_slice(), 0, v.len() - 1));
        assert(v@.subrange(0, v@.len() - 1) =~= s@.drop_last());
        concat2(stem.as_str(), "ies")
    } else {
        concat2(s, "s")
    }
}

/// Query field names with the schema that generates each, as views.
pub open spec fn names_view(names: Seq<(String, String)>) -> Seq<(Seq<char>, Seq<char>)> {
    names.map_values(|p: (String, String)| (p.0@, p.1@))
}

/// No field name occurs twice among the first `n` pairs.
pub open spec fn distinct_upto(names: Seq<(Seq<char>, Seq<char>)>, n: int) -> bool {
    forall|a: int, b: int| 0 <= a < b < n ==> names[a].0 != names[b].0
}

/// The error text for a field name generated by two schemas.
pub open spec fn collision_message(field: Seq<char>, first: Seq<char>, second: Seq<char>) -> Seq<char> {
    "GraphQL field name collision: '"@ + field + "' is generated by both '"@ + first + "' and '"@
        + second + "'"@
}

/// Pair `b` repeats the field name of pair `a`, which is its first
/// occurrence, and no earlier pair repeats a name.
pub open spec fn first_collision(names: Seq<(Seq<char>, Seq<char>)>, a: int, b: int) -> bool {
    &&& 0 <= a < b < names.len()
    &&& names[a].0 == names[b].0
    &&& distinct_upto(names, b)
    &&& forall|c: int| 0 <= c < a ==> names[c].0 != names[b].0
}

/// Checks that no two schemas generate the same query field name. The error
/// names the first repeated field, the schema that generated it first, and
/// the schema that repeats it.
pub fn check_field_collisions(names: &[(String, String)]) -> (r: Result<(), String>)
    ensures
        ({
            let nv = names_view(names@);
            &&& r is Ok <==> distinct_upto(nv, nv.len() as int)
            &&& r matches Err(m) ==> exists|a: int, b: int|
                first_collision(nv, a, b) && m@ == collision_message(nv[a].0, nv[a].1, nv[b].1)
        }),
{
    let ghost nv = names_view(names@);
    let mut j: usize = 0;
    while j < names.len()
        invariant
            j <= names@.len(),
            nv == names_view(names@),
            distinct_upto(nv, j as int),
        decreases names@.len() - j,
    {
        let mut i: usize = 0;
        while i < j
            invariant
                i <= j < names@.len(),
                nv == names_view(names@),
                distinct_upto(nv, j as int),
                forall|c: int| 0 <= c < i ==> nv[c].0 != nv[j as int].0,
            decreases j - i,
        {
            if names[i].0 == names[j].0 {
                let mut m = str_to_string("GraphQL field name collision: '");
                push_str(&mut m, names[j].0.as_str());
                push_str(&mut m, "' is generated by both '");
                push_str(&mut m, names[i].1.as_str());
                push_str(&mut m, "' and '");
                push_str(&mut m, names[j].1.as_str());
                push_str(&mut m, "'");
                assert(first_collision(nv, i as int, j as int));
                assert(m@ == collision_message(nv[i as int].0, nv[i as int].1, nv[j as int].1));
                return Err(m);
            }
            i += 1;
        }
        j += 1;
    }
    Ok(())
}

// ---------------------------------------------------------------------------
// Output types
// ---------------------------------------------------------------------------

/// The output field of schema field `f`: a relation is always nullable,
/// any other field non-null when required.
pub open spec fn output_field(schema: Seq<char>, f: FieldDefinition) -> FieldSpec {
    (
        f.name@,
        type_ref_spec(schema, f.name@, f.field_type, !(f.field_type is Relation) && f.required),
        Seq::empty(),
    )
}

/// The fields of a schema's object type: `id: ID!`, then one per field.
pub open spec fn output_fields(s: SchemaDefinition) -> Seq<FieldSpec> {
    seq![("id"@, "ID!"@, Seq::<ValueSpec>::empty())] + s.fields@.map_values(
        |f: FieldDefinition| output_field(s.name@, f),
    )
}

/// Builds the object type of a schema, named `object_name`.
pub fn build_output_type(schema: &SchemaDefinition, object_name: &str) -> (o: ObjectDef)
    ensures
        object_is(o, object_name@, output_fields(*schema)),
{
    let mut fields: Vec<FieldDef> = Vec::new();
    fields.push(field_def(str_to_string("id"), str_to_string("ID!"), Vec::new()));
    let ghost spec = output_fields(*schema);
    let mut i: usize = 0;
    while i < schema.fields.len()
        invariant
            i <= schema.fields@.len(),
            spec == output_fields(*schema),
            fields@.len() == 1 + i,
            fields_are(fields@, spec.subrange(0, 1 + i)),
        decreases schema.fields@.len() - i,
    {
        let f = &schema.fields[i];
        let required = match f.field_type {
            FieldType::Relation { .. } => false,
            _ => f.required,
        };
        let t = field_type_to_type_ref(schema.name.as_str(), f.name.as_str(), &f.field_type, required);
        let ghost before = fields@;
        fields.push(field_def(f.name.clone(), t, Vec::new()));
        proof {
            assert(spec[1 + i] == output_field(schema.name@, schema.fields@[i as int]));
            assert forall|k: int| 0 <= k < fields@.len() implies {
                &&& (#[trigger] fields@[k]).name@ == spec.subrange(0, 2 + i)[k].0
                &&& fields@[k].type_ref@ == spec.subrange(0, 2 + i)[k].1
                &&& values_are(fields@[k].args@, spec.subrange(0, 2 + i)[k].2)
            } by {
                if k < 1 + i {
                    assert(fields@[k] == before[k]);
                    assert(spec.subrange(0, 2 + i)[k] == spec.subrange(0, 1 + i)[k]);
                }
            }
        }
        i += 1;
    }
    assert(spec.subrange(0, 1 + i as int) =~= spec);
    ObjectDef { name: str_to_string(object_name), fields }
}

/// The fields of a connection type over `item`.
pub open spec fn connection_fields(item: Seq<char>) -> Seq<FieldSpec> {
    seq![
        ("items"@, "["@ + item + "!]"@, Seq::<ValueSpec>::empty()),
        ("count"@, "Int!"@, Seq::<ValueSpec>::empty()),
        ("totalCount"@, "Int"@, Seq::<ValueSpec>::empty()),
    ]
}

/// Builds a connection type: the page's items, their count, and the total
/// count when known.
pub fn build_connection_type(connection_name: &str, item_type_name: &str) -> (o: ObjectDef)
    ensures
        object_is(o, connection_name@, connection_fields(item_type_name@)),
{
    let mut items_ref = concat2("[", item_type_name);
    push_str(&mut items_ref, "!]");
    let mut fields: Vec<FieldDef> = Vec::new();
    fields.push(field_def(str_to_string("items"), items_ref, Vec::new()));
    fields.push(field_def(str_to_string("count"), str_to_string("Int!"), Vec::new()));
    fields.push(field_def(str_to_string("totalCount"), str_to_string("Int"), Vec::new()));
    ObjectDef { name: str_to_string(connection_name), fields }
}

/// The enum type of each enum field: `<Schema>_<field>` with the field's
/// variants, in field order.
pub open spec fn enum_types(schema: Seq<char>, fields: Seq<FieldDefinition>) -> Seq<(Seq<char>, Seq<Seq<char>>)>
    decreases fields.len(),
{
    if fields.len() == 0 {
        Seq::empty()
    } else {
        let rest = enum_types(schema, fields.drop_last());
        match fields.last().field_type {
            FieldType::Enum(vs) => rest.push((schema + "_"@ + fields.last().name@, views(vs@))),
            _ => rest,
        }
    }
}

/// The fields of the nested object type of a composite field.
pub open spec fn nested_fields(nested: Seq<char>, inner: Seq<FieldDefinition>) -> Seq<FieldSpec> {
    inner.map_values(
        |g: FieldDefinition| (g.name@, type_ref_spec(nested, g.name@, g.field_type, g.required), Seq::<ValueSpec>::empty()),
    )
}

/// The nested object type of each composite field: `<Schema>_<field>`
/// with one field per inner field, in field order.
pub open spec fn composite_types(schema: Seq<char>, fields: Seq<FieldDefinition>) -> Seq<(Seq<char>, Seq<FieldSpec>)>
    decreases fields.len(),
{
    if fields.len() == 0 {
        Seq::empty()
    } else {
        let rest = composite_types(schema, fields.drop_last());
        let f = fields.last();
        match f.field_type {
            FieldType::Composite(inner) => rest.push(
                (schema + "_"@ + f.name@, nested_fields(schema + "_"@ + f.name@, inner@)),
            ),
            _ => rest,
        }
    }
}

fn nested_object(nested: String, inner: &Vec<FieldDefinition>) -> (o: ObjectDef)
    ensures
        object_is(o, nested@, nested_fields(nested@, inner@)),
{
    let mut fields: Vec<FieldDef> = Vec::new();
    let mut i: usize = 0;
    while i < inner.len()
        invariant
            i <= inner@.len(),
            fields@.len() == i,
            forall|k: int|
                0 <= k < i ==> {
                    &&& (#[trigger] fields@[k]).name@ == nested_fields(nested@, inner@)[k].0
                    &&& fields@[k].type_ref@ == nested_fields(nested@, inner@)[k].1
                    &&& values_are(fields@[k].args@, nested_fields(nested@, inner@)[k].2)
                },
        decreases inner@.len() - i,
    {
        let g = &inner[i];
        let t = field_type_to_type_ref(nested.as_str(), g.name.as_str(), &g.field_type, g.required);
        fields.push(field_def(g.name.clone(), t, Vec::new()));
        i += 1;
    }
    ObjectDef { name: nested, fields }
}

/// The types generated for one application schema.
#[derive(Debug)]
pub struct SchemaTypes {
    pub object: ObjectDef,
    pub connection: ObjectDef,
    pub create_input: InputObjectDef,
    pub update_input: InputObjectDef,
    pub filter_input: InputObjectDef,
    pub sort_field: EnumDef,
    pub sort_input: InputObjectDef,
    pub enums: Vec<EnumDef>,
    pub composites: Vec<ObjectDef>,
}

/// `t` are the types generated for schema `s`.
pub open spec fn schema_types_are(t: SchemaTypes, s: SchemaDefinition) -> bool {
    let n = s.name@;
    &&& object_is(t.object, n, output_fields(s))
    &&& object_is(t.connection, n + "Connection"@, connection_fields(n))
    &&& input_object_is(t.create_input, "Create"@ + n + "Input"@, input_fields(s, true))
    &&& input_object_is(t.update_input, "Update"@ + n + "Input"@, input_fields(s, false))
    &&& input_object_is(t.filter_input, n + "Filter"@, filter_input_fields(s))
    &&& enum_is(t.sort_field, n + "SortField"@, s.fields@.map_values(|f: FieldDefinition| f.name@))
    &&& input_object_is(
        t.sort_input,
        n + "SortInput"@,
        seq![("field"@, n + "SortField"@ + "!"@), ("order"@, SORT_ORDER_ENUM@)],
    )
    &&& t.enums@.len() == enum_types(n, s.fields@).len()
    &&& forall|i: int|
        0 <= i < t.enums@.len() ==> enum_is(
            #[trigger] t.enums@[i],
            enum_types(n, s.fields@)[i].0,
            enum_types(n, s.fields@)[i].1,
        )
    &&& t.composites@.len() == composite_types(n, s.fields@).len()
    &&& forall|i: int|
        0 <= i < t.composites@.len() ==> object_is(
            #[trigger] t.composites@[i],
            composite_types(n, s.fields@)[i].0,
            composite_types(n, s.fields@)[i].1,
        )
}

fn underscore_name(schema_name: &str, field_name: &str) -> (r: String)
    ensures
        r@ == schema_name@ + "_"@ + field_name@,
{
    let mut r = concat2(schema_name, "_");
    push_str(&mut r, field_name);
    r
}

/// Builds every type generated for one application schema.
pub fn build_schema_types(schema: &SchemaDefinition) -> (t: SchemaTypes)
    ensures
        schema_types_are(t, *schema),
{
    let n = schema.name.as_str();
    let mut enums: Vec<EnumDef> = Vec::new();
    let mut composites: Vec<ObjectDef> = Vec::new();
    let mut i: usize = 0;
    while i < schema.fields.len()
        invariant
            i <= schema.fields@.len(),
            n@ == schema.name@,
            enums@.len() == enum_types(n@, schema.fields@.subrange(0, i as int)).len(),
            forall|k: int|
                0 <= k < enums@.len() ==> enum_is(
                    #[trigger] enums@[k],
                    enum_types(n@, schema.fields@.subrange(0, i as int))[k].0,
                    enum_types(n@, schema.fields@.subrange(0, i as int))[k].1,
                ),
            composites@.len() == composite_types(n@, schema.fields@.subrange(0, i as int)).len(),
            forall|k: int|
                0 <= k < composites@.len() ==> object_is(
                    #[trigger] composites@[k],
                    composite_types(n@, schema.fields@.subrange(0, i as int))[k].0,
                    composite_types(n@, schema.fields@.subrange(0, i as int))[k].1,
                ),
        decreases schema.fields@.len() - i,
    {
        let ghost pre = schema.fields@.subrange(0, i + 1);
        assert(pre.drop_last() =~= schema.fields@.subrange(0, i as int));
        assert(pre.last() == schema.fields@[i as int]);
        let f = &schema.fields[i];
        match &f.field_type {
            FieldType::Enum(variants) => {
                let items = copy_strings(variants);
                let ghost before = enums@;
                enums.push(EnumDef { name: underscore_name(n, f.name.as_str()), items });
                proof {
                    assert forall|k: int| 0 <= k < enums@.len() implies enum_is(
                        #[trigger] enums@[k],
                        enum_types(n@, pre)[k].0,
                        enum_types(n@, pre)[k].1,
                    ) by {
                        if k < before.len() {
                            assert(enums@[k] == before[k]);
                        } else {
                            assert(forall|x: int|
                                0 <= x < enums@[k].items@.len() ==> (#[trigger] enums@[k].items@[x])@ == views(
                                    variants@,
                                )[x]);
                        }
                    }
                }
            },
            FieldType::Composite(inner) => {
                let ghost before = composites@;
                composites.push(nested_object(underscore_name(n, f.name.as_str()), inner));
                proof {
                    assert forall|k: int| 0 <= k < composites@.len() implies object_is(
                        #[trigger] composites@[k],
                        composite_types(n@, pre)[k].0,
                        composite_types(n@, pre)[k].1,
                    ) by {
                        if k < before.len() {
                            assert(composites@[k] == before[k]);
                        }
                    }
                }
            },
            _ => {},
        }
        i += 1;
    }
    assert(schema.fields@.subrange(0, i as int) =~= schema.fields@);
    SchemaTypes {
        object: build_output_type(schema, n),
        connection: build_connection_type(concat2(n, "Connection").as_str(), n),
        create_input: build_create_input(schema),
        update_input: crate::graphql::input_types::build_update_input(schema),
        filter_input: build_filter_input(schema),
        sort_field: build_sort_field_enum(schema),
        sort_input: build_sort_input(schema),
        enums,
        composites,
    }
}

// ---------------------------------------------------------------------------
// The schema
// ---------------------------------------------------------------------------

/// The application schemas, in order: every schema but the `@system` ones.
pub open spec fn app_schemas(schemas: Seq<SchemaDefinition>) -> Seq<SchemaDefinition>
    decreases schemas.len(),
{
    if schemas.len() == 0 {
        Seq::empty()
    } else {
        let rest = app_schemas(schemas.drop_last());
        if schemas.last().system {
            rest
        } else {
            rest.push(schemas.last())
        }
    }
}

/// The query fields of schema `n`: `<n>(id: ID!)` and the connection
/// `<n>s(filter, sort, limit, offset)`, named after the schema with its
/// first letter lowercased, the list pluralized.
pub open spec fn query_fields_of(n: Seq<char>) -> Seq<FieldSpec> {
    let get = lcfirst_spec(n);
    seq![
        (get, n, seq![("id"@, "ID!"@)]),
        (
            pluralize_spec(get),
            n + "Connection"@ + "!"@,
            seq![
                ("filter"@, n + "Filter"@),
                ("sort"@, "["@ + n + "SortInput"@ + "]"@),
                ("limit"@, "Int"@),
                ("offset"@, "Int"@),
            ],
        ),
    ]
}

/// The mutation fields of schema `n`: create, update and delete.
pub open spec fn mutation_fields_of(n: Seq<char>) -> Seq<FieldSpec> {
    seq![
        ("create"@ + n, n + "!"@, seq![("input"@, "Create"@ + n + "Input"@ + "!"@)]),
        ("update"@ + n, n + "!"@, seq![("id"@, "ID!"@), ("input"@, "Update"@ + n + "Input"@ + "!"@)]),
        ("delete"@ + n, "Boolean!"@, seq![("id"@, "ID!"@)]),
    ]
}

/// The query fields of all application schemas, schema by schema.
pub open spec fn all_query_fields(apps: Seq<SchemaDefinition>) -> Seq<FieldSpec>
    decreases apps.len(),
{
    if apps.len() == 0 {
        Seq::empty()
    } else {
        all_query_fields(apps.drop_last()) + query_fields_of(apps.last().name@)
    }
}

/// The mutation fields of all application schemas, schema by schema.
pub open spec fn all_mutation_fields(apps: Seq<SchemaDefinition>) -> Seq<FieldSpec>
    decreases apps.len(),
{
    if apps.len() == 0 {
        Seq::empty()
    } else {
        all_mutation_fields(apps.drop_last()) + mutation_fields_of(apps.last().name@)
    }
}

/// The query field names with the schema generating each, in order.
pub open spec fn query_names(apps: Seq<SchemaDefinition>) -> Seq<(Seq<char>, Seq<char>)>
    decreases apps.len(),
{
    if apps.len() == 0 {
        Seq::empty()
    } else {
        let n = apps.last().name@;
        query_names(apps.drop_last()) + seq![(lcfirst_spec(n), n), (pluralize_spec(lcfirst_spec(n)), n)]
    }
}

/// The custom scalars: `DateTime`, `JSON` and `Int64`, with descriptions.
pub open spec fn scalars_are(ss: Seq<ScalarDef>) -> bool {
    &&& ss.len() == 3
    &&& ss[0].name@ == DATETIME_SCALAR@ && ss[0].description@ == "RFC 3339 datetime string"@
    &&& ss[1].name@ == JSON_SCALAR@ && ss[1].description@ == "Arbitrary JSON value"@
    &&& ss[2].name@ == INT64_SCALAR@ && ss[2].description@ == "64-bit integer serialized as string"@
}

/// The generated GraphQL schema: the query and mutation roots, the custom
/// scalars, the shared sort-order enum, the types of each application
/// schema, and the query depth and complexity limits.
#[derive(Debug)]
pub struct SchemaDef {
    pub query: ObjectDef,
    pub mutation: Option<ObjectDef>,
    pub scalars: Vec<ScalarDef>,
    pub sort_order: EnumDef,
    pub schema_types: Vec<SchemaTypes>,
    pub depth_limit: usize,
    pub complexity_limit: usize,
}

fn query_fields_for(n: &str) -> (v: Vec<FieldDef>)
    ensures
        fields_are(v@, query_fields_of(n@)),
{
    let get = lcfirst(n);
    let list = pluralize(get.as_str());
    let mut get_args: Vec<InputValueDef> = Vec::new();
    get_args.push(input_value("id", str_to_string("ID!")));
    let mut conn = concat2(n, "Connection");
    push_str(&mut conn, "!");
    let mut sort = concat2("[", n);
    push_str(&mut sort, "SortInput");
    push_str(&mut sort, "]");
    let mut list_args: Vec<InputValueDef> = Vec::new();
    list_args.push(input_value("filter", concat2(n, "Filter")));
    list_args.push(input_value("sort", sort));
    list_args.push(input_value("limit", str_to_string("Int")));
    list_args.push(input_value("offset", str_to_string("Int")));
    let mut v: Vec<FieldDef> = Vec::new();
    v.push(field_def(get, str_to_string(n), get_args));
    v.push(field_def(list, conn, list_args));
    v
}

fn mutation_fields_for(n: &str) -> (v: Vec<FieldDef>)
    ensures
        fields_are(v@, mutation_fields_of(n@)),
{
    let mut non_null = str_to_string(n);
    push_str(&mut non_null, "!");
    let mut create_ref = concat2("Create", n);
    push_str(&mut create_ref, "Input");
    push_str(&mut create_ref, "!");
    let mut update_ref = concat2("Update", n);
    push_str(&mut update_ref, "Input");
    push_str(&mut update_ref, "!");
    let mut create_args: Vec<InputValueDef> = Vec::new();
    create_args.push(input_value("input", create_ref));
    let mut update_args: Vec<InputValueDef> = Vec::new();
    update_args.push(input_value("id", str_to_string("ID!")));
    update_args.push(input_value("input", update_ref));
    let mut delete_args: Vec<InputValueDef> = Vec::new();
    delete_args.push(input_value("id", str_to_string("ID!")));
    let mut v: Vec<FieldDef> = Vec::new();
    v.push(field_def(concat2("create", n), non_null.clone(), create_args));
    v.push(field_def(concat2("update", n), non_null, update_args));
    v.push(field_def(concat2("delete", n), str_to_string("Boolean!"), delete_args));
    v
}

fn scalar(name: &str, description: &str) -> (s: ScalarDef)
    ensures
        s.name@ == name@,
        s.description@ == description@,
{
    ScalarDef { name: str_to_string(name), description: str_to_string(description) }
}

/// Builds the GraphQL schema of `schemas`, leaving out `@system` schemas.
///
/// Each application schema gets its types (see [`build_schema_types`]),
/// two query fields and three mutation fields. With no application schema
/// the query root holds a single placeholder field and there is no
/// mutation root. Fails when two schemas generate the same query field
/// name, naming the first such repeat.
pub fn build_graphql_schema(schemas: &[SchemaDefinition]) -> (r: Result<SchemaDef, String>)
    ensures
        ({
            let apps = app_schemas(schemas@);
            let names = query_names(apps);
            &&& r is Ok <==> distinct_upto(names, names.len() as int)
            &&& r matches Err(m) ==> exists|a: int, b: int|
                first_collision(names, a, b) && m@ == collision_message(names[a].0, names[a].1, names[b].1)
            &&& r matches Ok(d) ==> {
                &&& object_is(
                    d.query,
                    "Query"@,
                    if apps.len() == 0 {
                        seq![("_empty"@, "Boolean"@, Seq::<ValueSpec>::empty())]
                    } else {
                        all_query_fields(apps)
                    },
                )
                &&& (d.mutation is None <==> apps.len() == 0)
                &&& d.mutation matches Some(m) ==> object_is(m, "Mutation"@, all_mutation_fields(apps))
                &&& scalars_are(d.scalars@)
                &&& enum_is(d.sort_order, SORT_ORDER_ENUM@, seq!["ASC"@, "DESC"@])
                &&& d.schema_types@.len() == apps.len()
                &&& forall|i: int| 0 <= i < apps.len() ==> schema_types_are(#[trigger] d.schema_types@[i], apps[i])
                &&& d.depth_limit == 10
                &&& d.complexity_limit == 1000
            }
        }),
{
    let mut types: Vec<SchemaTypes> = Vec::new();
    let mut query: Vec<FieldDef> = Vec::new();
    let mut mutation: Vec<FieldDef> = Vec::new();
    let mut names: Vec<(String, String)> = Vec::new();
    let mut i: usize = 0;
    while i < schemas.len()
        invariant
            i <= schemas@.len(),
            ({
                let apps = app_schemas(schemas@.subrange(0, i as int));
                &&& types@.len() == apps.len()
                &&& forall|k: int| 0 <= k < apps.len() ==> schema_types_are(#[trigger] types@[k], apps[k])
                &&& fields_are(query@, all_query_fields(apps))
                &&& fields_are(mutation@, all_mutation_fields(apps))
                &&& names_view(names@) == query_names(apps)
            }),
        decreases schemas@.len() - i,
    {
        let ghost pre = schemas@.subrange(0, i + 1);
        let ghost before = app_schemas(schemas@.subrange(0, i as int));
        assert(pre.drop_last() =~= schemas@.subrange(0, i as int));
        assert(pre.last() == schemas@[i as int]);
        let s = &schemas[i];
        if !s.system {
            let n = s.name.as_str();
            let ghost apps = app_schemas(pre);
            assert(apps == before.push(*s));
            assert(apps.drop_last() =~= before);
            let ghost old_types = types@;
            types.push(build_schema_types(s));
            assert forall|k: int| 0 <= k < apps.len() implies schema_types_are(#[trigger] types@[k], apps[k]) by {
                if k < before.len() {
                    assert(types@[k] == old_types[k]);
                }
            }
            let ghost q0 = query@;
            let mut qf = query_fields_for(n);
            let ghost qv = qf@;
            query.append(&mut qf);
            proof {
                lemma_fields_concat(q0, qv, all_query_fields(before), query_fields_of(s.name@));
            }
            let ghost m0 = mutation@;
            let mut mf = mutation_fields_for(n);
            let ghost mv = mf@;
            mutation.append(&mut mf);
            proof {
                lemma_fields_concat(m0, mv, all_mutation_fields(before), mutation_fields_of(s.name@));
            }
            let get = lcfirst(n);
            let list = pluralize(get.as_str());
            let ghost n0 = names@;
            names.push((get, s.name.clone()));
            names.push((list, s.name.clone()));
            assert(names_view(names@) =~= names_view(n0) + seq![
                (lcfirst_spec(s.name@), s.name@),
                (pluralize_spec(lcfirst_spec(s.name@)), s.name@),
            ]);
        }
        i += 1;
    }
    assert(schemas@.subrange(0, i as int) =~= schemas@);
    match check_field_collisions(names.as_slice()) {
        Err(m) => {
            return Err(m);
        },
        Ok(()) => {},
    }
    let mutation_root = if types.len() == 0 {
        query.push(field_def(str_to_string("_empty"), str_to_string("Boolean"), Vec::new()));
        None
    } else {
        Some(ObjectDef { name: str_to_string("Mutation"), fields: mutation })
    };
    let mut scalars: Vec<ScalarDef> = Vec::new();
    scalars.push(scalar(DATETIME_SCALAR, "RFC 3339 datetime string"));
    scalars.push(scalar(JSON_SCALAR, "Arbitrary JSON value"));
    scalars.push(scalar(INT64_SCALAR, "64-bit integer serialized as string"));
    Ok(SchemaDef {
        query: ObjectDef { name: str_to_string("Query"), fields: query },
        mutation: mutation_root,
        scalars,
        sort_order: build_sort_order_enum(),
        schema_types: types,
        depth_limit: 10,
        complexity_limit: 1000,
    })
}

} // verus!
