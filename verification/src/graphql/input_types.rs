//! The GraphQL input types of a schema (create, update, filter and sort
//! inputs), and the reading of `field_op` filter keys.
use vstd::prelude::*;
use vstd::string::*;

use crate::definition::{FieldDefinition, FieldType, FloatConstraints, IntegerConstraints, SchemaDefinition};
use crate::graphql::description::{enum_is, input_object_is, input_value, EnumDef, InputObjectDef, InputValueDef, ValueSpec};
use crate::graphql::type_mapping::{DATETIME_SCALAR, JSON_SCALAR};
use crate::text::{chars_eq, chars_of, concat2, ends_with, has_suffix, push_str, str_to_string};

verus! {

/// The known filter operators, in the order they are tried.
pub open spec fn filter_ops() -> Seq<Seq<char>> {
    seq![
        "eq"@,
        "ne"@,
        "gt"@,
        "gte"@,
        "lt"@,
        "lte"@,
        "contains"@,
        "starts_with"@,
        "in"@,
    ]
}

/// `key` ends with `_` and `op`, and something is left before that.
pub open spec fn splits_with(key: Seq<char>, op: Seq<char>) -> bool {
    key.len() > op.len() + 1 && has_suffix(key, "_"@ + op)
}

/// The split by the first operator, from position `k` of `filter_ops()` on,
/// that `key` splits with.
pub open spec fn filter_split(key: Seq<char>, k: int) -> Option<(Seq<char>, Seq<char>)>
    decreases 9 - k,
{
    if k < 0 || k >= 9 {
        None
    } else if splits_with(key, filter_ops()[k]) {
        Some((key.subrange(0, key.len() - filter_ops()[k].len() - 1), filter_ops()[k]))
    } else {
        filter_split(key, k + 1)
    }
}

/// The `k`-th known operator.
fn filter_op(k: usize) -> (op: &'static str)
    requires
        k < 9,
    ensures
        op@ == filter_ops()[k as int],
{
    proof {
        reveal_strlit("eq");
        reveal_strlit("ne");
        reveal_strlit("gt");
        reveal_strlit("gte");
        reveal_strlit("lt");
        reveal_strlit("lte");
        reveal_strlit("contains");
        reveal_strlit("starts_with");
        reveal_strlit("in");
    }
    match k {
        0 => "eq",
        1 => "ne",
        2 => "gt",
        3 => "gte",
        4 => "lt",
        5 => "lte",
        6 => "contains",
        7 => "starts_with",
        _ => "in",
    }
}

/// Parses a `field_op` key by splitting off the first known operator suffix
/// (tried in the order of `filter_ops()`) that leaves a non-empty field name.
pub fn parse_filter_field_op<'a>(key: &'a str) -> (r: Option<(&'a str, &'static str)>)
    ensures
        match r {
            Some((field, op)) => filter_split(key@, 0) == Some((field@, op@)),
            None => filter_split(key@, 0) is None,
        },
{
    proof {
        reveal_strlit("_");
        assert("_"@.len() == 1);
    }
    let kv = chars_of(key);
    let mut k: usize = 0;
    while k < 9
        invariant
            k <= 9,
            kv@ == key@,
            "_"@.len() == 1,
            filter_split(key@, 0) == filter_split(key@, k as int),
        decreases 9 - k,
    {
        let op = filter_op(k);
        let suffix = concat2("_", op);
        let sv = chars_of(suffix.as_str());
        assert(sv@ == "_"@ + filter_ops()[k as int]);
        assert(sv@.len() == op@.len() + 1);
        if kv.len() > sv.len() && ends_with(&kv, &sv) {
            assert(splits_with(key@, filter_ops()[k as int]));
            assert(filter_split(key@, k as int) == Some((key@.subrange(0, key@.len() - op@.len() - 1), op@)));
            let field = key.substring_char(0, kv.len() - sv.len());
            return Some((field, op));
        }
        assert(!splits_with(key@, filter_ops()[k as int]));
        assert(filter_split(key@, k as int) == filter_split(key@, k + 1));
        k += 1;
    }
    None
}

/// The shared sort-order enum, registered once.
pub const SORT_ORDER_ENUM: &'static str = "SortOrder";

/// Builds the shared `SortOrder` enum: `ASC`, `DESC`.
pub fn build_sort_order_enum() -> (e: EnumDef)
    ensures
        enum_is(e, SORT_ORDER_ENUM@, seq!["ASC"@, "DESC"@]),
{
    let mut items: Vec<String> = Vec::new();
    items.push(str_to_string("ASC"));
    items.push(str_to_string("DESC"));
    EnumDef { name: str_to_string(SORT_ORDER_ENUM), items }
}

/// The input type name of a field type that is neither a relation nor an
/// array: relations are given by id, composites as JSON.
pub open spec fn input_base(schema: Seq<char>, field: Seq<char>, ft: FieldType) -> Seq<char> {
    match ft {
        FieldType::Integer(_) => "Int"@,
        FieldType::Float(_) => "Float"@,
        FieldType::Boolean => "Boolean"@,
        FieldType::DateTime => DATETIME_SCALAR@,
        FieldType::Enum(_) => schema + "_"@ + field,
        FieldType::Json | FieldType::Composite(_) => JSON_SCALAR@,
        _ => "String"@,
    }
}

/// The input type reference of a field: a relation to one is an `ID`
/// (non-null when required), to many `[ID!]`; an array is a list of its
/// item reference (with non-null items when required); any other type is
/// its input type name, non-null when required.
pub open spec fn input_ref_spec(schema: Seq<char>, field: Seq<char>, ft: FieldType, required: bool) -> Seq<char>
    decreases ft,
{
    match ft {
        FieldType::Relation { many, .. } => if many {
            "[ID!]"@
        } else if required {
            "ID!"@
        } else {
            "ID"@
        },
        FieldType::Array(inner) => {
            let item = input_ref_spec(schema, field, *inner, false);
            if required {
                "["@ + item + "!]"@
            } else {
                "["@ + item + "]"@
            }
        },
        _ => if required {
            input_base(schema, field, ft) + "!"@
        } else {
            input_base(schema, field, ft)
        },
    }
}

fn input_base_of(schema_name: &str, field_name: &str, ft: &FieldType) -> (r: String)
    ensures
        r@ == input_base(schema_name@, field_name@, *ft),
{
    match ft {
        FieldType::Integer(_) => str_to_string("Int"),
        FieldType::Float(_) => str_to_string("Float"),
        FieldType::Boolean => str_to_string("Boolean"),
        FieldType::DateTime => str_to_string(DATETIME_SCALAR),
        FieldType::Enum(_) => {
            let mut r = concat2(schema_name, "_");
            push_str(&mut r, field_name);
            r
        },
        FieldType::Json | FieldType::Composite(_) => str_to_string(JSON_SCALAR),
        _ => str_to_string("String"),
    }
}

/// Maps a field type to its input type reference (see [`input_ref_spec`]).
pub fn input_field_type_ref(schema_name: &str, field_name: &str, ft: &FieldType, required: bool) -> (r: String)
    ensures
        r@ == input_ref_spec(schema_name@, field_name@, *ft, required),
    decreases ft,
{
    match ft {
        FieldType::Relation { many, .. } => if *many {
            str_to_string("[ID!]")
        } else if required {
            str_to_string("ID!")
        } else {
            str_to_string("ID")
        },
        FieldType::Array(inner) => {
            let item = input_field_type_ref(schema_name, field_name, inner, false);
            let mut r = concat2("[", item.as_str());
            if required {
                push_str(&mut r, "!]");
            } else {
                push_str(&mut r, "]");
            }
            r
        },
        _ => {
            let mut r = input_base_of(schema_name, field_name, ft);
            if required {
                push_str(&mut r, "!");
            }
            r
        },
    }
}

/// The fields of an input object for `schema`: one per field, in order,
/// each required exactly when `required` says so of the field.
pub open spec fn input_fields(schema: SchemaDefinition, required: bool) -> Seq<ValueSpec> {
    schema.fields@.map_values(
        |f: FieldDefinition| (f.name@, input_ref_spec(schema.name@, f.name@, f.field_type, required && f.required)),
    )
}

fn input_object(name: String, schema: &SchemaDefinition, keep_required: bool) -> (o: InputObjectDef)
    ensures
        input_object_is(o, name@, input_fields(*schema, keep_required)),
{
    let mut fields: Vec<InputValueDef> = Vec::new();
    let mut i: usize = 0;
    while i < schema.fields.len()
        invariant
            i <= schema.fields@.len(),
            fields@.len() == i,
            forall|k: int|
                0 <= k < i ==> (#[trigger] fields@[k]).name@ == input_fields(*schema, keep_required)[k].0
                    && fields@[k].type_ref@ == input_fields(*schema, keep_required)[k].1,
        decreases schema.fields@.len() - i,
    {
        let f = &schema.fields[i];
        let t = input_field_type_ref(schema.name.as_str(), f.name.as_str(), &f.field_type, keep_required && f.required);
        fields.push(InputValueDef { name: f.name.clone(), type_ref: t });
        i += 1;
    }
    InputObjectDef { name, fields }
}

/// Builds the `Create<Schema>Input` input object: one field per schema
/// field, non-null where the schema field is required.
pub fn build_create_input(schema: &SchemaDefinition) -> (o: InputObjectDef)
    ensures
        input_object_is(o, "Create"@ + schema.name@ + "Input"@, input_fields(*schema, true)),
{
    let mut name = concat2("Create", schema.name.as_str());
    push_str(&mut name, "Input");
    input_object(name, schema, true)
}

/// Builds the `Update<Schema>Input` input object: one field per schema
/// field, every one nullable.
pub fn build_update_input(schema: &SchemaDefinition) -> (o: InputObjectDef)
    ensures
        input_object_is(o, "Update"@ + schema.name@ + "Input"@, input_fields(*schema, false)),
{
    let mut name = concat2("Update", schema.name.as_str());
    push_str(&mut name, "Input");
    input_object(name, schema, false)
}

/// The filter operators of a field type.
pub open spec fn filter_ops_of(ft: FieldType) -> Seq<Seq<char>> {
    match ft {
        FieldType::Text(_) | FieldType::RichText | FieldType::Enum(_) => seq![
            "eq"@,
            "ne"@,
            "contains"@,
            "starts_with"@,
            "in"@,
        ],
        FieldType::Integer(_) | FieldType::Float(_) | FieldType::DateTime => seq![
            "eq"@,
            "ne"@,
            "gt"@,
            "gte"@,
            "lt"@,
            "lte"@,
            "in"@,
        ],
        _ => seq!["eq"@, "ne"@],
    }
}

/// Gets the filter operators supported by a field type.
pub fn filter_ops_for_type(ft: &FieldType) -> (ops: Vec<&'static str>)
    ensures
        ops@.len() == filter_ops_of(*ft).len(),
        forall|i: int| 0 <= i < ops@.len() ==> (#[trigger] ops@[i])@ == filter_ops_of(*ft)[i],
{
    match ft {
        FieldType::Text(_) | FieldType::RichText | FieldType::Enum(_) => vec!["eq", "ne", "contains", "starts_with", "in"],
        FieldType::Integer(_) | FieldType::Float(_) | FieldType::DateTime => vec!["eq", "ne", "gt", "gte", "lt", "lte", "in"],
        _ => vec!["eq", "ne"],
    }
}

/// The scalar a filter operand of a field type has.
pub open spec fn filter_scalar(schema: Seq<char>, field: Seq<char>, ft: FieldType) -> Seq<char> {
    match ft {
        FieldType::Integer(_) => "Int"@,
        FieldType::Float(_) => "Float"@,
        FieldType::Boolean => "Boolean"@,
        FieldType::DateTime => DATETIME_SCALAR@,
        FieldType::Enum(_) => schema + "_"@ + field,
        _ => "String"@,
    }
}

/// The type of an operand of `op`: a list of scalars for `in`, else one.
pub open spec fn filter_value_ref(schema: Seq<char>, field: Seq<char>, ft: FieldType, op: Seq<char>) -> Seq<char> {
    if op == "in"@ {
        "["@ + filter_scalar(schema, field, ft) + "]"@
    } else {
        filter_scalar(schema, field, ft)
    }
}

/// Gets the scalar type name for a filter value.
pub fn scalar_type_for_filter(schema_name: &str, field_name: &str, ft: &FieldType) -> (r: String)
    ensures
        r@ == filter_scalar(schema_name@, field_name@, *ft),
{
    match ft {
        FieldType::Integer(_) => str_to_string("Int"),
        FieldType::Float(_) => str_to_string("Float"),
        FieldType::Boolean => str_to_string("Boolean"),
        FieldType::DateTime => str_to_string(DATETIME_SCALAR),
        FieldType::Enum(_) => {
            let mut r = concat2(schema_name, "_");
            push_str(&mut r, field_name);
            r
        },
        _ => str_to_string("String"),
    }
}

/// Gets the type reference of a filter operand.
pub fn filter_value_type_ref(schema_name: &str, field_name: &str, ft: &FieldType, op: &str) -> (r: String)
    ensures
        r@ == filter_value_ref(schema_name@, field_name@, *ft, op@),
{
    let scalar = scalar_type_for_filter(schema_name, field_name, ft);
    if chars_eq(chars_of(op).as_slice(), chars_of("in").as_slice()) {
        let mut r = concat2("[", scalar.as_str());
        push_str(&mut r, "]");
        r
    } else {
        scalar
    }
}

/// The operator inputs of one field: `<field>_<op>` for each operator.
pub open spec fn field_filter_values(schema: Seq<char>, f: FieldDefinition) -> Seq<ValueSpec> {
    filter_ops_of(f.field_type).map_values(
        |op: Seq<char>| (f.name@ + "_"@ + op, filter_value_ref(schema, f.name@, f.field_type, op)),
    )
}

/// The operator inputs of all fields, field by field.
pub open spec fn filter_values(schema: Seq<char>, fields: Seq<FieldDefinition>) -> Seq<ValueSpec>
    decreases fields.len(),
{
    if fields.len() == 0 {
        Seq::empty()
    } else {
        filter_values(schema, fields.drop_last()) + field_filter_values(schema, fields.last())
    }
}

/// The fields of `<Schema>Filter`: the operator inputs, then the logical
/// `and`, `or` (lists of filters) and `not`.
pub open spec fn filter_input_fields(schema: SchemaDefinition) -> Seq<ValueSpec> {
    let name = schema.name@ + "Filter"@;
    filter_values(schema.name@, schema.fields@) + seq![
        ("and"@, "["@ + name + "]"@),
        ("or"@, "["@ + name + "]"@),
        ("not"@, name),
    ]
}

/// Builds the `<Schema>Filter` input object.
pub fn build_filter_input(schema: &SchemaDefinition) -> (o: InputObjectDef)
    ensures
        input_object_is(o, schema.name@ + "Filter"@, filter_input_fields(*schema)),
{
    let filter_name = concat2(schema.name.as_str(), "Filter");
    let mut fields: Vec<InputValueDef> = Vec::new();
    let mut i: usize = 0;
    while i < schema.fields.len()
        invariant
            i <= schema.fields@.len(),
            filter_name@ == schema.name@ + "Filter"@,
            crate::graphql::description::values_are(
                fields@,
                filter_values(schema.name@, schema.fields@.subrange(0, i as int)),
            ),
        decreases schema.fields@.len() - i,
    {
        let ghost pre = schema.fields@.subrange(0, i + 1);
        assert(pre.drop_last() =~= schema.fields@.subrange(0, i as int));
        let f = &schema.fields[i];
        let ops = filter_ops_for_type(&f.field_type);
        let ghost before = fields@;
        let ghost done = filter_values(schema.name@, schema.fields@.subrange(0, i as int));
        let ghost want = field_filter_values(schema.name@, *f);
        let mut k: usize = 0;
        while k < ops.len()
            invariant
                k <= ops@.len(),
                ops@.len() == filter_ops_of(f.field_type).len(),
                forall|x: int| 0 <= x < ops@.len() ==> (#[trigger] ops@[x])@ == filter_ops_of(f.field_type)[x],
                want == field_filter_values(schema.name@, *f),
                fields@.len() == done.len() + k,
                crate::graphql::description::values_are(fields@.subrange(0, done.len() as int), done),
                forall|x: int|
                    0 <= x < k ==> (#[trigger] fields@[done.len() + x]).name@ == want[x].0
                        && fields@[done.len() + x].type_ref@ == want[x].1,
            decreases ops@.len() - k,
        {
            let mut key = concat2(f.name.as_str(), "_");
            push_str(&mut key, ops[k]);
            let t = filter_value_type_ref(schema.name.as_str(), f.name.as_str(), &f.field_type, ops[k]);
            let ghost prev = fields@;
            fields.push(InputValueDef { name: key, type_ref: t });
            assert(fields@.subrange(0, done.len() as int) =~= prev.subrange(0, done.len() as int));
            k += 1;
        }
        proof {
            let now = filter_values(schema.name@, pre);
            assert(now =~= done + want);
            assert forall|x: int| 0 <= x < fields@.len() implies (#[trigger] fields@[x]).name@ == now[x].0
                && fields@[x].type_ref@ == now[x].1 by {
                if x < done.len() {
                    assert(fields@.subrange(0, done.len() as int)[x] == fields@[x]);
                } else {
                    assert(fields@[done.len() + (x - done.len())] == fields@[x]);
                }
            }
        }
        i += 1;
    }
    assert(schema.fields@.subrange(0, i as int) =~= schema.fields@);
    let mut and_ref = concat2("[", filter_name.as_str());
    push_str(&mut and_ref, "]");
    let mut or_ref = concat2("[", filter_name.as_str());
    push_str(&mut or_ref, "]");
    let ghost base = fields@;
    fields.push(input_value("and", and_ref));
    fields.push(input_value("or", or_ref));
    fields.push(input_value("not", filter_name.clone()));
    proof {
        let spec = filter_input_fields(*schema);
        let fv = filter_values(schema.name@, schema.fields@);
        assert forall|x: int| 0 <= x < fields@.len() implies (#[trigger] fields@[x]).name@ == spec[x].0
            && fields@[x].type_ref@ == spec[x].1 by {
            if x < base.len() {
                assert(fields@[x] == base[x]);
            }
        }
    }
    InputObjectDef { name: filter_name, fields }
}

/// Builds the `<Schema>SortField` enum: one item per field name.
pub fn build_sort_field_enum(schema: &SchemaDefinition) -> (e: EnumDef)
    ensures
        enum_is(e, schema.name@ + "SortField"@, schema.fields@.map_values(|f: FieldDefinition| f.name@)),
{
    let mut items: Vec<String> = Vec::new();
    let mut i: usize = 0;
    while i < schema.fields.len()
        invariant
            i <= schema.fields@.len(),
            items@.len() == i,
            forall|k: int| 0 <= k < i ==> (#[trigger] items@[k])@ == schema.fields@[k].name@,
        decreases schema.fields@.len() - i,
    {
        items.push(schema.fields[i].name.clone());
        i += 1;
    }
    EnumDef { name: concat2(schema.name.as_str(), "SortField"), items }
}

/// Builds the `<Schema>SortInput` input object: a required sort field and
/// an optional order.
pub fn build_sort_input(schema: &SchemaDefinition) -> (o: InputObjectDef)
    ensures
        input_object_is(
            o,
            schema.name@ + "SortInput"@,
            seq![("field"@, schema.name@ + "SortField"@ + "!"@), ("order"@, SORT_ORDER_ENUM@)],
        ),
{
    let mut field_ref = concat2(schema.name.as_str(), "SortField");
    push_str(&mut field_ref, "!");
    let mut fields: Vec<InputValueDef> = Vec::new();
    fields.push(input_value("field", field_ref));
    fields.push(input_value("order", str_to_string(SORT_ORDER_ENUM)));
    InputObjectDef { name: concat2(schema.name.as_str(), "SortInput"), fields }
}

/// Range filters (`gt`, `gte`, `lt`, `lte`) belong exactly to the ordered
/// types: integers, floats and timestamps, which all get the same
/// operators, `eq`, `ne`, the four ranges and `in`. Substring filters
/// (`contains`, `starts_with`) belong exactly to the text-like types (text,
/// rich text, enums); `in` to both kinds; every type has `eq` and `ne`.
pub proof fn lemma_range_filters_for_ordered_types(ft: FieldType, ci: IntegerConstraints, cf: FloatConstraints)
    ensures
        filter_ops_of(FieldType::Float(cf)) == filter_ops_of(FieldType::Integer(ci)),
        filter_ops_of(FieldType::DateTime) == filter_ops_of(FieldType::Integer(ci)),
        filter_ops_of(FieldType::Integer(ci)) == seq!["eq"@, "ne"@, "gt"@, "gte"@, "lt"@, "lte"@, "in"@],
        filter_ops_of(ft).contains("gt"@) <==> (ft is Integer || ft is Float || ft is DateTime),
        filter_ops_of(ft).contains("lte"@) <==> (ft is Integer || ft is Float || ft is DateTime),
        filter_ops_of(ft).contains("contains"@) <==> (ft is Text || ft is RichText || ft is Enum),
        filter_ops_of(ft).contains("starts_with"@) <==> (ft is Text || ft is RichText || ft is Enum),
        filter_ops_of(ft).contains("in"@) <==> (ft is Integer || ft is Float || ft is DateTime || ft is Text
            || ft is RichText || ft is Enum),
        filter_ops_of(ft).contains("eq"@),
        filter_ops_of(ft).contains("ne"@),
{
    reveal_strlit("eq");
    reveal_strlit("ne");
    reveal_strlit("gt");
    reveal_strlit("gte");
    reveal_strlit("lt");
    reveal_strlit("lte");
    reveal_strlit("in");
    reveal_strlit("contains");
    reveal_strlit("starts_with");
    let ops = filter_ops_of(ft);
    assert(ops[0] == "eq"@);
    assert(ops[1] == "ne"@);
    assert("eq"@.len() == 2 && "eq"@[0] == 'e');
    assert("ne"@.len() == 2 && "ne"@[0] == 'n');
    assert("gt"@.len() == 2 && "gt"@[0] == 'g');
    assert("gte"@.len() == 3 && "gte"@[0] == 'g');
    assert("lt"@.len() == 2 && "lt"@[0] == 'l');
    assert("lte"@.len() == 3 && "lte"@[0] == 'l');
    assert("in"@.len() == 2 && "in"@[0] == 'i');
    assert("contains"@.len() == 8 && "contains"@[0] == 'c');
    assert("starts_with"@.len() == 11 && "starts_with"@[0] == 's');
    let ordered = ft is Integer || ft is Float || ft is DateTime;
    let textual = ft is Text || ft is RichText || ft is Enum;
    if ordered {
        assert(ops[2] == "gt"@);
        assert(ops[5] == "lte"@);
        assert(ops[6] == "in"@);
    }
    if textual {
        assert(ops[2] == "contains"@);
        assert(ops[3] == "starts_with"@);
        assert(ops[4] == "in"@);
    }
    assert forall|k: int| 0 <= k < ops.len() implies ({
        &&& (ops[k] == "gt"@ || ops[k] == "lte"@) ==> ordered
        &&& (ops[k] == "contains"@ || ops[k] == "starts_with"@) ==> textual
        &&& ops[k] == "in"@ ==> (ordered || textual)
    }) by {
        assert(ops[k] == "eq"@ || ops[k] == "ne"@ || (ordered && (ops[k] == "gt"@ || ops[k] == "gte"@ || ops[k] == "lt"@ || ops[k] == "lte"@ || ops[k] == "in"@)) || (textual && (ops[k] == "contains"@ || ops[k] == "starts_with"@ || ops[k] == "in"@)));
    }
}

} // verus!
