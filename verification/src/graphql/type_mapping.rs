//! Mapping of field types to GraphQL type references.
//!
//! A type reference is given in GraphQL notation: a type name, `T!` for a
//! non-null `T`, `[T]` for a list of `T`.
use vstd::prelude::*;

use crate::definition::{FieldType, IntegerConstraints};
use crate::text::{chars_of, concat2, push_str, str_to_string, strip_end_all, strip_end_matches, string_from};

verus! {

/// Custom scalar names used in the GraphQL schema.
pub const DATETIME_SCALAR: &'static str = "DateTime";

pub const JSON_SCALAR: &'static str = "JSON";

pub const INT64_SCALAR: &'static str = "Int64";

/// Integer bounds that both exist and lie within the `i32` range.
pub open spec fn fits_i32_spec(c: IntegerConstraints) -> bool {
    &&& c.min matches Some(m) && m >= i32::MIN
    &&& c.max matches Some(m) && m <= i32::MAX
}

/// Whether integer constraints fit within the `i32` range: an unbounded
/// side never does.
pub fn fits_i32(constraints: &IntegerConstraints) -> (b: bool)
    ensures
        b == fits_i32_spec(*constraints),
{
    let min_ok = match constraints.min {
        Some(m) => m >= -2147483648i64,
        None => false,
    };
    let max_ok = match constraints.max {
        Some(m) => m <= 2147483647i64,
        None => false,
    };
    min_ok && max_ok
}

/// The name a type reference wraps once its non-null markers are removed.
pub open spec fn ref_name(t: Seq<char>) -> Seq<char> {
    strip_end_all(t, '!')
}

/// The named type of a field whose type is neither a relation nor an
/// array: enums and composites get a type of their own, named
/// `<schema>_<field>`.
pub open spec fn named_type(schema: Seq<char>, field: Seq<char>, ft: FieldType) -> Seq<char> {
    match ft {
        FieldType::Integer(c) => if fits_i32_spec(c) {
            "Int"@
        } else {
            INT64_SCALAR@
        },
        FieldType::Float(_) => "Float"@,
        FieldType::Boolean => "Boolean"@,
        FieldType::DateTime => DATETIME_SCALAR@,
        FieldType::Json => JSON_SCALAR@,
        FieldType::Enum(_) | FieldType::Composite(_) => schema + "_"@ + field,
        _ => "String"@,
    }
}

/// The type reference of a field. A relation to one entity is a nullable
/// reference to the target type and a relation to many is `[Target!]`,
/// whatever `required` says; an array is a list of its item type's name,
/// with non-null items when required; any other type is its named type,
/// non-null when required.
pub open spec fn type_ref_spec(schema: Seq<char>, field: Seq<char>, ft: FieldType, required: bool) -> Seq<char>
    decreases ft,
{
    match ft {
        FieldType::Relation { target, many } => if many {
            "["@ + target@ + "!]"@
        } else {
            target@
        },
        FieldType::Array(inner) => {
            let item = ref_name(type_ref_spec(schema, field, *inner, false));
            if required {
                "["@ + item + "!]"@
            } else {
                "["@ + item + "]"@
            }
        },
        _ => {
            let base = named_type(schema, field, ft);
            if required {
                ref_name(base) + "!"@
            } else {
                base
            }
        },
    }
}

/// The name a type reference wraps: its notation without trailing `!`.
fn type_ref_name(tr: &str) -> (r: String)
    ensures
        r@ == ref_name(tr@),
{
    let cs = chars_of(tr);
    let stripped = strip_end_matches(cs.as_slice(), '!');
    string_from(stripped.as_slice())
}

/// `[<name>!]`, or `[<name>]` when the items may be null.
fn list_of(name: &str, non_null_items: bool) -> (r: String)
    ensures
        r@ == "["@ + name@ + (if non_null_items {
            "!]"@
        } else {
            "]"@
        }),
{
    let mut r = str_to_string("[");
    push_str(&mut r, name);
    if non_null_items {
        push_str(&mut r, "!]");
    } else {
        push_str(&mut r, "]");
    }
    r
}

fn named_type_of(schema_name: &str, field_name: &str, ft: &FieldType) -> (r: String)
    ensures
        r@ == named_type(schema_name@, field_name@, *ft),
{
    match ft {
        FieldType::Integer(c) => if fits_i32(c) {
            str_to_string("Int")
        } else {
            str_to_string(INT64_SCALAR)
        },
        FieldType::Float(_) => str_to_string("Float"),
        FieldType::Boolean => str_to_string("Boolean"),
        FieldType::DateTime => str_to_string(DATETIME_SCALAR),
        FieldType::Json => str_to_string(JSON_SCALAR),
        FieldType::Enum(_) | FieldType::Composite(_) => {
            let mut r = concat2(schema_name, "_");
            push_str(&mut r, field_name);
            r
        },
        _ => str_to_string("String"),
    }
}

/// Maps a field type to its GraphQL type reference, in GraphQL notation.
///
/// `schema_name` and `field_name` name the types of enums and composites
/// (e.g. `Contact_status` for an enum on `Contact.status`).
pub fn field_type_to_type_ref(schema_name: &str, field_name: &str, ft: &FieldType, required: bool) -> (r:
    String)
    ensures
        r@ == type_ref_spec(schema_name@, field_name@, *ft, required),
    decreases ft,
{
    match ft {
        FieldType::Relation { target, many } => if *many {
            list_of(target.as_str(), true)
        } else {
            target.clone()
        },
        FieldType::Array(inner) => {
            let inner_ref = field_type_to_type_ref(schema_name, field_name, inner, false);
            let item = type_ref_name(inner_ref.as_str());
            list_of(item.as_str(), required)
        },
        _ => {
            let base = named_type_of(schema_name, field_name, ft);
            if required {
                let mut r = type_ref_name(base.as_str());
                push_str(&mut r, "!");
                r
            } else {
                base
            }
        },
    }
}

} // verus!
