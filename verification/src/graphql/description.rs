//! A description of a GraphQL schema as plain values: the types, fields
//! and arguments the service registers, each type reference in GraphQL
//! notation. The server builds its executable schema from it, attaching a
//! resolver to each field.
use vstd::prelude::*;

verus! {

/// An argument of a field, or a field of an input object: its name and
/// type reference.
#[derive(Debug)]
pub struct InputValueDef {
    pub name: String,
    pub type_ref: String,
}

/// A field of an object type: its name, type reference and arguments.
#[derive(Debug)]
pub struct FieldDef {
    pub name: String,
    pub type_ref: String,
    pub args: Vec<InputValueDef>,
}

/// An object type.
#[derive(Debug)]
pub struct ObjectDef {
    pub name: String,
    pub fields: Vec<FieldDef>,
}

/// An input object type.
#[derive(Debug)]
pub struct InputObjectDef {
    pub name: String,
    pub fields: Vec<InputValueDef>,
}

/// An enum type and its items.
#[derive(Debug)]
pub struct EnumDef {
    pub name: String,
    pub items: Vec<String>,
}

/// A custom scalar type.
#[derive(Debug)]
pub struct ScalarDef {
    pub name: String,
    pub description: String,
}

/// An input value as (name, type reference).
pub type ValueSpec = (Seq<char>, Seq<char>);

/// A field as (name, type reference, arguments).
pub type FieldSpec = (Seq<char>, Seq<char>, Seq<ValueSpec>);

/// `vs` are the input values `spec`, in order.
pub open spec fn values_are(vs: Seq<InputValueDef>, spec: Seq<ValueSpec>) -> bool {
    &&& vs.len() == spec.len()
    &&& forall|i: int|
        0 <= i < vs.len() ==> (#[trigger] vs[i]).name@ == spec[i].0 && vs[i].type_ref@ == spec[i].1
}

/// `fs` are the fields `spec`, in order.
pub open spec fn fields_are(fs: Seq<FieldDef>, spec: Seq<FieldSpec>) -> bool {
    &&& fs.len() == spec.len()
    &&& forall|i: int|
        0 <= i < fs.len() ==> {
            &&& (#[trigger] fs[i]).name@ == spec[i].0
            &&& fs[i].type_ref@ == spec[i].1
            &&& values_are(fs[i].args@, spec[i].2)
        }
}

/// `o` is the object type `name` with fields `spec`.
pub open spec fn object_is(o: ObjectDef, name: Seq<char>, spec: Seq<FieldSpec>) -> bool {
    o.name@ == name && fields_are(o.fields@, spec)
}

/// `o` is the input object type `name` with fields `spec`.
pub open spec fn input_object_is(o: InputObjectDef, name: Seq<char>, spec: Seq<ValueSpec>) -> bool {
    o.name@ == name && values_are(o.fields@, spec)
}

/// `e` is the enum type `name` with items `items`.
pub open spec fn enum_is(e: EnumDef, name: Seq<char>, items: Seq<Seq<char>>) -> bool {
    &&& e.name@ == name
    &&& e.items@.len() == items.len()
    &&& forall|i: int| 0 <= i < items.len() ==> (#[trigger] e.items@[i])@ == items[i]
}

/// A new input value.
pub fn input_value(name: &str, type_ref: String) -> (v: InputValueDef)
    ensures
        v.name@ == name@,
        v.type_ref@ == type_ref@,
{
    InputValueDef { name: String::from_str(name), type_ref }
}

/// Field lists that match two specs match their concatenation.
pub proof fn lemma_fields_concat(a: Seq<FieldDef>, b: Seq<FieldDef>, sa: Seq<FieldSpec>, sb: Seq<FieldSpec>)
    requires
        fields_are(a, sa),
        fields_are(b, sb),
    ensures
        fields_are(a + b, sa + sb),
{
    assert forall|i: int| 0 <= i < (a + b).len() implies {
        &&& (#[trigger] (a + b)[i]).name@ == (sa + sb)[i].0
        &&& (a + b)[i].type_ref@ == (sa + sb)[i].1
        &&& values_are((a + b)[i].args@, (sa + sb)[i].2)
    } by {
        if i < a.len() {
            assert((a + b)[i] == a[i]);
            assert((sa + sb)[i] == sa[i]);
        } else {
            assert((a + b)[i] == b[i - a.len()]);
            assert((sa + sb)[i] == sb[i - sa.len()]);
        }
    }
}

/// A field with its name, type reference and arguments.
pub fn field_def(name: String, type_ref: String, args: Vec<InputValueDef>) -> (f: FieldDef)
    ensures
        f.name@ == name@,
        f.type_ref@ == type_ref@,
        f.args@ == args@,
{
    FieldDef { name, type_ref, args }
}

} // verus!
