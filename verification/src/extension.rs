//! Startup checks of the service's configuration against its schemas.
use vstd::prelude::*;

use crate::definition::{FieldDefinition, FieldType, SchemaDefinition};
use crate::error::ForgeError;
use crate::text::{contains_view, join_seq, join_strings, push_str, str_to_string, views};

verus! {

/// The undeclared backend a field refers to, as
/// `<Schema>::<field> -> bucket "<name>"`, if it is a `file` field whose
/// bucket is not among `declared`.
pub open spec fn field_missing(schema: Seq<char>, f: FieldDefinition, declared: Seq<Seq<char>>) -> Seq<Seq<char>> {
    match f.field_type {
        FieldType::File(c) => if declared.contains(c.bucket@) {
            Seq::empty()
        } else {
            seq![schema + "::"@ + f.name@ + " -> bucket \""@ + c.bucket@ + "\""@]
        },
        _ => Seq::empty(),
    }
}

/// The undeclared backends the fields of one schema refer to, in order.
pub open spec fn fields_missing(schema: Seq<char>, fields: Seq<FieldDefinition>, declared: Seq<Seq<char>>) -> Seq<
    Seq<char>,
>
    decreases fields.len(),
{
    if fields.len() == 0 {
        Seq::empty()
    } else {
        fields_missing(schema, fields.drop_last(), declared) + field_missing(schema, fields.last(), declared)
    }
}

/// The undeclared backends all schemas refer to, schema by schema.
pub open spec fn schemas_missing(schemas: Seq<SchemaDefinition>, declared: Seq<Seq<char>>) -> Seq<Seq<char>>
    decreases schemas.len(),
{
    if schemas.len() == 0 {
        Seq::empty()
    } else {
        schemas_missing(schemas.drop_last(), declared) + fields_missing(
            schemas.last().name@,
            schemas.last().fields@,
            declared,
        )
    }
}

/// Refuses to start when a `file` field of some schema stores its blobs in
/// a bucket that is not among the `declared` storage backends: the error
/// lists every such field, schema by schema, field by field.
pub fn validate_file_references(schemas: &[SchemaDefinition], declared: &[String]) -> (r: Result<(), ForgeError>)
    ensures
        ({
            let missing = schemas_missing(schemas@, views(declared@));
            &&& r is Ok <==> missing.len() == 0
            &&& r matches Err(e) ==> e matches ForgeError::Internal { message } && message@
                == "file field(s) reference undeclared storage backends: ["@ + join_seq(missing, ", "@)
                + "]. Add matching [schema_forge.storage.backends.<name>] entries."@
        }),
{
    let ghost dv = views(declared@);
    let mut missing: Vec<String> = Vec::new();
    let mut i: usize = 0;
    while i < schemas.len()
        invariant
            i <= schemas@.len(),
            dv == views(declared@),
            views(missing@) == schemas_missing(schemas@.subrange(0, i as int), dv),
        decreases schemas@.len() - i,
    {
        let ghost pre = schemas@.subrange(0, i + 1);
        assert(pre.drop_last() =~= schemas@.subrange(0, i as int));
        let s = &schemas[i];
        let ghost start = views(missing@);
        let mut j: usize = 0;
        while j < s.fields.len()
            invariant
                j <= s.fields@.len(),
                dv == views(declared@),
                views(missing@) == start + fields_missing(s.name@, s.fields@.subrange(0, j as int), dv),
            decreases s.fields@.len() - j,
        {
            let ghost fpre = s.fields@.subrange(0, j + 1);
            assert(fpre.drop_last() =~= s.fields@.subrange(0, j as int));
            let f = &s.fields[j];
            match &f.field_type {
                FieldType::File(c) => {
                    if !contains_view(declared, &c.bucket) {
                        let mut entry = s.name.clone();
                        push_str(&mut entry, "::");
                        push_str(&mut entry, f.name.as_str());
                        push_str(&mut entry, " -> bucket \"");
                        push_str(&mut entry, c.bucket.as_str());
                        push_str(&mut entry, "\"");
                        let ghost before = views(missing@);
                        missing.push(entry);
                        assert(views(missing@) =~= before.push(entry@));
                    }
                },
                _ => {},
            }
            j += 1;
            assert(views(missing@) =~= start + fields_missing(s.name@, fpre, dv));
        }
        assert(s.fields@.subrange(0, j as int) =~= s.fields@);
        i += 1;
    }
    assert(schemas@.subrange(0, i as int) =~= schemas@);
    if missing.len() == 0 {
        Ok(())
    } else {
        let mut message = str_to_string("file field(s) reference undeclared storage backends: [");
        push_str(&mut message, join_strings(missing.as_slice(), ", ").as_str());
        push_str(&mut message, "]. Add matching [schema_forge.storage.backends.<name>] entries.");
        Err(ForgeError::Internal { message })
    }
}

} // verus!
