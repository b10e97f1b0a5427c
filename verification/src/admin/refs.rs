//! Relation display: which entities a list's relation fields refer to,
//! and the label each referred entity is shown by.
use vstd::prelude::*;

use crate::admin::handlers::{form_get, form_lookup, form_view};
use crate::definition::{FieldDefinition, FieldType, SchemaDefinition};
use crate::form::FieldValue;
use crate::text::views;

verus! {

/// The value an entity holds under `name` (an entity's fields form a map:
/// each name once; a later pair would override an earlier one).
pub open spec fn value_lookup(e: Seq<(String, FieldValue)>, name: Seq<char>) -> Option<FieldValue>
    decreases e.len(),
{
    if e.len() == 0 {
        None
    } else if e.last().0@ == name {
        Some(e.last().1)
    } else {
        value_lookup(e.drop_last(), name)
    }
}

/// The references one entity's value of the field `name` makes into
/// `target`: its one id, or each of its ids in order.
pub open spec fn entity_refs(e: Seq<(String, FieldValue)>, name: Seq<char>, target: Seq<char>) -> Seq<(Seq<char>, Seq<char>)> {
    match value_lookup(e, name) {
        Some(FieldValue::Ref(id)) => seq![(target, id@)],
        Some(FieldValue::RefArray(ids)) => views(ids@).map_values(|x: Seq<char>| (target, x)),
        _ => Seq::empty(),
    }
}

/// The references the field `name` makes into `target` across `es`, entity
/// by entity.
pub open spec fn field_refs(es: Seq<Vec<(String, FieldValue)>>, name: Seq<char>, target: Seq<char>) -> Seq<(Seq<char>, Seq<char>)>
    decreases es.len(),
{
    if es.len() == 0 {
        Seq::empty()
    } else {
        field_refs(es.drop_last(), name, target) + entity_refs(es.last()@, name, target)
    }
}

/// Every (target schema, entity id) reference the relation fields of
/// `fields` make across `es`: field by field, then entity by entity.
pub open spec fn ref_pairs(fields: Seq<FieldDefinition>, es: Seq<Vec<(String, FieldValue)>>) -> Seq<(Seq<char>, Seq<char>)>
    decreases fields.len(),
{
    if fields.len() == 0 {
        Seq::empty()
    } else {
        let rest = ref_pairs(fields.drop_last(), es);
        match fields.last().field_type {
            FieldType::Relation { target, .. } => rest + field_refs(es, fields.last().name@, target@),
            _ => rest,
        }
    }
}

/// The value of `name` in one entity's fields, as `value_lookup` states it.
fn entity_value<'a>(e: &'a [(String, FieldValue)], name: &String) -> (r: Option<&'a FieldValue>)
    ensures
        match r {
            Some(v) => value_lookup(e@, name@) == Some(*v),
            None => value_lookup(e@, name@) is None,
        },
{
    let mut i: usize = e.len();
    assert(e@.subrange(0, i as int) =~= e@);
    while i > 0
        invariant
            i <= e@.len(),
            value_lookup(e@, name@) == value_lookup(e@.subrange(0, i as int), name@),
        decreases i,
    {
        let ghost t = e@.subrange(0, i as int);
        assert(t.drop_last() =~= e@.subrange(0, i - 1));
        if e[i - 1].0 == *name {
            return Some(&e[i - 1].1);
        }
        i -= 1;
    }
    None
}

/// The references the relation fields of `schema` make across `entities`,
/// as (target schema name, entity id) pairs: field by field in schema
/// order, then entity by entity, a to-many value giving each of its ids in
/// order. An id may occur more than once.
pub fn ref_targets(schema: &SchemaDefinition, entities: &[Vec<(String, FieldValue)>]) -> (r: Vec<(String, String)>)
    ensures
        form_view(r@) == ref_pairs(schema.fields@, entities@),
{
    let ghost fields = schema.fields@;
    let mut out: Vec<(String, String)> = Vec::new();
    let mut i: usize = 0;
    assert(fields.subrange(0, 0) =~= Seq::<FieldDefinition>::empty());
    while i < schema.fields.len()
        invariant
            i <= fields.len(),
            fields == schema.fields@,
            form_view(out@) == ref_pairs(fields.subrange(0, i as int), entities@),
        decreases fields.len() - i,
    {
        let ghost pre = fields.subrange(0, i as int);
        let ghost next = fields.subrange(0, i + 1);
        assert(next.drop_last() =~= pre);
        let f = &schema.fields[i];
        if let FieldType::Relation { target, .. } = &f.field_type {
            let ghost base = form_view(out@);
            let mut j: usize = 0;
            assert(entities@.subrange(0, 0) =~= Seq::<Vec<(String, FieldValue)>>::empty());
            while j < entities.len()
                invariant
                    j <= entities@.len(),
                    form_view(out@) == base + field_refs(entities@.subrange(0, j as int), f.name@, target@),
                decreases entities@.len() - j,
            {
                let ghost es_pre = entities@.subrange(0, j as int);
                let ghost es_next = entities@.subrange(0, j + 1);
                assert(es_next.drop_last() =~= es_pre);
                let ghost before = form_view(out@);
                match entity_value(entities[j].as_slice(), &f.name) {
                    Some(FieldValue::Ref(id)) => {
                        out.push((target.clone(), id.clone()));
                        assert(form_view(out@) =~= before + entity_refs(entities@[j as int]@, f.name@, target@));
                    },
                    Some(FieldValue::RefArray(ids)) => {
                        let mut k: usize = 0;
                        while k < ids.len()
                            invariant
                                k <= ids@.len(),
                                form_view(out@) == before + views(ids@.subrange(0, k as int)).map_values(
                                    |x: Seq<char>| (target@, x),
                                ),
                            decreases ids@.len() - k,
                        {
                            let ghost cur = form_view(out@);
                            out.push((target.clone(), ids[k].clone()));
                            assert(views(ids@.subrange(0, k + 1)).map_values(|x: Seq<char>| (target@, x)) =~= views(
                                ids@.subrange(0, k as int),
                            ).map_values(|x: Seq<char>| (target@, x)).push((target@, ids@[k as int]@)));
                            assert(form_view(out@) =~= cur.push((target@, ids@[k as int]@)));
                            k += 1;
                        }
                        assert(ids@.subrange(0, k as int) =~= ids@);
                        assert(form_view(out@) =~= before + entity_refs(entities@[j as int]@, f.name@, target@));
                    },
                    _ => {
                        assert(form_view(out@) =~= before + entity_refs(entities@[j as int]@, f.name@, target@));
                    },
                }
                assert(field_refs(es_next, f.name@, target@) == field_refs(es_pre, f.name@, target@) + entity_refs(
                    entities@[j as int]@,
                    f.name@,
                    target@,
                ));
                assert(form_view(out@) =~= base + field_refs(es_next, f.name@, target@));
                j += 1;
            }
            assert(entities@.subrange(0, j as int) =~= entities@);
        }
        i += 1;
    }
    assert(fields.subrange(0, i as int) =~= fields);
    out
}

/// The first text field of `fields` that `values` holds a value for.
pub open spec fn first_text_value(fields: Seq<FieldDefinition>, values: Seq<(Seq<char>, Seq<char>)>) -> Option<Seq<char>>
    decreases fields.len(),
{
    if fields.len() == 0 {
        None
    } else if fields[0].field_type is Text && form_lookup(values, fields[0].name@) is Some {
        form_lookup(values, fields[0].name@)
    } else {
        first_text_value(fields.drop_first(), values)
    }
}

/// The label a referred entity is shown by: the value of the target
/// schema's display field, or else of its first text field that has one,
/// or else the entity's id.
pub open spec fn ref_label_spec(target: SchemaDefinition, values: Seq<(Seq<char>, Seq<char>)>, id: Seq<char>) -> Seq<char> {
    let found = match target.display_field {
        Some(df) => form_lookup(values, df@),
        None => first_text_value(target.fields@, values),
    };
    match found {
        Some(v) => v,
        None => id,
    }
}

/// The label of the entity `id` of the schema `target`, from `values`: the
/// entity's field values by field name, each as its display text.
pub fn ref_label(target: &SchemaDefinition, values: &[(String, String)], id: &str) -> (r: String)
    ensures
        r@ == ref_label_spec(*target, form_view(values@), id@),
{
    let found: Option<&String> = match &target.display_field {
        Some(df) => form_get(values, df),
        None => {
            let mut k: usize = 0;
            let mut hit: Option<&String> = None;
            let ghost fv = form_view(values@);
            let ghost fields = target.fields@;
            assert(fields.subrange(0, fields.len() as int) =~= fields);
            while k < target.fields.len()
                invariant
                    k <= fields.len(),
                    fields == target.fields@,
                    fv == form_view(values@),
                    match hit {
                        None => first_text_value(fields, fv) == first_text_value(
                            fields.subrange(k as int, fields.len() as int),
                            fv,
                        ),
                        Some(v) => first_text_value(fields, fv) == Some(v@),
                    },
                decreases fields.len() - k,
            {
                let ghost t = fields.subrange(k as int, fields.len() as int);
                assert(t.drop_first() =~= fields.subrange(k + 1, fields.len() as int));
                assert(t[0] == fields[k as int]);
                if hit.is_none() {
                    if let FieldType::Text(_) = &target.fields[k].field_type {
                        let v = form_get(values, &target.fields[k].name);
                        if v.is_some() {
                            hit = v;
                        }
                    }
                }
                k += 1;
            }
            hit
        },
    };
    proof {
        if target.display_field is None && found is None {
            assert(target.fields@.subrange(target.fields@.len() as int, target.fields@.len() as int) =~= Seq::<
                FieldDefinition,
            >::empty());
        }
    }
    match found {
        Some(v) => v.clone(),
        None => crate::text::str_to_string(id),
    }
}

} // verus!
