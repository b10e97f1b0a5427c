//! Request parameters of the admin handlers, and the reconstruction of the
//! schema editor from submitted form data.
use vstd::prelude::*;
use vstd::string::*;

use crate::admin::views::{opt_view, FieldEditorRow, SchemaEditorView};
use crate::decimal::{decimal, lemma_decimal_round_trip, parse_i64, parse_signed, parse_u32, parse_unsigned, parse_usize, usize_to_decimal};
use crate::text::{chars_of, ends_with, has_prefix, has_suffix, push_str, starts_with, str_to_string};

verus! {

/// Query params for entity list pagination.
#[derive(Debug, Default)]
pub struct PaginationParams {
    pub limit: Option<usize>,
    pub offset: Option<usize>,
}

/// Query params for type constraints fragment.
#[derive(Debug, Default)]
pub struct TypeConstraintParams {
    pub index: Option<usize>,
}

/// Submitted form pairs as views.
pub open spec fn form_view(form: Seq<(String, String)>) -> Seq<(Seq<char>, Seq<char>)> {
    form.map_values(|p: (String, String)| (p.0@, p.1@))
}

/// The value a key has in submitted form data: later pairs override
/// earlier ones, as when the pairs are collected into a map.
pub open spec fn form_lookup(form: Seq<(Seq<char>, Seq<char>)>, key: Seq<char>) -> Option<Seq<char>>
    decreases form.len(),
{
    if form.len() == 0 {
        None
    } else if form.last().0 == key {
        Some(form.last().1)
    } else {
        form_lookup(form.drop_last(), key)
    }
}

/// The looked-up value, or `default` when the key is absent.
pub open spec fn lookup_or(form: Seq<(Seq<char>, Seq<char>)>, key: Seq<char>, default: Seq<char>) -> Seq<char> {
    match form_lookup(form, key) {
        Some(v) => v,
        None => default,
    }
}

/// A checkbox value: present and `"true"` or `"on"`.
pub open spec fn checked_flag(form: Seq<(Seq<char>, Seq<char>)>, key: Seq<char>) -> bool {
    match form_lookup(form, key) {
        Some(v) => v == "true"@ || v == "on"@,
        None => false,
    }
}

/// The looked-up value read as an unsigned integer no larger than `max`.
pub open spec fn lookup_unsigned(form: Seq<(Seq<char>, Seq<char>)>, key: Seq<char>, max: int) -> Option<int> {
    match form_lookup(form, key) {
        Some(v) => parse_unsigned(v, max),
        None => None,
    }
}

/// The looked-up value read as an `i64`.
pub open spec fn lookup_i64(form: Seq<(Seq<char>, Seq<char>)>, key: Seq<char>) -> Option<int> {
    match form_lookup(form, key) {
        Some(v) => parse_signed(v, i64::MIN as int, i64::MAX as int),
        None => None,
    }
}

/// The field index a key `field_<N>_name` names, when `<N>` reads as a `usize`.
pub open spec fn name_key_index(key: Seq<char>) -> Option<int> {
    if key.len() >= 11 && has_prefix(key, "field_"@) && has_suffix(key, "_name"@) {
        parse_unsigned(key.subrange(6, key.len() - 5), usize::MAX as int)
    } else {
        None
    }
}

/// Some submitted key names field index `i`.
pub open spec fn is_field_index(form: Seq<(Seq<char>, Seq<char>)>, i: int) -> bool {
    exists|j: int| 0 <= j < form.len() && name_key_index(#[trigger] form[j].0) == Some(i)
}

/// The form key of attribute `suffix` of field `idx`: `field_<idx>_<suffix>`.
pub open spec fn row_key(idx: nat, suffix: Seq<char>) -> Seq<char> {
    "field_"@ + decimal(idx) + "_"@ + suffix
}

/// Optional integers as mathematical integers.
pub open spec fn int_of_u32(o: Option<u32>) -> Option<int> {
    match o {
        Some(v) => Some(v as int),
        None => None,
    }
}

pub open spec fn int_of_i64(o: Option<i64>) -> Option<int> {
    match o {
        Some(v) => Some(v as int),
        None => None,
    }
}

/// The editor row that the form data describes for field `idx`.
pub open spec fn row_from_form(row: FieldEditorRow, form: Seq<(Seq<char>, Seq<char>)>, idx: nat) -> bool {
    &&& row.index == idx
    &&& row.name@ == lookup_or(form, row_key(idx, "name"@), Seq::empty())
    &&& opt_view(row.old_name) == form_lookup(form, row_key(idx, "old_name"@))
    &&& row.field_type@ == lookup_or(form, row_key(idx, "type"@), "text"@)
    &&& row.required == checked_flag(form, row_key(idx, "required"@))
    &&& row.indexed == checked_flag(form, row_key(idx, "indexed"@))
    &&& !row.default_enabled
    &&& row.default_value@ == Seq::<char>::empty()
    &&& int_of_u32(row.text_max_length) == lookup_unsigned(
        form,
        row_key(idx, "text_max_length"@),
        u32::MAX as int,
    )
    &&& int_of_i64(row.integer_min) == lookup_i64(form, row_key(idx, "integer_min"@))
    &&& int_of_i64(row.integer_max) == lookup_i64(form, row_key(idx, "integer_max"@))
    &&& int_of_u32(row.float_precision) == lookup_unsigned(
        form,
        row_key(idx, "float_precision"@),
        u32::MAX as int,
    )
    &&& row.enum_variants@ == lookup_or(form, row_key(idx, "enum_variants"@), Seq::empty())
    &&& row.relation_target@ == lookup_or(form, row_key(idx, "relation_target"@), Seq::empty())
    &&& row.relation_cardinality@ == lookup_or(
        form,
        row_key(idx, "relation_cardinality"@),
        "one"@,
    )
}

/// The value of `key` in `form`, as `form_lookup` states it.
pub(crate) fn form_get<'a>(form: &'a [(String, String)], key: &String) -> (r: Option<&'a String>)
    ensures
        opt_view(
            match r {
                Some(v) => Some(*v),
                None => None,
            },
        ) == form_lookup(form_view(form@), key@),
{
    let ghost fv = form_view(form@);
    let mut i: usize = form.len();
    assert(fv.subrange(0, i as int) =~= fv);
    while i > 0
        invariant
            i <= form@.len(),
            fv == form_view(form@),
            form_lookup(fv, key@) == form_lookup(fv.subrange(0, i as int), key@),
        decreases i,
    {
        let ghost t = fv.subrange(0, i as int);
        assert(t.drop_last() =~= fv.subrange(0, i - 1));
        assert(t.last() == (form@[i - 1].0@, form@[i - 1].1@));
        if form[i - 1].0 == *key {
            return Some(&form[i - 1].1);
        }
        i -= 1;
    }
    assert(fv.subrange(0, 0) =~= Seq::<(Seq<char>, Seq<char>)>::empty());
    None
}

/// The looked-up value, or `default`.
pub(crate) fn get_or(form: &[(String, String)], key: &String, default: &str) -> (r: String)
    ensures
        r@ == lookup_or(form_view(form@), key@, default@),
{
    match form_get(form, key) {
        Some(v) => v.clone(),
        None => str_to_string(default),
    }
}

/// Whether the looked-up value is `"true"` or `"on"`.
pub(crate) fn get_flag(form: &[(String, String)], key: &String) -> (r: bool)
    ensures
        r == checked_flag(form_view(form@), key@),
{
    proof {
        reveal_strlit("true");
        reveal_strlit("on");
    }
    match form_get(form, key) {
        Some(v) => {
            let t = str_to_string("true");
            let o = str_to_string("on");
            *v == t || *v == o
        },
        None => false,
    }
}

/// `field_<idx>_<suffix>`.
pub(crate) fn field_key(idx_text: &String, suffix: &str) -> (r: String)
    ensures
        r@ == "field_"@ + idx_text@ + "_"@ + suffix@,
{
    let mut r = str_to_string("field_");
    push_str(&mut r, idx_text.as_str());
    push_str(&mut r, "_");
    push_str(&mut r, suffix);
    r
}

/// The field index named by `key`, if it has the form `field_<N>_name`.
fn key_field_index(key: &String) -> (r: Option<usize>)
    ensures
        match r {
            Some(v) => name_key_index(key@) == Some(v as int),
            None => name_key_index(key@) is None,
        },
{
    proof {
        reveal_strlit("field_");
        reveal_strlit("_name");
    }
    let k = chars_of(key.as_str());
    let p = chars_of("field_");
    let s = chars_of("_name");
    if k.len() < 11 || !starts_with(&k, &p) || !ends_with(&k, &s) {
        return None;
    }
    let middle = key.as_str().substring_char(6, k.len() - 5);
    parse_usize(middle)
}

/// `idx` with `v` inserted in order, unless it is there already.
#[verifier::spinoff_prover]
fn insert_sorted(idx: Vec<usize>, v: usize) -> (r: Vec<usize>)
    requires
        forall|a: int, b: int| 0 <= a < b < idx@.len() ==> idx@[a] < idx@[b],
    ensures
        forall|a: int, b: int| 0 <= a < b < r@.len() ==> r@[a] < r@[b],
        forall|x: usize| r@.contains(x) <==> (idx@.contains(x) || x == v),
{
    let mut i: usize = 0;
    while i < idx.len() && idx[i] < v
        invariant
            i <= idx@.len(),
            forall|a: int| 0 <= a < i ==> idx@[a] < v,
        decreases idx@.len() - i,
    {
        i += 1;
    }
    if i < idx.len() && idx[i] == v {
        assert forall|x: usize| idx@.contains(x) <==> (idx@.contains(x) || x == v) by {
            if x == v {
                assert(idx@[i as int] == x);
            }
        }
        idx
    } else {
        let ghost before = idx@;
        let mut r = idx;
        r.insert(i, v);
        proof {
            assert(r@ == before.insert(i as int, v));
            assert forall|x: usize| r@.contains(x) <==> (before.contains(x) || x == v) by {
                if r@.contains(x) {
                    let j = choose|j: int| 0 <= j < r@.len() && r@[j] == x;
                    if j < i {
                        assert(before[j] == x);
                    } else if j > i {
                        assert(before[j - 1] == x);
                    }
                }
                if before.contains(x) {
                    let j = choose|j: int| 0 <= j < before.len() && before[j] == x;
                    if j < i {
                        assert(r@[j] == x);
                    } else {
                        assert(r@[j + 1] == x);
                    }
                }
                if x == v {
                    assert(r@[i as int] == v);
                }
            }
            assert forall|a: int, b: int| 0 <= a < b < r@.len() implies r@[a] < r@[b] by {
                if b < i {
                    assert(r@[a] == before[a] && r@[b] == before[b]);
                } else if b == i {
                    assert(r@[a] == before[a]);
                } else if a < i {
                    assert(r@[a] == before[a] && r@[b] == before[b - 1]);
                    assert(before[i as int] <= before[b - 1]);
                } else if a == i {
                    assert(r@[b] == before[b - 1]);
                    assert(before[i as int] <= before[b - 1]);
                } else {
                    assert(r@[a] == before[a - 1] && r@[b] == before[b - 1]);
                }
            }
        }
        r
    }
}

/// The distinct field indices named by `field_<N>_name` keys, ascending.
pub(crate) fn form_field_indices(form: &[(String, String)]) -> (r: Vec<usize>)
    ensures
        forall|a: int, b: int| 0 <= a < b < r@.len() ==> r@[a] < r@[b],
        forall|x: usize| r@.contains(x) <==> is_field_index(form_view(form@), x as int),
{
    let ghost fv = form_view(form@);
    let mut idx: Vec<usize> = Vec::new();
    let mut i: usize = 0;
    while i < form.len()
        invariant
            i <= form@.len(),
            fv == form_view(form@),
            forall|a: int, b: int| 0 <= a < b < idx@.len() ==> idx@[a] < idx@[b],
            forall|x: usize|
                idx@.contains(x) <==> exists|j: int|
                    0 <= j < i && name_key_index(#[trigger] fv[j].0) == Some(x as int),
        decreases form@.len() - i,
    {
        assert(fv[i as int].0 == form@[i as int].0@);
        match key_field_index(&form[i].0) {
            Some(v) => {
                let ghost before = idx@;
                idx = insert_sorted(idx, v);
                proof {
                    assert forall|x: usize|
                        idx@.contains(x) <==> exists|j: int|
                            0 <= j < i + 1 && name_key_index(#[trigger] fv[j].0) == Some(
                                x as int,
                            ) by {
                        if x == v {
                            assert(name_key_index(fv[i as int].0) == Some(x as int));
                        }
                        if exists|j: int|
                            0 <= j < i + 1 && name_key_index(#[trigger] fv[j].0) == Some(
                                x as int,
                            ) {
                            let j = choose|j: int|
                                0 <= j < i + 1 && name_key_index(#[trigger] fv[j].0) == Some(
                                    x as int,
                                );
                            if j < i {
                                assert(before.contains(x));
                            }
                        }
                    }
                }
            },
            None => {
                proof {
                    assert forall|x: usize|
                        idx@.contains(x) <==> exists|j: int|
                            0 <= j < i + 1 && name_key_index(#[trigger] fv[j].0) == Some(
                                x as int,
                            ) by {
                        if exists|j: int|
                            0 <= j < i + 1 && name_key_index(#[trigger] fv[j].0) == Some(
                                x as int,
                            ) {
                            let j = choose|j: int|
                                0 <= j < i + 1 && name_key_index(#[trigger] fv[j].0) == Some(
                                    x as int,
                                );
                            assert(j < i);
                        }
                    }
                }
            },
        }
        i += 1;
    }
    proof {
        assert forall|x: usize| idx@.contains(x) <==> is_field_index(fv, x as int) by {
            if is_field_index(fv, x as int) {
                let j = choose|j: int| 0 <= j < fv.len() && name_key_index(#[trigger] fv[j].0) == Some(x as int);
                assert(0 <= j < i);
            }
        }
    }
    idx
}

/// The editor row that the form data describes for field `idx`.
fn row_from_form_data(form: &[(String, String)], idx: usize) -> (row: FieldEditorRow)
    ensures
        row_from_form(row, form_view(form@), idx as nat),
{
    let n = usize_to_decimal(idx);
    let name = get_or(form, &field_key(&n, "name"), "");
    let old_name = match form_get(form, &field_key(&n, "old_name")) {
        Some(v) => Some(v.clone()),
        None => None,
    };
    let field_type = get_or(form, &field_key(&n, "type"), "text");
    let required = get_flag(form, &field_key(&n, "required"));
    let indexed = get_flag(form, &field_key(&n, "indexed"));
    let text_max_length = match form_get(form, &field_key(&n, "text_max_length")) {
        Some(v) => parse_u32(v.as_str()),
        None => None,
    };
    let integer_min = match form_get(form, &field_key(&n, "integer_min")) {
        Some(v) => parse_i64(v.as_str()),
        None => None,
    };
    let integer_max = match form_get(form, &field_key(&n, "integer_max")) {
        Some(v) => parse_i64(v.as_str()),
        None => None,
    };
    let float_precision = match form_get(form, &field_key(&n, "float_precision")) {
        Some(v) => parse_u32(v.as_str()),
        None => None,
    };
    let enum_variants = get_or(form, &field_key(&n, "enum_variants"), "");
    let relation_target = get_or(form, &field_key(&n, "relation_target"), "");
    let relation_cardinality = get_or(form, &field_key(&n, "relation_cardinality"), "one");
    proof {
        reveal_strlit("");
        assert(""@ =~= Seq::<char>::empty());
    }
    FieldEditorRow {
        index: idx,
        name,
        old_name,
        field_type,
        required,
        indexed,
        default_enabled: false,
        default_value: String::new(),
        text_max_length,
        integer_min,
        integer_max,
        float_precision,
        enum_variants,
        relation_target,
        relation_cardinality,
    }
}

/// Reconstructs the schema editor from submitted form data, for
/// re-rendering after an error: the schema-level inputs, then one row per
/// field index named by a `field_<N>_name` key, in ascending index order.
pub fn editor_from_form_data(form_data: &[(String, String)], is_edit: bool) -> (v: SchemaEditorView)
    ensures
        ({
            let fv = form_view(form_data@);
            &&& v.schema_name@ == lookup_or(fv, "schema_name"@, Seq::empty())
            &&& v.version@ == lookup_or(fv, "version"@, Seq::empty())
            &&& v.display_field@ == lookup_or(fv, "display_field"@, Seq::empty())
            &&& forall|a: int, b: int|
                0 <= a < b < v.fields@.len() ==> v.fields@[a].index < v.fields@[b].index
            &&& forall|x: usize|
                (exists|i: int| 0 <= i < v.fields@.len() && (#[trigger] v.fields@[i]).index == x)
                    <==> is_field_index(fv, x as int)
            &&& forall|i: int|
                0 <= i < v.fields@.len() ==> row_from_form(
                    #[trigger] v.fields@[i],
                    fv,
                    v.fields@[i].index as nat,
                )
            &&& v.is_edit == is_edit
            &&& opt_view(v.existing_name) == (if is_edit {
                Some(v.schema_name@)
            } else {
                None
            })
        }),
{
    proof {
        reveal_strlit("");
        assert(""@ =~= Seq::<char>::empty());
    }
    let schema_name = get_or(form_data, &str_to_string("schema_name"), "");
    let version = get_or(form_data, &str_to_string("version"), "");
    let display_field = get_or(form_data, &str_to_string("display_field"), "");
    let indices = form_field_indices(form_data);
    let mut fields: Vec<FieldEditorRow> = Vec::new();
    let mut i: usize = 0;
    while i < indices.len()
        invariant
            i <= indices@.len(),
            fields@.len() == i,
            forall|j: int| 0 <= j < i ==> (#[trigger] fields@[j]).index == indices@[j],
            forall|j: int|
                0 <= j < i ==> row_from_form(
                    #[trigger] fields@[j],
                    form_view(form_data@),
                    fields@[j].index as nat,
                ),
        decreases indices@.len() - i,
    {
        let row = row_from_form_data(form_data, indices[i]);
        fields.push(row);
        i += 1;
    }
    proof {
        assert forall|x: usize|
            (exists|i: int| 0 <= i < fields@.len() && (#[trigger] fields@[i]).index == x)
                <==> is_field_index(form_view(form_data@), x as int) by {
            if exists|i: int| 0 <= i < fields@.len() && (#[trigger] fields@[i]).index == x {
                let k = choose|i: int| 0 <= i < fields@.len() && (#[trigger] fields@[i]).index == x;
                assert(indices@[k] == x);
                assert(indices@.contains(x));
            }
            if is_field_index(form_view(form_data@), x as int) {
                assert(indices@.contains(x));
                let k = choose|k: int| 0 <= k < indices@.len() && indices@[k] == x;
                assert(fields@[k].index == x);
            }
        }
    }
    let existing_name = if is_edit {
        Some(schema_name.clone())
    } else {
        None
    };
    SchemaEditorView { schema_name, version, display_field, fields, is_edit, existing_name }
}

/// The name key of every field row names that row's index: the keys the
/// editor writes for field `idx` are read back as field `idx`.
pub proof fn lemma_row_name_key_round_trip(idx: nat)
    requires
        idx <= usize::MAX,
    ensures
        name_key_index(row_key(idx, "name"@)) == Some(idx as int),
{
    reveal_strlit("field_");
    reveal_strlit("_");
    reveal_strlit("name");
    reveal_strlit("_name");
    let k = row_key(idx, "name"@);
    let d = decimal(idx);
    lemma_decimal_round_trip(idx, usize::MAX as int);
    assert(k =~= "field_"@ + d + "_name"@);
    assert(k.subrange(0, 6) =~= "field_"@);
    assert(k.subrange(k.len() - 5, k.len() as int) =~= "_name"@);
    assert(k.subrange(6, k.len() - 5) =~= d);
}

} // verus!
