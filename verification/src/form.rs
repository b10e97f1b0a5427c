//! Reading a submitted entity form back into field values, by the schema's
//! field types.
//!
//! HTML forms submit every value as text. Integers, booleans, datetimes
//! (as UTC instants), enum values and entity references are read here; a
//! JSON value is checked here and carried as its accepted text (its numbers
//! may be floating-point, which this crate does not hold), the document
//! being built from it by whoever stores it. Two verdicts come in as
//! arguments: which number texts do not read as floating-point numbers
//! (this crate holds no floating point), and which entity ids the id rules
//! of the schema-definition types refuse.
use vstd::prelude::*;
use vstd::string::*;

use crate::admin::handlers::{form_get, form_lookup, form_view};
use crate::admin::views::opt_view;
use crate::decimal::{parse_i64, parse_signed};
use crate::definition::{FieldDefinition, FieldType, SchemaDefinition};
use crate::order::{insert_name, lemma_sorted_insert_props, sorted_insert, strictly_sorted};
use crate::text::{chars_of, contains_view, has_prefix, push_str, starts_with, str_to_string, views};

verus! {

/// A field value read from a form.
#[derive(Debug)]
pub enum FieldValue {
    Text(String),
    Integer(i64),
    /// The text of a number that reads as a floating-point number.
    Float(String),
    Boolean(bool),
    /// A datetime, as a UTC instant: seconds since the Unix epoch and the
    /// nanoseconds past them.
    DateTime { seconds: i64, nanos: u32 },
    Enum(String),
    /// The text of a well-formed JSON document.
    Json(String),
    /// The id of the one entity a relation refers to.
    Ref(String),
    /// The ids of the entities a to-many relation refers to.
    RefArray(Vec<String>),
    /// The sub-fields of a composite field, by sub-field name.
    Composite(Vec<(String, FieldValue)>),
}

// ---------------------------------------------------------------------------
// The checks that belong to outside crates
// ---------------------------------------------------------------------------

/// Names the instant chrono reads from `s` as an RFC 3339 `DateTime<Utc>`
/// (seconds since the Unix epoch, nanoseconds past them), if it reads one.
pub uninterp spec fn rfc3339_instant(s: Seq<char>) -> Option<(i64, u32)>;

/// Names the instant chrono's `NaiveDateTime::parse_from_str` reads from
/// `s` in `format`, taken as UTC, if it reads one.
pub uninterp spec fn naive_utc_instant(s: Seq<char>, format: Seq<char>) -> Option<(i64, u32)>;

/// Names what `serde_json::from_str::<serde_json::Value>` makes of `s`:
/// success, or the display text of its error.
pub uninterp spec fn json_outcome(s: Seq<char>) -> Result<(), Seq<char>>;

/// chrono `str::parse::<DateTime<Utc>>`: the instant read, as
/// `timestamp` and `timestamp_subsec_nanos` give it, or nothing.
#[verifier::external_body]
fn rfc3339_parse(s: &str) -> (r: Option<(i64, u32)>)
    ensures
        r == rfc3339_instant(s@),
{
    match s.parse::<chrono::DateTime<chrono::Utc>>() {
        Ok(dt) => Some((dt.timestamp(), dt.timestamp_subsec_nanos())),
        Err(_) => None,
    }
}

/// chrono `NaiveDateTime::parse_from_str`, then `and_utc`: the instant
/// read, as `timestamp` and `timestamp_subsec_nanos` give it, or nothing.
#[verifier::external_body]
fn naive_utc_parse(s: &str, format: &str) -> (r: Option<(i64, u32)>)
    ensures
        r == naive_utc_instant(s@, format@),
{
    match chrono::NaiveDateTime::parse_from_str(s, format) {
        Ok(n) => Some((n.and_utc().timestamp(), n.and_utc().timestamp_subsec_nanos())),
        Err(_) => None,
    }
}

/// serde_json `from_str::<Value>`: success, or the error's display text, as
/// `json_outcome` names them.
#[verifier::external_body]
fn check_json(s: &str) -> (r: Result<(), String>)
    ensures
        match r {
            Ok(_) => json_outcome(s@) == Ok::<(), Seq<char>>(()),
            Err(e) => json_outcome(s@) == Err::<(), Seq<char>>(e@),
        },
{
    match serde_json::from_str::<serde_json::Value>(s) {
        Ok(_) => Ok(()),
        Err(e) => Err(e.to_string()),
    }
}

// ---------------------------------------------------------------------------
// Specification
// ---------------------------------------------------------------------------

/// A field value as a mathematical value.
pub enum ValueView {
    Text(Seq<char>),
    Integer(i64),
    Float(Seq<char>),
    Boolean(bool),
    DateTime(i64, u32),
    Enum(Seq<char>),
    Json(Seq<char>),
    Ref(Seq<char>),
    RefArray(Seq<Seq<char>>),
    Composite(Seq<(Seq<char>, ValueView)>),
}

/// A value that is not composite as a mathematical value (a composite one
/// shows as an empty composite: sub-field values are never composite).
pub open spec fn scalar_view(v: FieldValue) -> ValueView {
    match v {
        FieldValue::Text(s) => ValueView::Text(s@),
        FieldValue::Integer(n) => ValueView::Integer(n),
        FieldValue::Float(s) => ValueView::Float(s@),
        FieldValue::Boolean(b) => ValueView::Boolean(b),
        FieldValue::DateTime { seconds, nanos } => ValueView::DateTime(seconds, nanos),
        FieldValue::Enum(s) => ValueView::Enum(s@),
        FieldValue::Json(s) => ValueView::Json(s@),
        FieldValue::Ref(s) => ValueView::Ref(s@),
        FieldValue::RefArray(ids) => ValueView::RefArray(views(ids@)),
        FieldValue::Composite(_) => ValueView::Composite(Seq::empty()),
    }
}

/// A field value as a mathematical value.
pub open spec fn value_view(v: FieldValue) -> ValueView {
    match v {
        FieldValue::Composite(entries) => ValueView::Composite(
            entries@.map_values(|e: (String, FieldValue)| (e.0@, scalar_view(e.1))),
        ),
        _ => scalar_view(v),
    }
}

/// A checkbox value: `"true"` or `"on"`.
pub open spec fn checked(v: Seq<char>) -> bool {
    v == "true"@ || v == "on"@
}

/// The instant chrono reads from `s` as a datetime: RFC 3339, or else an
/// HTML `datetime-local` value without seconds, or else with them (taken as
/// UTC).
pub open spec fn datetime_instant(s: Seq<char>) -> Option<(i64, u32)> {
    match rfc3339_instant(s) {
        Some(t) => Some(t),
        None => match naive_utc_instant(s, "%Y-%m-%dT%H:%M"@) {
            Some(t) => Some(t),
            None => naive_utc_instant(s, "%Y-%m-%dT%H:%M:%S"@),
        },
    }
}

/// The verdicts that come from outside: the number texts that do not read
/// as floating-point numbers, and the entity ids the id rules refuse, each
/// with the rule's message.
#[derive(Debug)]
pub struct ValueVerdicts {
    pub bad_numbers: Vec<String>,
    pub bad_ids: Vec<(String, String)>,
}

/// One submitted value read by a field type (none: as text).
pub open spec fn single_value(
    name: Seq<char>,
    value: Seq<char>,
    t: Option<FieldType>,
    v: ValueVerdicts,
) -> Result<ValueView, Seq<char>> {
    match t {
        Some(FieldType::Text(_)) => Ok(ValueView::Text(value)),
        Some(FieldType::RichText) => Ok(ValueView::Text(value)),
        Some(FieldType::Integer(_)) => match parse_signed(value, i64::MIN as int, i64::MAX as int) {
            Some(n) => Ok(ValueView::Integer(n as i64)),
            None => Err("field '"@ + name + "': expected integer, got '"@ + value + "'"@),
        },
        Some(FieldType::Float(_)) => if views(v.bad_numbers@).contains(value) {
            Err("field '"@ + name + "': expected number, got '"@ + value + "'"@)
        } else {
            Ok(ValueView::Float(value))
        },
        Some(FieldType::Boolean) => Ok(ValueView::Boolean(checked(value))),
        Some(FieldType::DateTime) => if let Some((secs, nanos)) = datetime_instant(value) {
            Ok(ValueView::DateTime(secs, nanos))
        } else {
            Err("field '"@ + name + "': invalid datetime format '"@ + value + "'"@)
        },
        Some(FieldType::Enum(_)) => Ok(ValueView::Enum(value)),
        Some(FieldType::Json) => match json_outcome(value) {
            Ok(_) => Ok(ValueView::Json(value)),
            Err(e) => Err("field '"@ + name + "': invalid JSON: "@ + e),
        },
        Some(FieldType::Relation { many, .. }) => if many {
            Ok(ValueView::Text(value))
        } else {
            match form_lookup(form_view(v.bad_ids@), value) {
                Some(e) => Err("field '"@ + name + "': invalid entity reference: "@ + e),
                None => Ok(ValueView::Ref(value)),
            }
        },
        _ => Ok(ValueView::Text(value)),
    }
}

/// The values submitted under `key`, in order.
pub open spec fn values_of(fv: Seq<(Seq<char>, Seq<char>)>, key: Seq<char>) -> Seq<Seq<char>>
    decreases fv.len(),
{
    if fv.len() == 0 {
        Seq::empty()
    } else {
        let r = values_of(fv.drop_last(), key);
        if fv.last().0 == key {
            r.push(fv.last().1)
        } else {
            r
        }
    }
}

/// The non-empty values among `vs`, in order.
pub open spec fn nonempty_of(vs: Seq<Seq<char>>) -> Seq<Seq<char>>
    decreases vs.len(),
{
    if vs.len() == 0 {
        Seq::empty()
    } else {
        let r = nonempty_of(vs.drop_last());
        if vs.last().len() > 0 {
            r.push(vs.last())
        } else {
            r
        }
    }
}

/// The ids the id rules accept among `vs`, and the errors of those they
/// refuse, in order.
pub open spec fn ref_ids(name: Seq<char>, vs: Seq<Seq<char>>, v: ValueVerdicts) -> (Seq<Seq<char>>, Seq<Seq<char>>)
    decreases vs.len(),
{
    if vs.len() == 0 {
        (Seq::empty(), Seq::empty())
    } else {
        let (ids, es) = ref_ids(name, vs.drop_last(), v);
        let x = vs.last();
        match form_lookup(form_view(v.bad_ids@), x) {
            Some(e) => (ids, es.push("field '"@ + name + "': invalid entity reference '"@ + x + "': "@ + e)),
            None => (ids.push(x), es),
        }
    }
}

/// The submitted keys that start with `p`, strictly ascending, each once.
pub open spec fn prefixed_keys(fv: Seq<(Seq<char>, Seq<char>)>, p: Seq<char>) -> Seq<Seq<char>>
    decreases fv.len(),
{
    if fv.len() == 0 {
        Seq::empty()
    } else {
        let r = prefixed_keys(fv.drop_last(), p);
        if has_prefix(fv.last().0, p) {
            sorted_insert(r, fv.last().0)
        } else {
            r
        }
    }
}

/// The type of the first sub-field named `name`.
pub open spec fn sub_type(subs: Seq<FieldDefinition>, name: Seq<char>) -> Option<FieldType>
    decreases subs.len(),
{
    if subs.len() == 0 {
        None
    } else if subs[0].name@ == name {
        Some(subs[0].field_type)
    } else {
        sub_type(subs.drop_first(), name)
    }
}

/// The sub-field entries a composite field's `<name>.<sub>` keys give,
/// and their errors, in key order.
pub open spec fn composite_entries(
    name: Seq<char>,
    keys: Seq<Seq<char>>,
    fv: Seq<(Seq<char>, Seq<char>)>,
    subs: Seq<FieldDefinition>,
    v: ValueVerdicts,
) -> (Seq<(Seq<char>, ValueView)>, Seq<Seq<char>>)
    decreases keys.len(),
{
    if keys.len() == 0 {
        (Seq::empty(), Seq::empty())
    } else {
        let (es, errs) = composite_entries(name, keys.drop_last(), fv, subs, v);
        let k = keys.last();
        let val = match form_lookup(fv, k) {
            Some(x) => x,
            None => Seq::empty(),
        };
        let sub = k.subrange(name.len() + 1int, k.len() as int);
        if val.len() == 0 {
            (es, errs)
        } else {
            match single_value(sub, val, sub_type(subs, sub), v) {
                Ok(dv) => (es.push((sub, dv)), errs),
                Err(e) => (es, errs.push("field '"@ + name + "."@ + sub + "': "@ + e)),
            }
        }
    }
}

/// What one field of the schema gives: its value, if any, and its errors.
/// `clean` says whether no error came before it.
pub open spec fn field_step(
    f: FieldDefinition,
    fv: Seq<(Seq<char>, Seq<char>)>,
    v: ValueVerdicts,
    clean: bool,
) -> (Option<ValueView>, Seq<Seq<char>>) {
    let n = f.name@;
    match f.field_type {
        FieldType::Boolean => (
            Some(
                ValueView::Boolean(
                    match form_lookup(fv, n) {
                        Some(x) => checked(x),
                        None => false,
                    },
                ),
            ),
            Seq::empty(),
        ),
        FieldType::Relation { many: true, .. } => {
            let ne = nonempty_of(values_of(fv, n));
            if ne.len() == 0 {
                (None, Seq::empty())
            } else {
                let (ids, es) = ref_ids(n, ne, v);
                if (clean && es.len() == 0) || ids.len() > 0 {
                    (Some(ValueView::RefArray(ids)), es)
                } else {
                    (None, es)
                }
            }
        },
        FieldType::Composite(subs) => {
            let (es, errs) = composite_entries(n, prefixed_keys(fv, n + "."@), fv, subs@, v);
            if es.len() > 0 {
                (Some(ValueView::Composite(es)), errs)
            } else {
                (None, errs)
            }
        },
        t => match form_lookup(fv, n) {
            None => (None, Seq::empty()),
            Some(x) => if x.len() == 0 {
                (None, Seq::empty())
            } else {
                match single_value(n, x, Some(t), v) {
                    Ok(dv) => (Some(dv), Seq::empty()),
                    Err(e) => (None, seq![e]),
                }
            },
        },
    }
}

/// The values the fields give, in field order, and every error, in order.
pub open spec fn fields_result(fields: Seq<FieldDefinition>, fv: Seq<(Seq<char>, Seq<char>)>, v: ValueVerdicts) -> (
    Seq<(Seq<char>, ValueView)>,
    Seq<Seq<char>>,
)
    decreases fields.len(),
{
    if fields.len() == 0 {
        (Seq::empty(), Seq::empty())
    } else {
        let (es, errs) = fields_result(fields.drop_last(), fv, v);
        let f = fields.last();
        let (val, more) = field_step(f, fv, v, errs.len() == 0);
        match val {
            Some(dv) => (es.push((f.name@, dv)), errs + more),
            None => (es, errs + more),
        }
    }
}

/// Some entry is named `n`.
pub open spec fn has_entry(es: Seq<(Seq<char>, ValueView)>, n: Seq<char>) -> bool {
    exists|i: int| 0 <= i < es.len() && (#[trigger] es[i]).0 == n
}

/// The errors of the required fields without a value, in field order.
pub open spec fn required_errors(fields: Seq<FieldDefinition>, es: Seq<(Seq<char>, ValueView)>) -> Seq<Seq<char>>
    decreases fields.len(),
{
    if fields.len() == 0 {
        Seq::empty()
    } else {
        let r = required_errors(fields.drop_last(), es);
        let f = fields.last();
        if f.required && !has_entry(es, f.name@) {
            r.push("required field '"@ + f.name@ + "' is missing"@)
        } else {
            r
        }
    }
}

/// What an entity form gives: the fields' values, or every error.
pub open spec fn entity_fields_spec(schema: SchemaDefinition, fv: Seq<(Seq<char>, Seq<char>)>, v: ValueVerdicts) -> Result<
    Seq<(Seq<char>, ValueView)>,
    Seq<Seq<char>>,
> {
    let (es, errs) = fields_result(schema.fields@, fv, v);
    let all = errs + required_errors(schema.fields@, es);
    if all.len() == 0 {
        Ok(es)
    } else {
        Err(all)
    }
}

pub open spec fn entries_view(es: Seq<(String, FieldValue)>) -> Seq<(Seq<char>, ValueView)> {
    es.map_values(|e: (String, FieldValue)| (e.0@, value_view(e.1)))
}

// ---------------------------------------------------------------------------
// Reading
// ---------------------------------------------------------------------------

pub open spec fn opt_type(t: Option<&FieldType>) -> Option<FieldType> {
    match t {
        Some(x) => Some(*x),
        None => None,
    }
}

fn datetime_parse(value: &str) -> (r: Option<(i64, u32)>)
    ensures
        r == datetime_instant(value@),
{
    match rfc3339_parse(value) {
        Some(t) => Some(t),
        None => match naive_utc_parse(value, "%Y-%m-%dT%H:%M") {
            Some(t) => Some(t),
            None => naive_utc_parse(value, "%Y-%m-%dT%H:%M:%S"),
        },
    }
}

fn quoted_error(name: &str, middle: &str, value: &str, tail: &str) -> (r: String)
    ensures
        r@ == "field '"@ + name@ + middle@ + value@ + tail@,
{
    let mut m = str_to_string("field '");
    push_str(&mut m, name);
    push_str(&mut m, middle);
    push_str(&mut m, value);
    push_str(&mut m, tail);
    m
}

/// One submitted value read by a field type (none: as text).
fn single_value_exec(name: &str, value: &String, t: Option<&FieldType>, v: &ValueVerdicts) -> (r: Result<FieldValue, String>)
    ensures
        match r {
            Ok(x) => single_value(name@, value@, opt_type(t), *v) == Ok::<ValueView, Seq<char>>(scalar_view(x))
                && !(x is Composite),
            Err(m) => single_value(name@, value@, opt_type(t), *v) == Err::<ValueView, Seq<char>>(m@),
        },
{
    proof {
        reveal_strlit("");
    }
    match t {
        Some(FieldType::Text(_)) | Some(FieldType::RichText) => Ok(FieldValue::Text(value.clone())),
        Some(FieldType::Integer(_)) => match parse_i64(value.as_str()) {
            Some(n) => Ok(FieldValue::Integer(n)),
            None => Err(quoted_error(name, "': expected integer, got '", value.as_str(), "'")),
        },
        Some(FieldType::Float(_)) => if contains_view(v.bad_numbers.as_slice(), value) {
            Err(quoted_error(name, "': expected number, got '", value.as_str(), "'"))
        } else {
            Ok(FieldValue::Float(value.clone()))
        },
        Some(FieldType::Boolean) => {
            let b = *value == str_to_string("true") || *value == str_to_string("on");
            Ok(FieldValue::Boolean(b))
        },
        Some(FieldType::DateTime) => match datetime_parse(value.as_str()) {
            Some((seconds, nanos)) => Ok(FieldValue::DateTime { seconds, nanos }),
            None => Err(quoted_error(name, "': invalid datetime format '", value.as_str(), "'")),
        },
        Some(FieldType::Enum(_)) => Ok(FieldValue::Enum(value.clone())),
        Some(FieldType::Json) => match check_json(value.as_str()) {
            Ok(()) => Ok(FieldValue::Json(value.clone())),
            Err(e) => Err(quoted_error(name, "': invalid JSON: ", e.as_str(), "")),
        },
        Some(FieldType::Relation { many, .. }) => if *many {
            Ok(FieldValue::Text(value.clone()))
        } else {
            match form_get(v.bad_ids.as_slice(), value) {
                Some(e) => Err(quoted_error(name, "': invalid entity reference: ", e.as_str(), "")),
                None => Ok(FieldValue::Ref(value.clone())),
            }
        },
        _ => Ok(FieldValue::Text(value.clone())),
    }
}

/// The ids a to-many relation's non-empty submitted values give, the
/// errors of the refused ones, and whether any non-empty value came.
fn relation_many_values(name: &String, form: &[(String, String)], v: &ValueVerdicts) -> (r: (
    Vec<String>,
    Vec<String>,
    bool,
))
    ensures
        ({
            let ne = nonempty_of(values_of(form_view(form@), name@));
            &&& (views(r.0@), views(r.1@)) == ref_ids(name@, ne, *v)
            &&& r.2 == (ne.len() > 0)
        }),
{
    let ghost fv = form_view(form@);
    let mut ids: Vec<String> = Vec::new();
    let mut errs: Vec<String> = Vec::new();
    let mut any = false;
    let mut i: usize = 0;
    assert(fv.subrange(0, 0) =~= Seq::<(Seq<char>, Seq<char>)>::empty());
    while i < form.len()
        invariant
            i <= form@.len(),
            fv == form_view(form@),
            (views(ids@), views(errs@)) == ref_ids(name@, nonempty_of(values_of(fv.subrange(0, i as int), name@)), *v),
            any == (nonempty_of(values_of(fv.subrange(0, i as int), name@)).len() > 0),
        decreases form@.len() - i,
    {
        let ghost pre = fv.subrange(0, i as int);
        let ghost next = fv.subrange(0, i + 1);
        assert(next.drop_last() =~= pre);
        assert(next.last() == (form@[i as int].0@, form@[i as int].1@));
        let key = &form[i].0;
        let val = &form[i].1;
        if *key == *name && !val.as_str().is_empty() {
            any = true;
            let ghost vs = nonempty_of(values_of(pre, name@));
            assert(nonempty_of(values_of(next, name@)) == vs.push(val@)) by {
                assert(values_of(next, name@) == values_of(pre, name@).push(val@));
                assert(values_of(next, name@).push(val@).drop_last() =~= values_of(pre, name@).push(val@));
                assert(values_of(pre, name@).push(val@).drop_last() =~= values_of(pre, name@));
            }
            assert(vs.push(val@).drop_last() =~= vs);
            match form_get(v.bad_ids.as_slice(), val) {
                Some(e) => {
                    let m = quoted_error(name.as_str(), "': invalid entity reference '", val.as_str(), "': ");
                    let mut m = m;
                    push_str(&mut m, e.as_str());
                    let ghost before = views(errs@);
                    errs.push(m);
                    assert(views(errs@) =~= before.push(m@));
                    assert(m@ =~= "field '"@ + name@ + "': invalid entity reference '"@ + val@ + "': "@ + e@);
                },
                None => {
                    let ghost before = views(ids@);
                    ids.push(val.clone());
                    assert(views(ids@) =~= before.push(val@));
                },
            }
        } else {
            proof {
                if key@ == name@ {
                    assert(values_of(next, name@) == values_of(pre, name@).push(val@));
                    assert(values_of(pre, name@).push(val@).drop_last() =~= values_of(pre, name@));
                } else {
                    assert(values_of(next, name@) == values_of(pre, name@));
                }
            }
        }
        i += 1;
    }
    assert(fv.subrange(0, i as int) =~= fv);
    (ids, errs, any)
}

/// The submitted keys that start with `p`, strictly ascending, each once.
fn prefixed_keys_exec(form: &[(String, String)], p: &String) -> (r: Vec<String>)
    ensures
        r@.map_values(|n: String| n@) == prefixed_keys(form_view(form@), p@),
        forall|i: int| 0 <= i < r@.len() ==> has_prefix(#[trigger] r@[i]@, p@),
{
    let ghost fv = form_view(form@);
    let pc = chars_of(p.as_str());
    let mut keys: Vec<String> = Vec::new();
    let mut i: usize = 0;
    assert(fv.subrange(0, 0) =~= Seq::<(Seq<char>, Seq<char>)>::empty());
    assert(keys@.map_values(|n: String| n@) =~= Seq::<Seq<char>>::empty());
    while i < form.len()
        invariant
            i <= form@.len(),
            fv == form_view(form@),
            pc@ == p@,
            keys@.map_values(|n: String| n@) == prefixed_keys(fv.subrange(0, i as int), p@),
            strictly_sorted(keys@.map_values(|n: String| n@)),
            forall|k: Seq<char>| keys@.map_values(|n: String| n@).contains(k) ==> has_prefix(k, p@),
        decreases form@.len() - i,
    {
        let ghost pre = fv.subrange(0, i as int);
        let ghost next = fv.subrange(0, i + 1);
        assert(next.drop_last() =~= pre);
        assert(next.last() == (form@[i as int].0@, form@[i as int].1@));
        let kc = chars_of(form[i].0.as_str());
        if starts_with(kc.as_slice(), pc.as_slice()) {
            let ghost before = keys@.map_values(|n: String| n@);
            proof {
                lemma_sorted_insert_props(before, form@[i as int].0@);
            }
            keys = insert_name(keys, form[i].0.clone());
        }
        i += 1;
    }
    assert(fv.subrange(0, i as int) =~= fv);
    proof {
        assert forall|j: int| 0 <= j < keys@.len() implies has_prefix(#[trigger] keys@[j]@, p@) by {
            assert(keys@.map_values(|n: String| n@)[j] == keys@[j]@);
            assert(keys@.map_values(|n: String| n@).contains(keys@[j]@));
        }
    }
    keys
}

/// The type of the first sub-field named `name`.
fn sub_type_exec<'a>(subs: &'a Vec<FieldDefinition>, name: &String) -> (r: Option<&'a FieldType>)
    ensures
        opt_type(r) == sub_type(subs@, name@),
{
    let mut i: usize = 0;
    assert(subs@.subrange(0, subs@.len() as int) =~= subs@);
    while i < subs.len()
        invariant
            i <= subs@.len(),
            sub_type(subs@, name@) == sub_type(subs@.subrange(i as int, subs@.len() as int), name@),
        decreases subs@.len() - i,
    {
        let ghost rest = subs@.subrange(i as int, subs@.len() as int);
        assert(rest[0] == subs@[i as int]);
        assert(rest.drop_first() =~= subs@.subrange(i + 1, subs@.len() as int));
        if subs[i].name == *name {
            return Some(&subs[i].field_type);
        }
        i += 1;
    }
    None
}

/// A composite field's value, from its `<name>.<sub>` keys, and the errors
/// of its sub-values.
fn composite_value(name: &String, subs: &Vec<FieldDefinition>, form: &[(String, String)], v: &ValueVerdicts) -> (r: (
    Option<FieldValue>,
    Vec<String>,
))
    ensures
        ({
            let fv = form_view(form@);
            let (es, errs) = composite_entries(name@, prefixed_keys(fv, name@ + "."@), fv, subs@, *v);
            &&& views(r.1@) == errs
            &&& match r.0 {
                Some(x) => es.len() > 0 && value_view(x) == ValueView::Composite(es),
                None => es.len() == 0,
            }
        }),
{
    proof {
        reveal_strlit(".");
    }
    let ghost fv = form_view(form@);
    let mut p = name.clone();
    push_str(&mut p, ".");
    let keys = prefixed_keys_exec(form, &p);
    let ghost kv = keys@.map_values(|n: String| n@);
    let name_len = name.as_str().unicode_len();
    let mut entries: Vec<(String, FieldValue)> = Vec::new();
    let mut errs: Vec<String> = Vec::new();
    let mut j: usize = 0;
    assert(kv.subrange(0, 0) =~= Seq::<Seq<char>>::empty());
    while j < keys.len()
        invariant
            j <= keys@.len(),
            fv == form_view(form@),
            kv == keys@.map_values(|n: String| n@),
            kv == prefixed_keys(fv, name@ + "."@),
            p@ == name@ + "."@,
            name_len == name@.len(),
            forall|i: int| 0 <= i < keys@.len() ==> has_prefix(#[trigger] keys@[i]@, p@),
            (entries_view(entries@), views(errs@)) == composite_entries(name@, kv.subrange(0, j as int), fv, subs@, *v),
            forall|i: int| 0 <= i < entries@.len() ==> !((#[trigger] entries@[i]).1 is Composite),
        decreases keys@.len() - j,
    {
        let ghost pre = kv.subrange(0, j as int);
        let ghost next = kv.subrange(0, j + 1);
        assert(next.drop_last() =~= pre);
        assert(next.last() == keys@[j as int]@);
        let k = &keys[j];
        assert(has_prefix(keys@[j as int]@, p@));
        let val = match form_get(form, k) {
            Some(x) => x.clone(),
            None => String::new(),
        };
        proof {
            reveal_strlit("");
        }
        if !val.as_str().is_empty() {
            let klen = k.as_str().unicode_len();
            proof {
                reveal_strlit(".");
            }
            assert("."@.len() == 1);
            assert(p@.len() == name@.len() + 1);
            assert(name_len + 1 <= klen);
            let sub = String::from_str(k.as_str().substring_char(name_len + 1, klen));
            match single_value_exec(sub.as_str(), &val, sub_type_exec(subs, &sub), v) {
                Ok(x) => {
                    let ghost before = entries_view(entries@);
                    entries.push((sub, x));
                    assert(entries_view(entries@) =~= before.push((sub@, scalar_view(x))));
                },
                Err(e) => {
                    let mut m = str_to_string("field '");
                    push_str(&mut m, name.as_str());
                    push_str(&mut m, ".");
                    push_str(&mut m, sub.as_str());
                    push_str(&mut m, "': ");
                    push_str(&mut m, e.as_str());
                    let ghost before = views(errs@);
                    errs.push(m);
                    assert(views(errs@) =~= before.push(m@));
                },
            }
        }
        j += 1;
    }
    assert(kv.subrange(0, j as int) =~= kv);
    if entries.len() > 0 {
        proof {
            assert(entries@.map_values(|e: (String, FieldValue)| (e.0@, scalar_view(e.1))) =~= entries_view(entries@)) by {
                assert forall|i: int| 0 <= i < entries@.len() implies entries_view(entries@)[i] == (entries@[i].0@, scalar_view(entries@[i].1)) by {
                    assert(!(entries@[i].1 is Composite));
                }
            }
        }
        (Some(FieldValue::Composite(entries)), errs)
    } else {
        (None, errs)
    }
}

pub open spec fn opt_value_view(o: Option<FieldValue>) -> Option<ValueView> {
    match o {
        Some(x) => Some(value_view(x)),
        None => None,
    }
}

/// What one field of the schema gives; `clean` says whether no error came
/// before it.
fn field_step_exec(f: &FieldDefinition, form: &[(String, String)], v: &ValueVerdicts, clean: bool) -> (r: (
    Option<FieldValue>,
    Vec<String>,
))
    ensures
        (opt_value_view(r.0), views(r.1@)) == field_step(*f, form_view(form@), *v, clean),
{
    let ghost fv = form_view(form@);
    proof {
        reveal_strlit("");
    }
    match &f.field_type {
        FieldType::Boolean => {
            let b = match form_get(form, &f.name) {
                Some(x) => *x == str_to_string("true") || *x == str_to_string("on"),
                None => false,
            };
            let none: Vec<String> = Vec::new();
            assert(views(none@) =~= Seq::<Seq<char>>::empty());
            (Some(FieldValue::Boolean(b)), none)
        },
        FieldType::Relation { many: true, .. } => {
            let (ids, errs, any) = relation_many_values(&f.name, form, v);
            if !any {
                let none: Vec<String> = Vec::new();
                assert(views(none@) =~= Seq::<Seq<char>>::empty());
                (None, none)
            } else if (clean && errs.len() == 0) || ids.len() > 0 {
                (Some(FieldValue::RefArray(ids)), errs)
            } else {
                (None, errs)
            }
        },
        FieldType::Composite(subs) => composite_value(&f.name, subs, form, v),
        t => {
            let none: Vec<String> = Vec::new();
            assert(views(none@) =~= Seq::<Seq<char>>::empty());
            match form_get(form, &f.name) {
                None => (None, none),
                Some(x) => if x.as_str().is_empty() {
                    (None, none)
                } else {
                    match single_value_exec(f.name.as_str(), x, Some(t), v) {
                        Ok(dv) => (Some(dv), none),
                        Err(e) => {
                            let mut one: Vec<String> = Vec::new();
                            one.push(e);
                            assert(views(one@) =~= seq![one@[0]@]);
                            (None, one)
                        },
                    }
                },
            }
        },
    }
}

/// Reads a submitted entity form by the schema's field types: for each
/// field in order, a checkbox is `true` when its last value is `"true"` or
/// `"on"` (absent: `false`); a to-many relation takes every non-empty
/// value as an entity id; a composite field gathers its `<name>.<sub>`
/// keys by sub-field; any other field reads its last value unless empty.
/// Then every required field without a value is an error. The result is
/// the values (in field order; a schema's field names are distinct), or
/// every error in that order.
pub fn form_to_entity_fields(schema: &SchemaDefinition, form_data: &[(String, String)], verdicts: &ValueVerdicts) -> (r: Result<
    Vec<(String, FieldValue)>,
    Vec<String>,
>)
    ensures
        match r {
            Ok(es) => entity_fields_spec(*schema, form_view(form_data@), *verdicts) == Ok::<
                Seq<(Seq<char>, ValueView)>,
                Seq<Seq<char>>,
            >(entries_view(es@)),
            Err(errs) => entity_fields_spec(*schema, form_view(form_data@), *verdicts) == Err::<
                Seq<(Seq<char>, ValueView)>,
                Seq<Seq<char>>,
            >(views(errs@)),
        },
{
    let ghost fv = form_view(form_data@);
    let ghost fields = schema.fields@;
    let mut entries: Vec<(String, FieldValue)> = Vec::new();
    let mut errs: Vec<String> = Vec::new();
    let mut i: usize = 0;
    assert(fields.subrange(0, 0) =~= Seq::<FieldDefinition>::empty());
    while i < schema.fields.len()
        invariant
            i <= fields.len(),
            fields == schema.fields@,
            fv == form_view(form_data@),
            (entries_view(entries@), views(errs@)) == fields_result(fields.subrange(0, i as int), fv, *verdicts),
        decreases fields.len() - i,
    {
        let ghost pre = fields.subrange(0, i as int);
        let ghost next = fields.subrange(0, i + 1);
        assert(next.drop_last() =~= pre);
        assert(next.last() == fields[i as int]);
        let f = &schema.fields[i];
        let clean = errs.len() == 0;
        let (val, more) = field_step_exec(f, form_data, verdicts, clean);
        let ghost errs_before = views(errs@);
        let ghost more_v = views(more@);
        let ghost errs_raw = errs@;
        let ghost more_raw = more@;
        let mut more = more;
        errs.append(&mut more);
        assert(errs@ == errs_raw + more_raw);
        assert(views(errs@) =~= errs_before + more_v);
        match val {
            Some(dv) => {
                let ghost before = entries_view(entries@);
                entries.push((f.name.clone(), dv));
                assert(entries_view(entries@) =~= before.push((f.name@, value_view(dv))));
            },
            None => {},
        }
        i += 1;
    }
    assert(fields.subrange(0, i as int) =~= fields);
    let ghost es = entries_view(entries@);
    let ghost errs_main = views(errs@);
    let mut j: usize = 0;
    assert(fields.subrange(0, 0) =~= Seq::<FieldDefinition>::empty());
    while j < schema.fields.len()
        invariant
            j <= fields.len(),
            fields == schema.fields@,
            es == entries_view(entries@),
            views(errs@) == errs_main + required_errors(fields.subrange(0, j as int), es),
        decreases fields.len() - j,
    {
        let ghost pre = fields.subrange(0, j as int);
        let ghost next = fields.subrange(0, j + 1);
        assert(next.drop_last() =~= pre);
        assert(next.last() == fields[j as int]);
        let f = &schema.fields[j];
        if f.required {
            let mut found = false;
            let mut k: usize = 0;
            while k < entries.len()
                invariant
                    k <= entries@.len(),
                    es == entries_view(entries@),
                    found == exists|m: int| 0 <= m < k && (#[trigger] es[m]).0 == f.name@,
                decreases entries@.len() - k,
            {
                if entries[k].0 == f.name {
                    found = true;
                }
                assert(es[k as int].0 == entries@[k as int].0@);
                k += 1;
            }
            if !found {
                let mut m = str_to_string("required field '");
                push_str(&mut m, f.name.as_str());
                push_str(&mut m, "' is missing");
                let ghost before = views(errs@);
                errs.push(m);
                assert(views(errs@) =~= before.push(m@));
            }
        }
        j += 1;
    }
    assert(fields.subrange(0, j as int) =~= fields);
    if errs.len() == 0 {
        Ok(entries)
    } else {
        Err(errs)
    }
}

/// The declared type of the sub-field named `s`: that of the first
/// sub-field with that name, or none when no sub-field has it.
proof fn lemma_sub_type_first(subs: Seq<FieldDefinition>, s: Seq<char>)
    ensures
        match sub_type(subs, s) {
            Some(t) => exists|j: int|
                0 <= j < subs.len() && subs[j].name@ == s && subs[j].field_type == t && (forall|m: int|
                    0 <= m < j ==> (#[trigger] subs[m]).name@ != s),
            None => forall|j: int| 0 <= j < subs.len() ==> (#[trigger] subs[j]).name@ != s,
        },
    decreases subs.len(),
{
    if subs.len() > 0 {
        let rest = subs.drop_first();
        lemma_sub_type_first(rest, s);
        if subs[0].name@ != s {
            match sub_type(rest, s) {
                Some(t) => {
                    let j = choose|j: int|
                        0 <= j < rest.len() && rest[j].name@ == s && rest[j].field_type == t && (forall|m: int|
                            0 <= m < j ==> (#[trigger] rest[m]).name@ != s);
                    assert(subs[j + 1] == rest[j]);
                    assert forall|m: int| 0 <= m < j + 1 implies (#[trigger] subs[m]).name@ != s by {
                        if m > 0 {
                            assert(subs[m] == rest[m - 1]);
                        }
                    }
                },
                None => {
                    assert forall|j: int| 0 <= j < subs.len() implies (#[trigger] subs[j]).name@ != s by {
                        if j > 0 {
                            assert(subs[j] == rest[j - 1]);
                        }
                    }
                },
            }
        }
    }
}

/// A composite field's entries are typed by its sub-fields: every entry
/// (sub-field name `s`, value `dv`) comes from a submitted key
/// `<name>.<s>` with a non-empty value `x`, and `dv` is `x` read by the
/// declared type of the first sub-field named `s` (read as text only when
/// no sub-field has that name); e.g. an integer sub-field yields an
/// integer.
pub proof fn lemma_composite_entries_typed(
    name: Seq<char>,
    keys: Seq<Seq<char>>,
    fv: Seq<(Seq<char>, Seq<char>)>,
    subs: Seq<FieldDefinition>,
    v: ValueVerdicts,
    i: int,
)
    requires
        0 <= i < composite_entries(name, keys, fv, subs, v).0.len(),
    ensures
        ({
            let (s, dv) = composite_entries(name, keys, fv, subs, v).0[i];
            exists|k: int|
                {
                    &&& 0 <= k < keys.len()
                    &&& (#[trigger] keys[k]).subrange(name.len() + 1int, keys[k].len() as int) == s
                    &&& form_lookup(fv, keys[k]) matches Some(x) && x.len() > 0 && ((exists|j: int|
                        {
                            &&& 0 <= j < subs.len()
                            &&& subs[j].name@ == s
                            &&& (forall|m: int| 0 <= m < j ==> (#[trigger] subs[m]).name@ != s)
                            &&& single_value(s, x, Some(subs[j].field_type), v) == Ok::<ValueView, Seq<char>>(dv)
                        }) || ((forall|j: int| 0 <= j < subs.len() ==> (#[trigger] subs[j]).name@ != s)
                        && single_value(s, x, None, v) == Ok::<ValueView, Seq<char>>(dv)))
                }
        }),
    decreases keys.len(),
{
    let pre = keys.drop_last();
    let (es, errs) = composite_entries(name, pre, fv, subs, v);
    if i < es.len() {
        lemma_composite_entries_typed(name, pre, fv, subs, v, i);
        let (s, dv) = es[i];
        let k = choose|k: int|
            {
                &&& 0 <= k < pre.len()
                &&& (#[trigger] pre[k]).subrange(name.len() + 1int, pre[k].len() as int) == s
                &&& form_lookup(fv, pre[k]) matches Some(x) && x.len() > 0 && ((exists|j: int|
                    {
                        &&& 0 <= j < subs.len()
                        &&& subs[j].name@ == s
                        &&& (forall|m: int| 0 <= m < j ==> (#[trigger] subs[m]).name@ != s)
                        &&& single_value(s, x, Some(subs[j].field_type), v) == Ok::<ValueView, Seq<char>>(dv)
                    }) || ((forall|j: int| 0 <= j < subs.len() ==> (#[trigger] subs[j]).name@ != s)
                    && single_value(s, x, None, v) == Ok::<ValueView, Seq<char>>(dv)))
            };
        assert(keys[k] == pre[k]);
        assert(composite_entries(name, keys, fv, subs, v).0[i] == es[i]);
    } else {
        let k = keys.len() - 1;
        let key = keys[k];
        let x = match form_lookup(fv, key) {
            Some(y) => y,
            None => Seq::empty(),
        };
        let s = key.subrange(name.len() + 1int, key.len() as int);
        lemma_sub_type_first(subs, s);
        assert(keys.last() == key);
    }
}

} // verus!
