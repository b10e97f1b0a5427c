//! Reading a submitted schema-editor form into a schema definition.
//!
//! The naming rules for schemas and fields, and the checks on enum variant
//! lists, integer ranges and versions, belong to the schema-definition
//! types, which this crate does not hold. Their verdicts come in as a
//! [`RuleVerdicts`] value; everything around them (which keys are read, in
//! which order the rows are taken, which errors are reported and how they
//! read) is the form logic verified here.
use vstd::prelude::*;

pub use crate::form::{form_to_entity_fields, FieldValue, ValueVerdicts};

use crate::admin::handlers::{
    checked_flag, field_key, form_field_indices, form_get, form_lookup, form_view, get_flag, get_or, int_of_i64,
    int_of_u32, is_field_index, lookup_i64, lookup_or, lookup_unsigned, row_key,
};
use crate::admin::views::opt_view;
use crate::decimal::{decimal, parse_i64, parse_u32, parse_unsigned, usize_to_decimal};
use crate::export_job::{is_simple_v4_uuid, random_uuid_simple};
use crate::definition::{
    FieldDefinition, FieldType, FloatConstraints, IntegerConstraints, SchemaDefinition, TextConstraints,
};
use crate::text::{chars_of, contains_view, copy_strings, push_str, str_to_string, string_from, trim, trim_chars, views};

verus! {

/// One field row of a submitted schema form, read but not yet checked.
#[derive(Debug)]
pub struct FieldDraft {
    /// The `<N>` of the row's `field_<N>_...` keys.
    pub index: usize,
    pub name: String,
    /// The submitted type name; empty when none was submitted.
    pub field_type: String,
    pub text_max_length: Option<u32>,
    pub integer_min: Option<i64>,
    pub integer_max: Option<i64>,
    pub float_precision: Option<u32>,
    /// The enum variants, one per non-blank line, trimmed.
    pub enum_variants: Vec<String>,
    pub relation_target: String,
    /// Whether the relation's cardinality is `many`.
    pub relation_many: bool,
    pub required: bool,
    pub indexed: bool,
}

/// A submitted schema form, read but not yet checked.
#[derive(Debug)]
pub struct SchemaForm {
    pub schema_name: String,
    pub version: String,
    pub display_field: String,
    /// One row per field index, in ascending index order.
    pub fields: Vec<FieldDraft>,
}

// ---------------------------------------------------------------------------
// Reading the form
// ---------------------------------------------------------------------------

/// The text between the `'\n'` characters of `s`: one piece more than `s`
/// has newlines.
pub open spec fn line_pieces(s: Seq<char>) -> Seq<Seq<char>>
    decreases s.len(),
{
    if s.len() == 0 {
        seq![Seq::empty()]
    } else {
        let p = line_pieces(s.drop_last());
        if s.last() == '\n' {
            p.push(Seq::empty())
        } else {
            p.update(p.len() - 1, p.last().push(s.last()))
        }
    }
}

/// The pieces, trimmed, without the ones that are blank.
pub open spec fn nonblank(ps: Seq<Seq<char>>) -> Seq<Seq<char>>
    decreases ps.len(),
{
    if ps.len() == 0 {
        Seq::empty()
    } else {
        let r = nonblank(ps.drop_last());
        if trim(ps.last()).len() == 0 {
            r
        } else {
            r.push(trim(ps.last()))
        }
    }
}

/// The enum variants a textarea lists: its lines, trimmed, blank ones
/// left out.
pub open spec fn listed_variants(s: Seq<char>) -> Seq<Seq<char>> {
    nonblank(line_pieces(s))
}

proof fn lemma_line_pieces_len(s: Seq<char>)
    ensures
        line_pieces(s).len() >= 1,
    decreases s.len(),
{
    if s.len() > 0 {
        lemma_line_pieces_len(s.drop_last());
    }
}

/// Adds `piece`, trimmed, to `out` unless it is blank.
fn push_nonblank(out: &mut Vec<String>, piece: &Vec<char>)
    ensures
        views(final(out)@) == (if trim(piece@).len() == 0 {
            views(old(out)@)
        } else {
            views(old(out)@).push(trim(piece@))
        }),
{
    let t = trim_chars(piece.as_slice());
    if t.len() > 0 {
        let ghost before = views(out@);
        out.push(string_from(t.as_slice()));
        assert(views(out@) =~= before.push(trim(piece@)));
    }
}

/// The enum variants listed in `s`.
fn variants_of(s: &String) -> (r: Vec<String>)
    ensures
        views(r@) == listed_variants(s@),
{
    let cs = chars_of(s.as_str());
    let mut out: Vec<String> = Vec::new();
    let mut cur: Vec<char> = Vec::new();
    let mut i: usize = 0;
    proof {
        assert(cs@.subrange(0, 0) =~= Seq::<char>::empty());
    }
    while i < cs.len()
        invariant
            i <= cs@.len(),
            cs@ == s@,
            line_pieces(cs@.subrange(0, i as int)).len() >= 1,
            views(out@) == nonblank(line_pieces(cs@.subrange(0, i as int)).drop_last()),
            cur@ == line_pieces(cs@.subrange(0, i as int)).last(),
        decreases cs@.len() - i,
    {
        let ghost pre = cs@.subrange(0, i as int);
        let ghost next = cs@.subrange(0, i + 1);
        assert(next.drop_last() =~= pre);
        assert(next.last() == cs@[i as int]);
        let ghost p = line_pieces(pre);
        if cs[i] == '\n' {
            assert(line_pieces(next) == p.push(Seq::empty()));
            assert(line_pieces(next).drop_last() =~= p);
            assert(p.drop_last().push(p.last()) =~= p);
            push_nonblank(&mut out, &cur);
            cur = Vec::new();
            proof {
                assert(p.drop_last() == p.drop_last());
                assert(nonblank(p) == (if trim(p.last()).len() == 0 {
                    nonblank(p.drop_last())
                } else {
                    nonblank(p.drop_last()).push(trim(p.last()))
                }));
                assert(cur@ =~= line_pieces(next).last());
            }
        } else {
            let ghost q = p.update(p.len() - 1, p.last().push(cs@[i as int]));
            assert(line_pieces(next) == q);
            assert(q.drop_last() =~= p.drop_last());
            cur.push(cs[i]);
        }
        i += 1;
    }
    proof {
        assert(cs@.subrange(0, i as int) =~= s@);
        let p = line_pieces(s@);
        assert(p.drop_last().push(p.last()) =~= p);
    }
    push_nonblank(&mut out, &cur);
    out
}

/// The draft that the form data describes for field `idx`.
pub open spec fn draft_from_form(d: FieldDraft, form: Seq<(Seq<char>, Seq<char>)>, idx: nat) -> bool {
    &&& d.index == idx
    &&& d.name@ == lookup_or(form, row_key(idx, "name"@), Seq::empty())
    &&& d.field_type@ == lookup_or(form, row_key(idx, "type"@), Seq::empty())
    &&& int_of_u32(d.text_max_length) == lookup_unsigned(form, row_key(idx, "text_max_length"@), u32::MAX as int)
    &&& int_of_i64(d.integer_min) == lookup_i64(form, row_key(idx, "integer_min"@))
    &&& int_of_i64(d.integer_max) == lookup_i64(form, row_key(idx, "integer_max"@))
    &&& int_of_u32(d.float_precision) == lookup_unsigned(form, row_key(idx, "float_precision"@), u32::MAX as int)
    &&& views(d.enum_variants@) == listed_variants(
        lookup_or(form, row_key(idx, "enum_variants"@), Seq::empty()),
    )
    &&& d.relation_target@ == lookup_or(form, row_key(idx, "relation_target"@), Seq::empty())
    &&& d.relation_many == (lookup_or(form, row_key(idx, "relation_cardinality"@), "one"@) == "many"@)
    &&& d.required == checked_flag(form, row_key(idx, "required"@))
    &&& d.indexed == checked_flag(form, row_key(idx, "indexed"@))
}

fn draft_from_form_data(form: &[(String, String)], idx: usize) -> (d: FieldDraft)
    ensures
        draft_from_form(d, form_view(form@), idx as nat),
{
    proof {
        reveal_strlit("");
        assert(""@ =~= Seq::<char>::empty());
    }
    let n = usize_to_decimal(idx);
    let name = get_or(form, &field_key(&n, "name"), "");
    let field_type = get_or(form, &field_key(&n, "type"), "");
    let text_max_length = match form_get(form, &field_key(&n, "text_max_length")) {
        Some(v) => parse_u32(v.as_str()),
        None => None,
    };
    let integer_min = match form_get(form, &field_key(&n, "integer_min")) {
        Some(v) => parse_i64(v.as_str()),
        None => None,
    };
    let integer_max = match form_get(form, &field_key(&n, "integer_max")) {
        Some(v) => parse_i64(v.as_str()),
        None => None,
    };
    let float_precision = match form_get(form, &field_key(&n, "float_precision")) {
        Some(v) => parse_u32(v.as_str()),
        None => None,
    };
    let enum_variants = variants_of(&get_or(form, &field_key(&n, "enum_variants"), ""));
    let relation_target = get_or(form, &field_key(&n, "relation_target"), "");
    let cardinality = get_or(form, &field_key(&n, "relation_cardinality"), "one");
    let relation_many = cardinality == str_to_string("many");
    let required = get_flag(form, &field_key(&n, "required"));
    let indexed = get_flag(form, &field_key(&n, "indexed"));
    FieldDraft {
        index: idx,
        name,
        field_type,
        text_max_length,
        integer_min,
        integer_max,
        float_precision,
        enum_variants,
        relation_target,
        relation_many,
        required,
        indexed,
    }
}

/// `f` is what the form data `form` says: the schema-level inputs, then
/// one row per field index named by a `field_<N>_name` key, in ascending
/// index order.
pub open spec fn form_read_from(f: SchemaForm, form: Seq<(Seq<char>, Seq<char>)>) -> bool {
    &&& f.schema_name@ == lookup_or(form, "schema_name"@, Seq::empty())
    &&& f.version@ == lookup_or(form, "version"@, Seq::empty())
    &&& f.display_field@ == lookup_or(form, "display_field"@, Seq::empty())
    &&& forall|a: int, b: int| 0 <= a < b < f.fields@.len() ==> f.fields@[a].index < f.fields@[b].index
    &&& forall|x: usize|
        (exists|i: int| 0 <= i < f.fields@.len() && (#[trigger] f.fields@[i]).index == x) <==> is_field_index(
            form,
            x as int,
        )
    &&& forall|i: int|
        0 <= i < f.fields@.len() ==> draft_from_form(#[trigger] f.fields@[i], form, f.fields@[i].index as nat)
}

/// Reads a submitted schema form: the schema-level inputs, then one row
/// per field index named by a `field_<N>_name` key, in ascending index
/// order. When a key is submitted twice, its last value counts.
pub fn parse_schema_form(form_data: &[(String, String)]) -> (f: SchemaForm)
    ensures
        form_read_from(f, form_view(form_data@)),
{
    proof {
        reveal_strlit("");
        assert(""@ =~= Seq::<char>::empty());
    }
    let schema_name = get_or(form_data, &str_to_string("schema_name"), "");
    let version = get_or(form_data, &str_to_string("version"), "");
    let display_field = get_or(form_data, &str_to_string("display_field"), "");
    let indices = form_field_indices(form_data);
    let mut fields: Vec<FieldDraft> = Vec::new();
    let mut i: usize = 0;
    while i < indices.len()
        invariant
            i <= indices@.len(),
            fields@.len() == i,
            forall|j: int| 0 <= j < i ==> (#[trigger] fields@[j]).index == indices@[j],
            forall|j: int|
                0 <= j < i ==> draft_from_form(#[trigger] fields@[j], form_view(form_data@), fields@[j].index as nat),
        decreases indices@.len() - i,
    {
        let d = draft_from_form_data(form_data, indices[i]);
        fields.push(d);
        i += 1;
    }
    proof {
        assert forall|x: usize|
            (exists|i: int| 0 <= i < fields@.len() && (#[trigger] fields@[i]).index == x)
                <==> is_field_index(form_view(form_data@), x as int) by {
            if exists|i: int| 0 <= i < fields@.len() && (#[trigger] fields@[i]).index == x {
                let k = choose|i: int| 0 <= i < fields@.len() && (#[trigger] fields@[i]).index == x;
                assert(indices@[k] == x);
                assert(indices@.contains(x));
            }
            if is_field_index(form_view(form_data@), x as int) {
                assert(indices@.contains(x));
                let k = choose|k: int| 0 <= k < indices@.len() && indices@[k] == x;
                assert(fields@[k].index == x);
            }
        }
    }
    SchemaForm { schema_name, version, display_field, fields }
}

// ---------------------------------------------------------------------------
// Checking the form
// ---------------------------------------------------------------------------

/// The verdicts of the schema-definition rules on what a form submits.
/// Each entry refuses one name or value, with the rule's message; whatever
/// no entry refuses, the rules accept. Where two entries refuse the same
/// thing, the later one's message counts.
#[derive(Debug)]
pub struct RuleVerdicts {
    /// Refused schema names: the schema's own name and relation targets.
    pub schema_names: Vec<(String, String)>,
    /// Refused field names: the fields' names and the display field.
    pub field_names: Vec<(String, String)>,
    /// Refused enum variant lists.
    pub enum_variants: Vec<(Vec<String>, String)>,
    /// Refused `(min, max)` integer ranges.
    pub integer_ranges: Vec<(i64, i64, String)>,
    /// Refused schema versions.
    pub versions: Vec<(u32, String)>,
}

/// The message with which `entries` refuse `name`, if they do.
pub open spec fn refusal(entries: Seq<(String, String)>, name: Seq<char>) -> Option<Seq<char>> {
    form_lookup(form_view(entries), name)
}

/// The message with which `entries` refuse the variant list `list`.
pub open spec fn enum_refusal(entries: Seq<(Vec<String>, String)>, list: Seq<Seq<char>>) -> Option<Seq<char>>
    decreases entries.len(),
{
    if entries.len() == 0 {
        None
    } else if views(entries.last().0@) == list {
        Some(entries.last().1@)
    } else {
        enum_refusal(entries.drop_last(), list)
    }
}

/// The message with which `entries` refuse the range `min..=max`.
pub open spec fn range_refusal(entries: Seq<(i64, i64, String)>, min: i64, max: i64) -> Option<Seq<char>>
    decreases entries.len(),
{
    if entries.len() == 0 {
        None
    } else if entries.last().0 == min && entries.last().1 == max {
        Some(entries.last().2@)
    } else {
        range_refusal(entries.drop_last(), min, max)
    }
}

/// The message with which `entries` refuse version `version`.
pub open spec fn version_refusal(entries: Seq<(u32, String)>, version: int) -> Option<Seq<char>>
    decreases entries.len(),
{
    if entries.len() == 0 {
        None
    } else if entries.last().0 == version {
        Some(entries.last().1@)
    } else {
        version_refusal(entries.drop_last(), version)
    }
}

/// What is wrong with a row's type, once its name is accepted.
pub open spec fn type_error(d: FieldDraft, v: RuleVerdicts) -> Option<Seq<char>> {
    let n = d.name@;
    let k = d.field_type@;
    if k == "text"@ || k == "richtext"@ {
        None
    } else if k == "integer"@ {
        match (d.integer_min, d.integer_max) {
            (Some(a), Some(b)) => match range_refusal(v.integer_ranges@, a, b) {
                Some(e) => Some("Field '"@ + n + "': "@ + e),
                None => None,
            },
            _ => None,
        }
    } else if k == "float"@ || k == "boolean"@ || k == "datetime"@ {
        None
    } else if k == "enum"@ {
        match enum_refusal(v.enum_variants@, views(d.enum_variants@)) {
            Some(e) => Some("Field '"@ + n + "': "@ + e),
            None => None,
        }
    } else if k == "json"@ {
        None
    } else if k == "relation"@ {
        match refusal(v.schema_names@, d.relation_target@) {
            Some(e) => Some(
                "Field '"@ + n + "': invalid relation target '"@ + d.relation_target@ + "': "@ + e,
            ),
            None => None,
        }
    } else {
        Some("Field '"@ + n + "': unknown type '"@ + k + "'"@)
    }
}

/// The type an accepted row declares.
pub open spec fn type_of_draft(t: FieldType, d: FieldDraft) -> bool {
    let k = d.field_type@;
    if k == "text"@ {
        t == FieldType::Text(TextConstraints { max_length: d.text_max_length })
    } else if k == "richtext"@ {
        t == FieldType::RichText
    } else if k == "integer"@ {
        t == FieldType::Integer(IntegerConstraints { min: d.integer_min, max: d.integer_max })
    } else if k == "float"@ {
        t == FieldType::Float(FloatConstraints { precision: d.float_precision })
    } else if k == "boolean"@ {
        t == FieldType::Boolean
    } else if k == "datetime"@ {
        t == FieldType::DateTime
    } else if k == "enum"@ {
        match t {
            FieldType::Enum(vs) => views(vs@) == views(d.enum_variants@),
            _ => false,
        }
    } else if k == "json"@ {
        t == FieldType::Json
    } else if k == "relation"@ {
        match t {
            FieldType::Relation { target, many } => target@ == d.relation_target@ && many == d.relation_many,
            _ => false,
        }
    } else {
        false
    }
}

/// A row's name is taken when it is non-empty, the naming rules accept
/// it and no earlier row took it.
pub open spec fn row_takes_name(d: FieldDraft, seen: Seq<Seq<char>>, v: RuleVerdicts) -> bool {
    &&& d.name@.len() > 0
    &&& refusal(v.field_names@, d.name@) is None
    &&& !seen.contains(d.name@)
}

/// What is wrong with a row, given the names earlier rows took.
pub open spec fn row_error(d: FieldDraft, seen: Seq<Seq<char>>, v: RuleVerdicts) -> Option<Seq<char>> {
    let n = d.name@;
    if n.len() == 0 {
        Some("Field "@ + decimal(d.index as nat) + " has an empty name"@)
    } else {
        match refusal(v.field_names@, n) {
            Some(e) => Some("Invalid field name '"@ + n + "': "@ + e),
            None => if seen.contains(n) {
                Some("Duplicate field name '"@ + n + "'"@)
            } else {
                type_error(d, v)
            },
        }
    }
}

/// The names the rows take, in order.
pub open spec fn names_taken(rows: Seq<FieldDraft>, v: RuleVerdicts) -> Seq<Seq<char>>
    decreases rows.len(),
{
    if rows.len() == 0 {
        Seq::empty()
    } else {
        let seen = names_taken(rows.drop_last(), v);
        if row_takes_name(rows.last(), seen, v) {
            seen.push(rows.last().name@)
        } else {
            seen
        }
    }
}

/// The errors of the rows, in row order.
pub open spec fn rows_errors(rows: Seq<FieldDraft>, v: RuleVerdicts) -> Seq<Seq<char>>
    decreases rows.len(),
{
    if rows.len() == 0 {
        Seq::empty()
    } else {
        let before = rows_errors(rows.drop_last(), v);
        match row_error(rows.last(), names_taken(rows.drop_last(), v), v) {
            Some(m) => before.push(m),
            None => before,
        }
    }
}

/// The error on the schema's name.
pub open spec fn schema_name_errors(f: SchemaForm, v: RuleVerdicts) -> Seq<Seq<char>> {
    match refusal(v.schema_names@, f.schema_name@) {
        Some(e) => seq!["Invalid schema name '"@ + f.schema_name@ + "': "@ + e],
        None => Seq::empty(),
    }
}

/// The error on a form without fields.
pub open spec fn field_count_errors(f: SchemaForm) -> Seq<Seq<char>> {
    if f.fields@.len() == 0 {
        seq!["At least one field is required"@]
    } else {
        Seq::empty()
    }
}

/// The error on the version, when one is given.
pub open spec fn version_errors(f: SchemaForm, v: RuleVerdicts) -> Seq<Seq<char>> {
    let t = f.version@;
    if t.len() == 0 {
        Seq::empty()
    } else {
        match parse_unsigned(t, u32::MAX as int) {
            None => seq!["Version '"@ + t + "' is not a valid number"@],
            Some(n) => match version_refusal(v.versions@, n) {
                Some(e) => seq!["Invalid version '"@ + t + "': "@ + e],
                None => Seq::empty(),
            },
        }
    }
}

/// The error on the display field, when one is given.
pub open spec fn display_errors(f: SchemaForm, v: RuleVerdicts) -> Seq<Seq<char>> {
    let d = f.display_field@;
    if d.len() == 0 {
        Seq::empty()
    } else {
        match refusal(v.field_names@, d) {
            Some(e) => seq!["Invalid display field '"@ + d + "': "@ + e],
            None => Seq::empty(),
        }
    }
}

/// Every error of a form, in the order they are reported: the schema
/// name, the absence of fields, the rows, the version, the display field.
pub open spec fn form_errors(f: SchemaForm, v: RuleVerdicts) -> Seq<Seq<char>> {
    schema_name_errors(f, v) + field_count_errors(f) + rows_errors(f.fields@, v) + version_errors(f, v)
        + display_errors(f, v)
}

/// Rows without errors each take their own name: the names taken are the
/// rows' names, in order, none empty and no two alike.
proof fn lemma_rows_take_their_names(rows: Seq<FieldDraft>, v: RuleVerdicts)
    requires
        rows_errors(rows, v).len() == 0,
    ensures
        names_taken(rows, v) == rows.map_values(|d: FieldDraft| d.name@),
        forall|i: int| 0 <= i < rows.len() ==> (#[trigger] rows[i]).name@.len() > 0,
        forall|i: int, j: int| 0 <= i < j < rows.len() ==> (#[trigger] rows[i]).name@ != (#[trigger] rows[j]).name@,
    decreases rows.len(),
{
    if rows.len() > 0 {
        let pre = rows.drop_last();
        let d = rows.last();
        lemma_rows_take_their_names(pre, v);
        let seen = names_taken(pre, v);
        assert(row_error(d, seen, v) is None);
        assert(row_takes_name(d, seen, v));
        assert(rows.map_values(|d: FieldDraft| d.name@) =~= pre.map_values(|d: FieldDraft| d.name@).push(d.name@));
        assert forall|i: int, j: int| 0 <= i < j < rows.len() implies (#[trigger] rows[i]).name@ != (
        #[trigger] rows[j]).name@ by {
            if j == rows.len() - 1 {
                assert(seen[i] == rows[i].name@);
                assert(seen.contains(rows[i].name@));
            } else {
                assert(rows[i] == pre[i] && rows[j] == pre[j]);
            }
        }
        assert forall|i: int| 0 <= i < rows.len() implies (#[trigger] rows[i]).name@.len() > 0 by {
            if i < rows.len() - 1 {
                assert(rows[i] == pre[i]);
            }
        }
    }
}

/// The field an accepted row describes.
pub open spec fn field_of(f: FieldDefinition, d: FieldDraft) -> bool {
    &&& f.name@ == d.name@
    &&& type_of_draft(f.field_type, d)
    &&& f.required == d.required
    &&& f.indexed == d.indexed
    &&& f.default is None
    &&& !f.hidden
    &&& !f.owner
    &&& f.field_access is None
}

/// The schema an accepted form describes.
pub open spec fn schema_of(s: SchemaDefinition, f: SchemaForm) -> bool {
    &&& s.name@ == f.schema_name@
    &&& s.fields@.len() == f.fields@.len()
    &&& forall|i: int| 0 <= i < f.fields@.len() ==> field_of(#[trigger] s.fields@[i], f.fields@[i])
    &&& s.access is None
    &&& int_of_u32(s.version) == (if f.version@.len() == 0 {
        None
    } else {
        parse_unsigned(f.version@, u32::MAX as int)
    })
    &&& opt_view(s.display_field) == (if f.display_field@.len() == 0 {
        None
    } else {
        Some(f.display_field@)
    })
    &&& !s.system
}

fn refusal_of(entries: &Vec<(String, String)>, name: &String) -> (r: Option<String>)
    ensures
        opt_view(r) == refusal(entries@, name@),
{
    match form_get(entries.as_slice(), name) {
        Some(e) => Some(e.clone()),
        None => None,
    }
}

fn same_strings(a: &Vec<String>, b: &Vec<String>) -> (r: bool)
    ensures
        r == (views(a@) == views(b@)),
{
    if a.len() != b.len() {
        proof {
            if views(a@) == views(b@) {
                assert(views(a@).len() == views(b@).len());
            }
        }
        return false;
    }
    let mut i: usize = 0;
    while i < a.len()
        invariant
            i <= a@.len(),
            a@.len() == b@.len(),
            forall|k: int| 0 <= k < i ==> a@[k]@ == b@[k]@,
        decreases a@.len() - i,
    {
        if a[i] != b[i] {
            proof {
                if views(a@) == views(b@) {
                    assert(views(a@)[i as int] == views(b@)[i as int]);
                }
            }
            return false;
        }
        i += 1;
    }
    assert(views(a@) =~= views(b@));
    true
}

fn enum_refusal_of(entries: &Vec<(Vec<String>, String)>, list: &Vec<String>) -> (r: Option<String>)
    ensures
        opt_view(r) == enum_refusal(entries@, views(list@)),
{
    let mut i: usize = entries.len();
    assert(entries@.subrange(0, i as int) =~= entries@);
    while i > 0
        invariant
            i <= entries@.len(),
            enum_refusal(entries@, views(list@)) == enum_refusal(entries@.subrange(0, i as int), views(list@)),
        decreases i,
    {
        let ghost t = entries@.subrange(0, i as int);
        assert(t.drop_last() =~= entries@.subrange(0, i - 1));
        assert(t.last() == entries@[i - 1]);
        if same_strings(&entries[i - 1].0, list) {
            return Some(entries[i - 1].1.clone());
        }
        i -= 1;
    }
    None
}

fn range_refusal_of(entries: &Vec<(i64, i64, String)>, min: i64, max: i64) -> (r: Option<String>)
    ensures
        opt_view(r) == range_refusal(entries@, min, max),
{
    let mut i: usize = entries.len();
    assert(entries@.subrange(0, i as int) =~= entries@);
    while i > 0
        invariant
            i <= entries@.len(),
            range_refusal(entries@, min, max) == range_refusal(entries@.subrange(0, i as int), min, max),
        decreases i,
    {
        let ghost t = entries@.subrange(0, i as int);
        assert(t.drop_last() =~= entries@.subrange(0, i - 1));
        assert(t.last() == entries@[i - 1]);
        if entries[i - 1].0 == min && entries[i - 1].1 == max {
            return Some(entries[i - 1].2.clone());
        }
        i -= 1;
    }
    None
}

fn version_refusal_of(entries: &Vec<(u32, String)>, version: u32) -> (r: Option<String>)
    ensures
        opt_view(r) == version_refusal(entries@, version as int),
{
    let mut i: usize = entries.len();
    assert(entries@.subrange(0, i as int) =~= entries@);
    while i > 0
        invariant
            i <= entries@.len(),
            version_refusal(entries@, version as int) == version_refusal(
                entries@.subrange(0, i as int),
                version as int,
            ),
        decreases i,
    {
        let ghost t = entries@.subrange(0, i as int);
        assert(t.drop_last() =~= entries@.subrange(0, i - 1));
        assert(t.last() == entries@[i - 1]);
        if entries[i - 1].0 == version {
            return Some(entries[i - 1].1.clone());
        }
        i -= 1;
    }
    None
}

/// `a` followed by `x` and `b`.
fn message3(a: &str, x: &String, b: &str) -> (r: String)
    ensures
        r@ == a@ + x@ + b@,
{
    let mut r = str_to_string(a);
    push_str(&mut r, x.as_str());
    push_str(&mut r, b);
    r
}

/// `a` followed by `x`, `b` and `e`.
fn message4(a: &str, x: &String, b: &str, e: &String) -> (r: String)
    ensures
        r@ == a@ + x@ + b@ + e@,
{
    let mut r = message3(a, x, b);
    push_str(&mut r, e.as_str());
    r
}

fn is_named(s: &String, name: &str) -> (b: bool)
    ensures
        b == (s@ == name@),
{
    *s == str_to_string(name)
}

/// The type of a row whose name is accepted, or what is wrong with it.
fn check_type(d: &FieldDraft, v: &RuleVerdicts) -> (r: Result<FieldType, String>)
    ensures
        match r {
            Ok(t) => type_error(*d, *v) is None && type_of_draft(t, *d),
            Err(m) => type_error(*d, *v) == Some(m@),
        },
{
    let k = &d.field_type;
    if is_named(k, "text") {
        Ok(FieldType::Text(TextConstraints { max_length: d.text_max_length }))
    } else if is_named(k, "richtext") {
        Ok(FieldType::RichText)
    } else if is_named(k, "integer") {
        match (d.integer_min, d.integer_max) {
            (Some(a), Some(b)) => match range_refusal_of(&v.integer_ranges, a, b) {
                Some(e) => Err(message4("Field '", &d.name, "': ", &e)),
                None => Ok(FieldType::Integer(IntegerConstraints { min: d.integer_min, max: d.integer_max })),
            },
            _ => Ok(FieldType::Integer(IntegerConstraints { min: d.integer_min, max: d.integer_max })),
        }
    } else if is_named(k, "float") {
        Ok(FieldType::Float(FloatConstraints { precision: d.float_precision }))
    } else if is_named(k, "boolean") {
        Ok(FieldType::Boolean)
    } else if is_named(k, "datetime") {
        Ok(FieldType::DateTime)
    } else if is_named(k, "enum") {
        match enum_refusal_of(&v.enum_variants, &d.enum_variants) {
            Some(e) => Err(message4("Field '", &d.name, "': ", &e)),
            None => Ok(FieldType::Enum(copy_strings(&d.enum_variants))),
        }
    } else if is_named(k, "json") {
        Ok(FieldType::Json)
    } else if is_named(k, "relation") {
        match refusal_of(&v.schema_names, &d.relation_target) {
            Some(e) => {
                let mut m = message4("Field '", &d.name, "': invalid relation target '", &d.relation_target);
                push_str(&mut m, "': ");
                push_str(&mut m, e.as_str());
                Err(m)
            },
            None => Ok(FieldType::Relation { target: d.relation_target.clone(), many: d.relation_many }),
        }
    } else {
        let mut m = message4("Field '", &d.name, "': unknown type '", k);
        push_str(&mut m, "'");
        Err(m)
    }
}

/// The field a row describes, or what is wrong with it, given the names
/// earlier rows took.
fn check_row(d: &FieldDraft, seen: &Vec<String>, v: &RuleVerdicts) -> (r: Result<FieldDefinition, String>)
    ensures
        match r {
            Ok(f) => row_error(*d, views(seen@), *v) is None && field_of(f, *d),
            Err(m) => row_error(*d, views(seen@), *v) == Some(m@),
        },
{
    if d.name.as_str().is_empty() {
        return Err(message3("Field ", &usize_to_decimal(d.index), " has an empty name"));
    }
    match refusal_of(&v.field_names, &d.name) {
        Some(e) => {
            return Err(message4("Invalid field name '", &d.name, "': ", &e));
        },
        None => {},
    }
    if contains_view(seen.as_slice(), &d.name) {
        return Err(message3("Duplicate field name '", &d.name, "'"));
    }
    match check_type(d, v) {
        Ok(t) => {
            let mut f = FieldDefinition::new(d.name.clone(), t);
            f.required = d.required;
            f.indexed = d.indexed;
            Ok(f)
        },
        Err(m) => Err(m),
    }
}

/// Checks a read form against the rules' verdicts. The result is the
/// schema the form describes exactly when the form has no error; else it
/// is every error, in the order `form_errors` lists them.
pub fn schema_from_form(form: &SchemaForm, id: String, verdicts: &RuleVerdicts) -> (r: Result<SchemaDefinition, Vec<String>>)
    ensures
        ({
            let errors = form_errors(*form, *verdicts);
            &&& r is Ok <==> errors.len() == 0
            &&& r matches Err(es) ==> views(es@) == errors
            &&& r matches Ok(s) ==> schema_of(s, *form) && s.id@ == id@
            &&& r matches Ok(s) ==> forall|i: int, j: int|
                0 <= i < j < s.fields@.len() ==> (#[trigger] s.fields@[i]).name@ != (#[trigger] s.fields@[j]).name@
        }),
{
    let ghost v = *verdicts;
    let ghost rows = form.fields@;
    let mut errors: Vec<String> = Vec::new();
    match refusal_of(&verdicts.schema_names, &form.schema_name) {
        Some(e) => errors.push(message4("Invalid schema name '", &form.schema_name, "': ", &e)),
        None => {},
    }
    if form.fields.len() == 0 {
        errors.push(str_to_string("At least one field is required"));
    }
    let ghost head = views(errors@);
    assert(head =~= schema_name_errors(*form, v) + field_count_errors(*form));
    let mut fields: Vec<FieldDefinition> = Vec::new();
    let mut seen: Vec<String> = Vec::new();
    let mut i: usize = 0;
    assert(rows.subrange(0, 0) =~= Seq::<FieldDraft>::empty());
    while i < form.fields.len()
        invariant
            i <= rows.len(),
            rows == form.fields@,
            v == *verdicts,
            views(errors@) == head + rows_errors(rows.subrange(0, i as int), v),
            views(seen@) == names_taken(rows.subrange(0, i as int), v),
            rows_errors(rows.subrange(0, i as int), v).len() == 0 ==> {
                &&& fields@.len() == i
                &&& forall|j: int| 0 <= j < i ==> field_of(#[trigger] fields@[j], rows[j])
            },
        decreases rows.len() - i,
    {
        let ghost pre = rows.subrange(0, i as int);
        let ghost next = rows.subrange(0, i + 1);
        assert(next.drop_last() =~= pre);
        assert(next.last() == rows[i as int]);
        let d = &form.fields[i];
        let takes = !d.name.as_str().is_empty() && refusal_of(&verdicts.field_names, &d.name).is_none()
            && !contains_view(seen.as_slice(), &d.name);
        assert(takes == row_takes_name(*d, views(seen@), v));
        let ghost errors_before = views(errors@);
        match check_row(d, &seen, verdicts) {
            Ok(f) => {
                fields.push(f);
            },
            Err(m) => {
                errors.push(m);
                assert(views(errors@) =~= errors_before.push(m@));
            },
        }
        if takes {
            let ghost seen_before = views(seen@);
            seen.push(d.name.clone());
            assert(views(seen@) =~= seen_before.push(d.name@));
        }
        i += 1;
        proof {
            assert(views(errors@) =~= head + rows_errors(next, v));
            if rows_errors(next, v).len() == 0 {
                assert(rows_errors(pre, v).len() == 0);
                assert(row_error(rows[i - 1], names_taken(pre, v), v) is None);
            }
        }
    }
    assert(rows.subrange(0, i as int) =~= rows);
    let ghost row_part = views(errors@);
    let mut version: Option<u32> = None;
    if !form.version.as_str().is_empty() {
        match parse_u32(form.version.as_str()) {
            None => errors.push(message3("Version '", &form.version, "' is not a valid number")),
            Some(n) => match version_refusal_of(&verdicts.versions, n) {
                Some(e) => errors.push(message4("Invalid version '", &form.version, "': ", &e)),
                None => {
                    version = Some(n);
                },
            },
        }
    }
    let ghost version_part = views(errors@);
    assert(version_part =~= row_part + version_errors(*form, v));
    let mut display_field: Option<String> = None;
    if !form.display_field.as_str().is_empty() {
        match refusal_of(&verdicts.field_names, &form.display_field) {
            Some(e) => errors.push(message4("Invalid display field '", &form.display_field, "': ", &e)),
            None => {
                display_field = Some(form.display_field.clone());
            },
        }
    }
    proof {
        assert(views(errors@) =~= version_part + display_errors(*form, v));
        assert(views(errors@) =~= form_errors(*form, v));
    }
    if errors.len() > 0 {
        Err(errors)
    } else {
        proof {
            assert(rows_errors(rows, v).len() == 0);
            lemma_rows_take_their_names(rows, v);
        }
        Ok(SchemaDefinition {
            id,
            name: form.schema_name.clone(),
            fields,
            access: None,
            version,
            display_field,
            system: false,
        })
    }
}

/// Reads a submitted schema-editor form and checks it against the rules'
/// verdicts: the schema the form describes, or every error it has. An
/// edited schema keeps its `existing_id`; a new one gets a fresh id, a
/// random UUID in simple form.
pub fn form_to_schema_definition(form_data: &[(String, String)], existing_id: Option<String>, verdicts: &RuleVerdicts) -> (r: Result<
    SchemaDefinition,
    Vec<String>,
>)
    ensures
        exists|form: SchemaForm|
            {
                &&& #[trigger] form_read_from(form, form_view(form_data@))
                &&& (r is Ok <==> form_errors(form, *verdicts).len() == 0)
                &&& (r matches Err(es) ==> views(es@) == form_errors(form, *verdicts))
                &&& (r matches Ok(s) ==> schema_of(s, form))
                &&& (r matches Ok(s) ==> match existing_id {
                    Some(prev) => s.id@ == prev@,
                    None => is_simple_v4_uuid(s.id@),
                })
                &&& (r matches Ok(s) ==> forall|i: int, j: int|
                    0 <= i < j < s.fields@.len() ==> (#[trigger] s.fields@[i]).name@ != (
                    #[trigger] s.fields@[j]).name@)
            },
{
    let form = parse_schema_form(form_data);
    let id = match existing_id {
        Some(i) => i,
        None => random_uuid_simple(),
    };
    let r = schema_from_form(&form, id, verdicts);
    assert(r matches Ok(s) ==> schema_of(s, form));
    r
}

} // verus!
