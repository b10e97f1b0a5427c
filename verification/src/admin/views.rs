//! View models for the admin schema editor, migration preview and
//! relationship graph.
use vstd::prelude::*;

use crate::decimal::{decimal, u32_to_decimal, usize_to_decimal};
use crate::definition::{FieldDefinition, FieldType, SchemaDefinition};
use crate::text::{join_seq, join_strings, push_str, str_to_string, views};

verus! {

/// A single field row in the schema editor form.
#[derive(Debug, Clone)]
pub struct FieldEditorRow {
    pub index: usize,
    pub name: String,
    pub old_name: Option<String>,
    pub field_type: String,
    pub required: bool,
    pub indexed: bool,
    pub default_enabled: bool,
    pub default_value: String,
    pub text_max_length: Option<u32>,
    pub integer_min: Option<i64>,
    pub integer_max: Option<i64>,
    pub float_precision: Option<u32>,
    pub enum_variants: String,
    pub relation_target: String,
    pub relation_cardinality: String,
}

/// The view of an optional string.
pub open spec fn opt_view(o: Option<String>) -> Option<Seq<char>> {
    match o {
        Some(s) => Some(s@),
        None => None,
    }
}

/// The row that "Add Field" starts from: a text field with nothing set.
pub open spec fn is_empty_row(row: FieldEditorRow, index: usize) -> bool {
    &&& row.index == index
    &&& row.name@ == Seq::<char>::empty()
    &&& row.old_name is None
    &&& row.field_type@ == "text"@
    &&& !row.required
    &&& !row.indexed
    &&& !row.default_enabled
    &&& row.default_value@ == Seq::<char>::empty()
    &&& row.text_max_length is None
    &&& row.integer_min is None
    &&& row.integer_max is None
    &&& row.float_precision is None
    &&& row.enum_variants@ == Seq::<char>::empty()
    &&& row.relation_target@ == Seq::<char>::empty()
    &&& row.relation_cardinality@ == "one"@
}

impl FieldEditorRow {
    /// Create an empty field row for "Add Field".
    pub fn empty(index: usize) -> (row: Self)
        ensures
            is_empty_row(row, index),
    {
        FieldEditorRow {
            index,
            name: String::new(),
            old_name: None,
            field_type: str_to_string("text"),
            required: false,
            indexed: false,
            default_enabled: false,
            default_value: String::new(),
            text_max_length: None,
            integer_min: None,
            integer_max: None,
            float_precision: None,
            enum_variants: String::new(),
            relation_target: String::new(),
            relation_cardinality: str_to_string("one"),
        }
    }
}

/// The editor's name for a field type; types the editor has no input for
/// show as `text`.
pub open spec fn editor_type_name(ft: FieldType) -> Seq<char> {
    match ft {
        FieldType::Text(_) => "text"@,
        FieldType::RichText => "richtext"@,
        FieldType::Integer(_) => "integer"@,
        FieldType::Float(_) => "float"@,
        FieldType::Boolean => "boolean"@,
        FieldType::DateTime => "datetime"@,
        FieldType::Enum(_) => "enum"@,
        FieldType::Json => "json"@,
        FieldType::Relation { .. } => "relation"@,
        _ => "text"@,
    }
}

/// The editor row of field `f` at position `index`: the name (also as the
/// name to rename from), the modifiers, the default value's text, and the
/// constraint inputs of the field's type, every other input left blank.
pub open spec fn row_of_definition(row: FieldEditorRow, index: usize, f: FieldDefinition) -> bool {
    &&& row.index == index
    &&& row.name@ == f.name@
    &&& opt_view(row.old_name) == Some(f.name@)
    &&& row.field_type@ == editor_type_name(f.field_type)
    &&& row.required == f.required
    &&& row.indexed == f.indexed
    &&& row.default_enabled == f.default is Some
    &&& row.default_value@ == (match f.default {
        Some(d) => d@,
        None => Seq::empty(),
    })
    &&& row.text_max_length == (match f.field_type {
        FieldType::Text(c) => c.max_length,
        _ => None,
    })
    &&& row.integer_min == (match f.field_type {
        FieldType::Integer(c) => c.min,
        _ => None,
    })
    &&& row.integer_max == (match f.field_type {
        FieldType::Integer(c) => c.max,
        _ => None,
    })
    &&& row.float_precision == (match f.field_type {
        FieldType::Float(c) => c.precision,
        _ => None,
    })
    &&& row.enum_variants@ == (match f.field_type {
        FieldType::Enum(vs) => join_seq(views(vs@), "\n"@),
        _ => Seq::empty(),
    })
    &&& row.relation_target@ == (match f.field_type {
        FieldType::Relation { target, .. } => target@,
        _ => Seq::empty(),
    })
    &&& row.relation_cardinality@ == (match f.field_type {
        FieldType::Relation { many: true, .. } => "many"@,
        _ => "one"@,
    })
}

impl FieldEditorRow {
    /// The editor row of an existing field at position `index`.
    pub fn from_definition(index: usize, field: &FieldDefinition) -> (row: Self)
        ensures
            row_of_definition(row, index, *field),
    {
        let name = field.name.clone();
        let (default_enabled, default_value) = match &field.default {
            Some(v) => (true, v.clone()),
            None => (false, String::new()),
        };
        let mut row = FieldEditorRow::empty(index);
        row.old_name = Some(name.clone());
        row.name = name;
        row.required = field.required;
        row.indexed = field.indexed;
        row.default_enabled = default_enabled;
        row.default_value = default_value;
        match &field.field_type {
            FieldType::Text(c) => {
                row.text_max_length = c.max_length;
            },
            FieldType::RichText => {
                row.field_type = str_to_string("richtext");
            },
            FieldType::Integer(c) => {
                row.field_type = str_to_string("integer");
                row.integer_min = c.min;
                row.integer_max = c.max;
            },
            FieldType::Float(c) => {
                row.field_type = str_to_string("float");
                row.float_precision = c.precision;
            },
            FieldType::Boolean => {
                row.field_type = str_to_string("boolean");
            },
            FieldType::DateTime => {
                row.field_type = str_to_string("datetime");
            },
            FieldType::Enum(variants) => {
                row.field_type = str_to_string("enum");
                row.enum_variants = join_strings(variants.as_slice(), "\n");
            },
            FieldType::Json => {
                row.field_type = str_to_string("json");
            },
            FieldType::Relation { target, many } => {
                row.field_type = str_to_string("relation");
                row.relation_target = target.clone();
                if *many {
                    row.relation_cardinality = str_to_string("many");
                }
            },
            _ => {},
        }
        row
    }
}

/// Schema editor form view model.
#[derive(Debug, Clone)]
pub struct SchemaEditorView {
    pub schema_name: String,
    pub version: String,
    pub display_field: String,
    pub fields: Vec<FieldEditorRow>,
    pub is_edit: bool,
    pub existing_name: Option<String>,
}

impl SchemaEditorView {
    /// Create an empty editor view for new schema creation: no name, no
    /// version, one empty row at index 0.
    pub fn new_empty() -> (v: Self)
        ensures
            v.schema_name@ == Seq::<char>::empty(),
            v.version@ == Seq::<char>::empty(),
            v.display_field@ == Seq::<char>::empty(),
            v.fields@.len() == 1,
            is_empty_row(v.fields@[0], 0),
            !v.is_edit,
            v.existing_name is None,
    {
        let mut fields: Vec<FieldEditorRow> = Vec::new();
        fields.push(FieldEditorRow::empty(0));
        SchemaEditorView {
            schema_name: String::new(),
            version: String::new(),
            display_field: String::new(),
            fields,
            is_edit: false,
            existing_name: None,
        }
    }
}

impl SchemaEditorView {
    /// The editor of an existing schema: its name (also as the name being
    /// edited), its `@version` and `@display` annotations or blanks, and one
    /// row per field in declaration order.
    pub fn from_definition(schema: &SchemaDefinition) -> (v: Self)
        ensures
            v.schema_name@ == schema.name@,
            v.version@ == (match schema.version {
                Some(n) => decimal(n as nat),
                None => Seq::empty(),
            }),
            v.display_field@ == (match schema.display_field {
                Some(d) => d@,
                None => Seq::empty(),
            }),
            v.fields@.len() == schema.fields@.len(),
            forall|i: int|
                0 <= i < schema.fields@.len() ==> row_of_definition(
                    #[trigger] v.fields@[i],
                    i as usize,
                    schema.fields@[i],
                ),
            v.is_edit,
            opt_view(v.existing_name) == Some(schema.name@),
    {
        let schema_name = schema.name.clone();
        let version = match schema.version {
            Some(n) => u32_to_decimal(n),
            None => String::new(),
        };
        let display_field = match &schema.display_field {
            Some(d) => d.clone(),
            None => String::new(),
        };
        let mut fields: Vec<FieldEditorRow> = Vec::new();
        let mut i: usize = 0;
        while i < schema.fields.len()
            invariant
                i <= schema.fields@.len(),
                fields@.len() == i,
                forall|j: int|
                    0 <= j < i ==> row_of_definition(#[trigger] fields@[j], j as usize, schema.fields@[j]),
            decreases schema.fields@.len() - i,
        {
            fields.push(FieldEditorRow::from_definition(i, &schema.fields[i]));
            i += 1;
        }
        SchemaEditorView {
            schema_name: schema_name.clone(),
            version,
            display_field,
            fields,
            is_edit: true,
            existing_name: Some(schema_name),
        }
    }
}

/// How risky a migration step is.
#[derive(Debug, Clone, Copy, PartialEq, Eq)]
pub enum MigrationSafety {
    Safe,
    RequiresConfirmation,
    Destructive,
}

/// The label and badge class shown for a safety level.
pub open spec fn safety_label(s: MigrationSafety) -> Seq<char> {
    match s {
        MigrationSafety::Safe => "Safe"@,
        MigrationSafety::RequiresConfirmation => "Requires Confirmation"@,
        MigrationSafety::Destructive => "Destructive"@,
    }
}

pub open spec fn safety_class(s: MigrationSafety) -> Seq<char> {
    match s {
        MigrationSafety::Safe => "badge-success"@,
        MigrationSafety::RequiresConfirmation => "badge-warning"@,
        MigrationSafety::Destructive => "badge-error"@,
    }
}

fn safety_label_text(s: MigrationSafety) -> (r: String)
    ensures
        r@ == safety_label(s),
{
    match s {
        MigrationSafety::Safe => str_to_string("Safe"),
        MigrationSafety::RequiresConfirmation => str_to_string("Requires Confirmation"),
        MigrationSafety::Destructive => str_to_string("Destructive"),
    }
}

/// A single migration step for display.
#[derive(Debug, Clone)]
pub struct MigrationStepView {
    pub description: String,
    pub safety: String,
    pub safety_class: String,
}

impl MigrationStepView {
    /// The display row of one step, from its description text and safety.
    pub fn from_step(description: String, safety: MigrationSafety) -> (v: Self)
        ensures
            v.description@ == description@,
            v.safety@ == safety_label(safety),
            v.safety_class@ == safety_class(safety),
    {
        let class = match safety {
            MigrationSafety::Safe => str_to_string("badge-success"),
            MigrationSafety::RequiresConfirmation => str_to_string("badge-warning"),
            MigrationSafety::Destructive => str_to_string("badge-error"),
        };
        MigrationStepView { description, safety: safety_label_text(safety), safety_class: class }
    }
}

/// Migration preview panel view model.
#[derive(Debug, Clone)]
pub struct MigrationPreviewView {
    pub steps: Vec<MigrationStepView>,
    pub overall_safety: String,
    pub is_empty: bool,
}

impl MigrationPreviewView {
    /// The preview of a plan, from its steps (description and safety, in
    /// order) and its overall safety.
    pub fn from_plan(steps: Vec<(String, MigrationSafety)>, overall: MigrationSafety) -> (v: Self)
        ensures
            v.steps@.len() == steps@.len(),
            forall|i: int|
                0 <= i < steps@.len() ==> {
                    &&& (#[trigger] v.steps@[i]).description@ == steps@[i].0@
                    &&& v.steps@[i].safety@ == safety_label(steps@[i].1)
                    &&& v.steps@[i].safety_class@ == safety_class(steps@[i].1)
                },
            v.overall_safety@ == safety_label(overall),
            v.is_empty == (steps@.len() == 0),
    {
        let mut out: Vec<MigrationStepView> = Vec::new();
        let mut rest = steps;
        let ghost given = rest@;
        let mut i: usize = 0;
        while i < rest.len()
            invariant
                rest@ == given,
                i <= rest@.len(),
                out@.len() == i,
                forall|j: int|
                    0 <= j < i ==> {
                        &&& (#[trigger] out@[j]).description@ == given[j].0@
                        &&& out@[j].safety@ == safety_label(given[j].1)
                        &&& out@[j].safety_class@ == safety_class(given[j].1)
                    },
            decreases rest@.len() - i,
        {
            let description = rest[i].0.clone();
            let safety = rest[i].1;
            out.push(MigrationStepView::from_step(description, safety));
            i += 1;
        }
        let is_empty = out.len() == 0;
        MigrationPreviewView { steps: out, overall_safety: safety_label_text(overall), is_empty }
    }
}

/// Dashboard entry for a schema with its entity count.
#[derive(Debug, Clone)]
pub struct DashboardEntry {
    pub schema_name: String,
    pub entity_count: usize,
}

/// A relation field of a schema: its name, the schema it targets, and
/// whether it holds many references.
#[derive(Debug, Clone)]
pub struct GraphRelation {
    pub field_name: String,
    pub target: String,
    pub many: bool,
}

/// What the relationship graph reads of a schema: its name and its relation
/// fields in declaration order.
#[derive(Debug, Clone)]
pub struct GraphSchema {
    pub name: String,
    pub relations: Vec<GraphRelation>,
}

/// A node in the schema relationship graph.
#[derive(Debug, Clone)]
pub struct SchemaGraphNode {
    pub id: String,
    pub entity_count: usize,
}

/// An edge in the schema relationship graph.
#[derive(Debug, Clone)]
pub struct SchemaGraphEdge {
    pub from: String,
    pub to: String,
    pub label: String,
    pub cardinality: String,
}

/// Full graph data for the dashboard relationship visualization.
#[derive(Debug, Clone)]
pub struct SchemaGraphView {
    pub json: String,
    pub has_edges: bool,
}

/// An edge as (from, to, label, cardinality).
pub type EdgeView = (Seq<char>, Seq<char>, Seq<char>, Seq<char>);

/// Some dashboard entry is the schema named `n`.
pub open spec fn is_node(entries: Seq<DashboardEntry>, n: Seq<char>) -> bool {
    exists|i: int| 0 <= i < entries.len() && (#[trigger] entries[i]).schema_name@ == n
}

pub open spec fn cardinality_text(many: bool) -> Seq<char> {
    if many {
        "Many"@
    } else {
        "One"@
    }
}

/// The edges of the first `k` relations of schema `from`: those whose
/// target is a node.
pub open spec fn relation_edges(entries: Seq<DashboardEntry>, from: Seq<char>, rels: Seq<GraphRelation>) -> Seq<EdgeView>
    decreases rels.len(),
{
    if rels.len() == 0 {
        Seq::empty()
    } else {
        let r = rels.last();
        let rest = relation_edges(entries, from, rels.drop_last());
        if is_node(entries, r.target@) {
            rest.push((from, r.target@, r.field_name@, cardinality_text(r.many)))
        } else {
            rest
        }
    }
}

/// Every edge of the graph, schema by schema: only schemas that are nodes
/// contribute, and only relations whose target is a node.
pub open spec fn graph_edges(entries: Seq<DashboardEntry>, schemas: Seq<GraphSchema>) -> Seq<EdgeView>
    decreases schemas.len(),
{
    if schemas.len() == 0 {
        Seq::empty()
    } else {
        let s = schemas.last();
        let rest = graph_edges(entries, schemas.drop_last());
        if is_node(entries, s.name@) {
            rest + relation_edges(entries, s.name@, s.relations@)
        } else {
            rest
        }
    }
}

/// A JSON string literal for `s`, as serde_json writes it: quoted, with
/// `"` and `\\` backslash-escaped, the usual short escapes for backspace,
/// tab, newline, form feed and carriage return, other control characters
/// as `\u00XX` in lowercase hex, and every other character as is.
pub open spec fn json_quoted(s: Seq<char>) -> Seq<char> {
    "\""@ + json_escaped(s) + "\""@
}

pub open spec fn hex_digit(d: int) -> char {
    if d < 10 {
        (d + 48) as char
    } else {
        (d + 87) as char
    }
}

pub open spec fn json_escape_char(c: char) -> Seq<char> {
    if c == '"' {
        "\\\""@
    } else if c == '\\' {
        "\\\\"@
    } else if c == '\u{8}' {
        "\\b"@
    } else if c == '\t' {
        "\\t"@
    } else if c == '\n' {
        "\\n"@
    } else if c == '\u{c}' {
        "\\f"@
    } else if c == '\r' {
        "\\r"@
    } else if (c as int) < 0x20 {
        "\\u00"@ + seq![hex_digit((c as int) / 16), hex_digit((c as int) % 16)]
    } else {
        seq![c]
    }
}

pub open spec fn json_escaped(s: Seq<char>) -> Seq<char>
    decreases s.len(),
{
    if s.len() == 0 {
        Seq::empty()
    } else {
        json_escaped(s.drop_last()) + json_escape_char(s.last())
    }
}

/// serde_json `to_string` on a string: the JSON string literal that
/// `json_quoted` states. For a string its only failure would be one of the
/// writer, and it writes into a `Vec<u8>`, which does not fail; so the
/// result is `Ok`.
#[verifier::external_body]
fn json_string(s: &str) -> (r: Result<String, String>)
    ensures
        r is Ok,
        r matches Ok(t) ==> t@ == json_quoted(s@),
{
    match serde_json::to_string(s) {
        Ok(t) => Ok(t),
        Err(e) => Err(e.to_string()),
    }
}

pub open spec fn node_json(e: DashboardEntry) -> Seq<char> {
    "{\"id\":"@ + json_quoted(e.schema_name@) + ",\"entity_count\":"@ + decimal(e.entity_count as nat)
        + "}"@
}

pub open spec fn edge_json(e: EdgeView) -> Seq<char> {
    "{\"from\":"@ + json_quoted(e.0) + ",\"to\":"@ + json_quoted(e.1) + ",\"label\":"@ + json_quoted(e.2)
        + ",\"cardinality\":"@ + json_quoted(e.3) + "}"@
}

/// The graph as serde_json writes `{nodes, edges}`.
pub open spec fn graph_json(entries: Seq<DashboardEntry>, edges: Seq<EdgeView>) -> Seq<char> {
    "{\"nodes\":["@ + join_seq(entries.map_values(|e: DashboardEntry| node_json(e)), ","@)
        + "],\"edges\":["@ + join_seq(edges.map_values(|e: EdgeView| edge_json(e)), ","@) + "]}"@
}

/// The graph text used when serialization fails.
pub open spec fn empty_graph_json() -> Seq<char> {
    "{\"nodes\":[],\"edges\":[]}"@
}

fn quoted_into(out: &mut String, s: &str) -> (ok: bool)
    ensures
        ok,
        final(out)@ == old(out)@ + json_quoted(s@),
{
    match json_string(s) {
        Ok(t) => {
            push_str(out, t.as_str());
            true
        },
        Err(_) => false,
    }
}

fn is_node_exec(entries: &[DashboardEntry], name: &String) -> (b: bool)
    ensures
        b == is_node(entries@, name@),
{
    let mut i: usize = 0;
    while i < entries.len()
        invariant
            i <= entries@.len(),
            forall|k: int| 0 <= k < i ==> (#[trigger] entries@[k]).schema_name@ != name@,
        decreases entries@.len() - i,
    {
        if entries[i].schema_name == *name {
            return true;
        }
        i += 1;
    }
    false
}

impl SchemaGraphView {
    /// The edges of the graph: from each schema that is a node, to each
    /// relation target that is a node, labelled with the field name, with
    /// cardinality `Many` or `One`.
    pub fn edges_of(entries: &[DashboardEntry], schemas: &[GraphSchema]) -> (r: Vec<SchemaGraphEdge>)
        ensures
            r@.map_values(|e: SchemaGraphEdge| (e.from@, e.to@, e.label@, e.cardinality@))
                == graph_edges(entries@, schemas@),
    {
        let mut out: Vec<SchemaGraphEdge> = Vec::new();
        let mut i: usize = 0;
        while i < schemas.len()
            invariant
                i <= schemas@.len(),
                out@.map_values(|e: SchemaGraphEdge| (e.from@, e.to@, e.label@, e.cardinality@))
                    == graph_edges(entries@, schemas@.subrange(0, i as int)),
            decreases schemas@.len() - i,
        {
            let ghost pre = schemas@.subrange(0, i + 1);
            assert(pre.drop_last() =~= schemas@.subrange(0, i as int));
            let s = &schemas[i];
            if is_node_exec(entries, &s.name) {
                let mut j: usize = 0;
                let ghost start = out@.map_values(|e: SchemaGraphEdge| (e.from@, e.to@, e.label@, e.cardinality@));
                while j < s.relations.len()
                    invariant
                        j <= s.relations@.len(),
                        out@.map_values(|e: SchemaGraphEdge| (e.from@, e.to@, e.label@, e.cardinality@))
                            == start + relation_edges(entries@, s.name@, s.relations@.subrange(0, j as int)),
                    decreases s.relations@.len() - j,
                {
                    let ghost rp = s.relations@.subrange(0, j + 1);
                    assert(rp.drop_last() =~= s.relations@.subrange(0, j as int));
                    let r = &s.relations[j];
                    if is_node_exec(entries, &r.target) {
                        let card = if r.many {
                            str_to_string("Many")
                        } else {
                            str_to_string("One")
                        };
                        let ghost before = out@.map_values(|e: SchemaGraphEdge| (e.from@, e.to@, e.label@, e.cardinality@));
                        out.push(
                            SchemaGraphEdge {
                                from: s.name.clone(),
                                to: r.target.clone(),
                                label: r.field_name.clone(),
                                cardinality: card,
                            },
                        );
                        assert(out@.map_values(|e: SchemaGraphEdge| (e.from@, e.to@, e.label@, e.cardinality@))
                            =~= before.push((s.name@, r.target@, r.field_name@, cardinality_text(r.many))));
                    }
                    j += 1;
                }
                assert(s.relations@.subrange(0, j as int) =~= s.relations@);
            }
            i += 1;
        }
        assert(schemas@.subrange(0, i as int) =~= schemas@);
        out
    }

    /// Builds graph data from dashboard entries (the nodes) and schema
    /// definitions (the edges): the JSON of `{nodes, edges}` as serde_json
    /// writes it, and whether there is any edge.
    pub fn from_entries(entries: &[DashboardEntry], schemas: &[GraphSchema]) -> (v: Self)
        ensures
            v.has_edges == (graph_edges(entries@, schemas@).len() > 0),
            v.json@ == graph_json(entries@, graph_edges(entries@, schemas@)),
    {
        let edges = Self::edges_of(entries, schemas);
        let ghost ev = graph_edges(entries@, schemas@);
        let has_edges = edges.len() > 0;
        let fallback = str_to_string("{\"nodes\":[],\"edges\":[]}");
        let mut json = str_to_string("{\"nodes\":[");
        let ghost nodes = entries@.map_values(|e: DashboardEntry| node_json(e));
        let mut i: usize = 0;
        while i < entries.len()
            invariant
                i <= entries@.len(),
                nodes == entries@.map_values(|e: DashboardEntry| node_json(e)),
                fallback@ == empty_graph_json(),
                ev == graph_edges(entries@, schemas@),
                has_edges == (ev.len() > 0),
                json@ == "{\"nodes\":["@ + join_seq(nodes.subrange(0, i as int), ","@),
            decreases entries@.len() - i,
        {
            let ghost before = nodes.subrange(0, i as int);
            let ghost after = nodes.subrange(0, i + 1);
            assert(after.drop_last() =~= before);
            if i > 0 {
                push_str(&mut json, ",");
            }
            if !push_node_json(&mut json, &entries[i]) {
                return SchemaGraphView { json: fallback, has_edges };
            }
            proof {
                if before.len() == 0 {
                    assert(join_seq(after, ","@) == after[0]);
                }
            }
            i += 1;
            assert(json@ =~= "{\"nodes\":["@ + join_seq(nodes.subrange(0, i as int), ","@));
        }
        assert(nodes.subrange(0, i as int) =~= nodes);
        push_str(&mut json, "],\"edges\":[");
        let ghost eds = ev.map_values(|e: EdgeView| edge_json(e));
        let ghost head = json@;
        let mut j: usize = 0;
        while j < edges.len()
            invariant
                j <= edges@.len(),
                edges@.map_values(|e: SchemaGraphEdge| (e.from@, e.to@, e.label@, e.cardinality@)) == ev,
                eds == ev.map_values(|e: EdgeView| edge_json(e)),
                fallback@ == empty_graph_json(),
                has_edges == (ev.len() > 0),
                ev == graph_edges(entries@, schemas@),
                json@ == head + join_seq(eds.subrange(0, j as int), ","@),
            decreases edges@.len() - j,
        {
            let ghost before = eds.subrange(0, j as int);
            let ghost after = eds.subrange(0, j + 1);
            assert(after.drop_last() =~= before);
            assert(ev[j as int] == (edges@[j as int].from@, edges@[j as int].to@, edges@[j as int].label@, edges@[j as int].cardinality@));
            if j > 0 {
                push_str(&mut json, ",");
            }
            if !push_edge_json(&mut json, &edges[j]) {
                return SchemaGraphView { json: fallback, has_edges };
            }
            proof {
                if before.len() == 0 {
                    assert(join_seq(after, ","@) == after[0]);
                }
            }
            j += 1;
            assert(json@ =~= head + join_seq(eds.subrange(0, j as int), ","@));
        }
        assert(eds.subrange(0, j as int) =~= eds);
        push_str(&mut json, "]}");
        assert(json@ =~= graph_json(entries@, ev));
        SchemaGraphView { json, has_edges }
    }
}

fn push_node_json(out: &mut String, e: &DashboardEntry) -> (ok: bool)
    ensures
        ok,
        final(out)@ == old(out)@ + node_json(*e),
{
    let ghost start = out@;
    push_str(out, "{\"id\":");
    if !quoted_into(out, e.schema_name.as_str()) {
        return false;
    }
    push_str(out, ",\"entity_count\":");
    push_str(out, usize_to_decimal(e.entity_count).as_str());
    push_str(out, "}");
    assert(out@ =~= start + node_json(*e));
    true
}

fn push_edge_json(out: &mut String, e: &SchemaGraphEdge) -> (ok: bool)
    ensures
        ok,
        final(out)@ == old(out)@ + edge_json((e.from@, e.to@, e.label@, e.cardinality@)),
{
    let ghost start = out@;
    push_str(out, "{\"from\":");
    if !quoted_into(out, e.from.as_str()) {
        return false;
    }
    push_str(out, ",\"to\":");
    if !quoted_into(out, e.to.as_str()) {
        return false;
    }
    push_str(out, ",\"label\":");
    if !quoted_into(out, e.label.as_str()) {
        return false;
    }
    push_str(out, ",\"cardinality\":");
    if !quoted_into(out, e.cardinality.as_str()) {
        return false;
    }
    push_str(out, "}");
    assert(out@ =~= start + edge_json((e.from@, e.to@, e.label@, e.cardinality@)));
    true
}

} // verus!
