use schema_forge_acton::definition::{
    FieldDefinition, FieldType, FloatConstraints, IntegerConstraints, SchemaDefinition, TextConstraints,
};
use schema_forge_acton::graphql::description::{InputObjectDef, ObjectDef};
use schema_forge_acton::graphql::input_types::{
    build_create_input, build_filter_input, build_sort_field_enum, build_sort_input, build_sort_order_enum,
    build_update_input, filter_ops_for_type, filter_value_type_ref, input_field_type_ref, scalar_type_for_filter,
};
use schema_forge_acton::graphql::schema_builder::{build_connection_type, build_graphql_schema, build_output_type};

fn text() -> FieldType {
    FieldType::Text(TextConstraints { max_length: None })
}

fn text_field(name: &str) -> FieldDefinition {
    FieldDefinition::new(name.to_string(), text())
}

fn required_text_field(name: &str) -> FieldDefinition {
    let mut f = text_field(name);
    f.required = true;
    f
}

fn make_schema(name: &str, fields: Vec<FieldDefinition>) -> SchemaDefinition {
    SchemaDefinition { id: "sch-test".to_string(), name: name.to_string(), fields, access: None, version: None, display_field: None, system: false }
}

fn make_system_schema(name: &str) -> SchemaDefinition {
    let mut s = make_schema(name, vec![text_field("email")]);
    s.system = true;
    s
}

fn field_names(o: &ObjectDef) -> Vec<String> {
    o.fields.iter().map(|f| f.name.clone()).collect()
}

fn input(o: &InputObjectDef) -> Vec<(String, String)> {
    o.fields.iter().map(|f| (f.name.clone(), f.type_ref.clone())).collect()
}

#[test]
fn build_schema_single() {
    let schemas = vec![make_schema("Contact", vec![required_text_field("name"), text_field("email")])];
    let result = build_graphql_schema(&schemas);
    assert!(result.is_ok(), "schema build failed: {:?}", result.err());
    let d = result.unwrap();
    assert_eq!(field_names(&d.query), vec!["contact", "contacts"]);
    assert_eq!(field_names(d.mutation.as_ref().unwrap()), vec!["createContact", "updateContact", "deleteContact"]);
    let t = &d.schema_types[0];
    assert_eq!(t.object.name, "Contact");
    assert_eq!(t.object.fields[1].type_ref, "String!");
    assert_eq!(t.object.fields[2].type_ref, "String");
    assert_eq!(t.connection.name, "ContactConnection");
    assert_eq!(d.depth_limit, 10);
    assert_eq!(d.complexity_limit, 1000);
}

#[test]
fn build_schema_multiple() {
    let schemas = vec![
        make_schema("Contact", vec![required_text_field("name")]),
        make_schema("Company", vec![required_text_field("name")]),
    ];
    let result = build_graphql_schema(&schemas);
    assert!(result.is_ok(), "schema build failed: {:?}", result.err());
    assert_eq!(field_names(&result.unwrap().query), vec!["contact", "contacts", "company", "companies"]);
}

#[test]
fn build_schema_skips_system() {
    let schemas = vec![make_schema("Contact", vec![required_text_field("name")]), make_system_schema("User")];
    let result = build_graphql_schema(&schemas);
    assert!(result.is_ok());
    let d = result.unwrap();
    assert_eq!(d.schema_types.len(), 1);
    assert!(!field_names(&d.query).contains(&"user".to_string()));
}

#[test]
fn build_schema_with_relation() {
    let schemas = vec![
        make_schema("Company", vec![required_text_field("name")]),
        make_schema(
            "Contact",
            vec![
                required_text_field("name"),
                FieldDefinition::new("company".to_string(), FieldType::Relation { target: "Company".to_string(), many: false }),
            ],
        ),
    ];
    let result = build_graphql_schema(&schemas);
    assert!(result.is_ok(), "schema build failed: {:?}", result.err());
    let d = result.unwrap();
    assert_eq!(d.schema_types[1].object.fields[2].type_ref, "Company");
    assert_eq!(input(&d.schema_types[1].create_input)[1], ("company".to_string(), "ID".to_string()));
}

#[test]
fn build_schema_with_various_types() {
    let schemas = vec![make_schema(
        "Product",
        vec![
            required_text_field("name"),
            FieldDefinition::new("price".to_string(), FieldType::Float(FloatConstraints { precision: None })),
            FieldDefinition::new(
                "quantity".to_string(),
                FieldType::Integer(IntegerConstraints { min: Some(0), max: Some(10000) }),
            ),
            FieldDefinition::new("active".to_string(), FieldType::Boolean),
            FieldDefinition::new("created_at".to_string(), FieldType::DateTime),
            FieldDefinition::new("metadata".to_string(), FieldType::Json),
            FieldDefinition::new(
                "status".to_string(),
                FieldType::Enum(vec!["Active".into(), "Inactive".into(), "Draft".into()]),
            ),
        ],
    )];
    let result = build_graphql_schema(&schemas);
    assert!(result.is_ok(), "schema build failed: {:?}", result.err());
    let d = result.unwrap();
    let t = &d.schema_types[0];
    let refs: Vec<String> = t.object.fields.iter().map(|f| f.type_ref.clone()).collect();
    assert_eq!(refs, vec!["ID!", "String!", "Float", "Int", "Boolean", "DateTime", "JSON", "Product_status"]);
    assert_eq!(t.enums.len(), 1);
    assert_eq!(t.enums[0].name, "Product_status");
    assert_eq!(t.enums[0].items, vec!["Active", "Inactive", "Draft"]);
}

#[test]
fn build_empty_schema_list() {
    let result = build_graphql_schema(&[]);
    assert!(result.is_ok());
    let d = result.unwrap();
    assert_eq!(field_names(&d.query), vec!["_empty"]);
    assert!(d.mutation.is_none());
    assert_eq!(d.scalars.len(), 3);
    assert_eq!(d.sort_order.items, vec!["ASC", "DESC"]);
}

#[test]
fn build_schema_rejects_query_field_collision() {
    let schemas = vec![make_schema("Contact", vec![]), make_schema("Contact", vec![])];
    let err = build_graphql_schema(&schemas).err().unwrap();
    assert_eq!(err, "GraphQL field name collision: 'contact' is generated by both 'Contact' and 'Contact'");
}

#[test]
fn composite_fields_get_nested_object_types() {
    let mut street = text_field("street");
    street.required = true;
    let schemas = vec![make_schema(
        "Contact",
        vec![FieldDefinition::new("address".to_string(), FieldType::Composite(vec![street, text_field("city")]))],
    )];
    let d = build_graphql_schema(&schemas).unwrap();
    let nested = &d.schema_types[0].composites[0];
    assert_eq!(nested.name, "Contact_address");
    let refs: Vec<(String, String)> = nested.fields.iter().map(|f| (f.name.clone(), f.type_ref.clone())).collect();
    assert_eq!(refs, vec![("street".to_string(), "String!".to_string()), ("city".to_string(), "String".to_string())]);
    assert_eq!(d.schema_types[0].object.fields[1].type_ref, "Contact_address");
}

#[test]
fn output_and_connection_types() {
    let s = make_schema("Note", vec![required_text_field("title")]);
    let o = build_output_type(&s, "Note");
    assert_eq!(field_names(&o), vec!["id", "title"]);
    let c = build_connection_type("NoteConnection", "Note");
    let refs: Vec<(String, String)> = c.fields.iter().map(|f| (f.name.clone(), f.type_ref.clone())).collect();
    assert_eq!(
        refs,
        vec![
            ("items".to_string(), "[Note!]".to_string()),
            ("count".to_string(), "Int!".to_string()),
            ("totalCount".to_string(), "Int".to_string())
        ]
    );
}

#[test]
fn input_types_of_a_schema() {
    let s = make_schema(
        "Task",
        vec![
            required_text_field("title"),
            FieldDefinition::new("done".to_string(), FieldType::Boolean),
            FieldDefinition::new("tags".to_string(), FieldType::Array(Box::new(text()))),
        ],
    );
    let create = build_create_input(&s);
    assert_eq!(create.name, "CreateTaskInput");
    assert_eq!(
        input(&create),
        vec![
            ("title".to_string(), "String!".to_string()),
            ("done".to_string(), "Boolean".to_string()),
            ("tags".to_string(), "[String]".to_string())
        ]
    );
    let update = build_update_input(&s);
    assert_eq!(update.name, "UpdateTaskInput");
    assert_eq!(input(&update)[0], ("title".to_string(), "String".to_string()));
    let filter = build_filter_input(&s);
    assert_eq!(filter.name, "TaskFilter");
    let keys: Vec<String> = filter.fields.iter().map(|f| f.name.clone()).collect();
    assert_eq!(
        keys,
        vec![
            "title_eq", "title_ne", "title_contains", "title_starts_with", "title_in", "done_eq", "done_ne", "tags_eq",
            "tags_ne", "and", "or", "not"
        ]
    );
    assert_eq!(filter.fields[4].type_ref, "[String]");
    assert_eq!(filter.fields[9].type_ref, "[TaskFilter]");
    assert_eq!(filter.fields[11].type_ref, "TaskFilter");
    let sort_field = build_sort_field_enum(&s);
    assert_eq!(sort_field.name, "TaskSortField");
    assert_eq!(sort_field.items, vec!["title", "done", "tags"]);
    let sort = build_sort_input(&s);
    assert_eq!(
        input(&sort),
        vec![("field".to_string(), "TaskSortField!".to_string()), ("order".to_string(), "SortOrder".to_string())]
    );
    assert_eq!(build_sort_order_enum().name, "SortOrder");
}

#[test]
fn input_and_filter_type_refs() {
    let rel_one = FieldType::Relation { target: "Company".to_string(), many: false };
    let rel_many = FieldType::Relation { target: "Company".to_string(), many: true };
    assert_eq!(input_field_type_ref("C", "f", &rel_one, true), "ID!");
    assert_eq!(input_field_type_ref("C", "f", &rel_one, false), "ID");
    assert_eq!(input_field_type_ref("C", "f", &rel_many, false), "[ID!]");
    assert_eq!(input_field_type_ref("C", "f", &FieldType::Composite(vec![]), true), "JSON!");
    assert_eq!(input_field_type_ref("C", "f", &FieldType::Array(Box::new(rel_many)), true), "[[ID!]!]");
    assert_eq!(input_field_type_ref("C", "status", &FieldType::Enum(vec![]), false), "C_status");
    assert_eq!(filter_ops_for_type(&FieldType::DateTime), vec!["eq", "ne", "gt", "gte", "lt", "lte", "in"]);
    assert_eq!(filter_ops_for_type(&FieldType::Json), vec!["eq", "ne"]);
    assert_eq!(scalar_type_for_filter("C", "n", &FieldType::Integer(IntegerConstraints::unconstrained())), "Int");
    assert_eq!(filter_value_type_ref("C", "n", &FieldType::Integer(IntegerConstraints::unconstrained()), "in"), "[Int]");
    assert_eq!(filter_value_type_ref("C", "n", &FieldType::Integer(IntegerConstraints::unconstrained()), "gt"), "Int");
}
