use schema_forge_acton::admin::auth::{session_after_login, ForgeUser};
use schema_forge_acton::admin::auth::{CurrentUserView, SessionSnapshot};
use schema_forge_acton::admin::handlers::editor_from_form_data;
use schema_forge_acton::admin::views::{FieldEditorRow, MigrationPreviewView, MigrationSafety, MigrationStepView, SchemaEditorView};

fn pairs(p: &[(&str, &str)]) -> Vec<(String, String)> {
    p.iter().map(|(k, v)| (k.to_string(), v.to_string())).collect()
}

#[test]
fn field_editor_row_empty() {
    let row = FieldEditorRow::empty(5);
    assert_eq!(row.index, 5);
    assert_eq!(row.name, "");
    assert_eq!(row.old_name, None);
    assert_eq!(row.field_type, "text");
    assert!(!row.required);
    assert_eq!(row.relation_cardinality, "one");
}

#[test]
fn schema_editor_view_new_empty() {
    let view = SchemaEditorView::new_empty();
    assert_eq!(view.schema_name, "");
    assert!(!view.is_edit);
    assert_eq!(view.existing_name, None);
    assert_eq!(view.fields.len(), 1);
    assert_eq!(view.fields[0].field_type, "text");
}

#[test]
fn editor_rebuilds_rows_in_index_order() {
    let form = pairs(&[
        ("schema_name", "Contact"),
        ("version", "3"),
        ("field_2_name", "age"),
        ("field_2_type", "integer"),
        ("field_2_integer_min", "-5"),
        ("field_2_integer_max", "150"),
        ("field_0_name", "email"),
        ("field_0_old_name", "mail"),
        ("field_0_required", "on"),
        ("field_0_text_max_length", "255"),
        ("field_0_indexed", "yes"),
        ("display_field", "email"),
    ]);
    let view = editor_from_form_data(&form, true);
    assert_eq!(view.schema_name, "Contact");
    assert_eq!(view.version, "3");
    assert_eq!(view.display_field, "email");
    assert!(view.is_edit);
    assert_eq!(view.existing_name, Some("Contact".to_string()));
    assert_eq!(view.fields.len(), 2);
    let f0 = &view.fields[0];
    assert_eq!(f0.index, 0);
    assert_eq!(f0.name, "email");
    assert_eq!(f0.old_name, Some("mail".to_string()));
    assert_eq!(f0.field_type, "text");
    assert!(f0.required);
    assert!(!f0.indexed);
    assert_eq!(f0.text_max_length, Some(255));
    let f1 = &view.fields[1];
    assert_eq!(f1.index, 2);
    assert_eq!(f1.field_type, "integer");
    assert_eq!(f1.integer_min, Some(-5));
    assert_eq!(f1.integer_max, Some(150));
    assert_eq!(f1.relation_cardinality, "one");
}

#[test]
fn editor_later_values_win_and_bad_numbers_are_dropped() {
    let form = pairs(&[
        ("field_1_name", "a"),
        ("field_1_name", "b"),
        ("field_1_text_max_length", "-1"),
        ("field_1_float_precision", "+2"),
        ("field_x_name", "ignored"),
        ("field_3_old_name", "only old"),
    ]);
    let view = editor_from_form_data(&form, false);
    assert_eq!(view.existing_name, None);
    assert_eq!(view.fields.len(), 1);
    assert_eq!(view.fields[0].name, "b");
    assert_eq!(view.fields[0].text_max_length, None);
    assert_eq!(view.fields[0].float_precision, Some(2));
}

#[test]
fn migration_preview_labels() {
    let view = MigrationPreviewView::from_plan(
        vec![
            ("add field".to_string(), MigrationSafety::Safe),
            ("drop field".to_string(), MigrationSafety::Destructive),
        ],
        MigrationSafety::Destructive,
    );
    assert!(!view.is_empty);
    assert_eq!(view.steps[0].safety, "Safe");
    assert_eq!(view.steps[1].safety_class, "badge-error");
    assert_eq!(view.overall_safety, "Destructive");
    let empty = MigrationPreviewView::from_plan(vec![], MigrationSafety::Safe);
    assert!(empty.is_empty);
    let step = MigrationStepView::from_step("x".to_string(), MigrationSafety::RequiresConfirmation);
    assert_eq!(step.safety, "Requires Confirmation");
    assert_eq!(step.safety_class, "badge-warning");
}

#[test]
fn current_user_view_fallbacks() {
    let anonymous = SessionSnapshot {
        authenticated: false,
        username: Some("x".to_string()),
        display_name: None,
        user_id: None,
        has_admin_role: true,
    };
    assert!(CurrentUserView::from_session(&anonymous).is_none());
    let by_id = SessionSnapshot {
        authenticated: true,
        username: None,
        display_name: None,
        user_id: Some("u-1".to_string()),
        has_admin_role: false,
    };
    let v = CurrentUserView::from_session(&by_id).unwrap();
    assert_eq!(v.username, "u-1");
    assert_eq!(v.display_name, "u-1");
    assert!(!v.is_admin);
    let bare = SessionSnapshot { user_id: None, ..by_id };
    let v = CurrentUserView::from_session(&bare).unwrap();
    assert_eq!(v.username, "User");
    let named = SessionSnapshot {
        authenticated: true,
        username: Some("ada".to_string()),
        display_name: Some("Ada L.".to_string()),
        user_id: Some("u-2".to_string()),
        has_admin_role: true,
    };
    let v = CurrentUserView::from_session(&named).unwrap();
    assert_eq!(v.username, "ada");
    assert_eq!(v.display_name, "Ada L.");
    assert!(v.is_admin);
}

fn session(
    authenticated: bool,
    user_id: Option<&str>,
    username: Option<&str>,
    display_name: Option<&str>,
    roles: &[&str],
) -> SessionSnapshot {
    SessionSnapshot {
        authenticated,
        username: username.map(|s| s.to_string()),
        display_name: display_name.map(|s| s.to_string()),
        user_id: user_id.map(|s| s.to_string()),
        has_admin_role: roles.contains(&"admin"),
    }
}

#[test]
fn current_user_view_from_unauthenticated_session() {
    let s = session(false, None, None, None, &[]);
    assert!(CurrentUserView::from_session(&s).is_none());
}

#[test]
fn current_user_view_from_authenticated_session() {
    let s = session(true, Some("user1"), Some("alice"), Some("Alice Smith"), &["admin"]);
    let view = CurrentUserView::from_session(&s).unwrap();
    assert_eq!(view.username, "alice");
    assert_eq!(view.display_name, "Alice Smith");
    assert!(view.is_admin);
}

#[test]
fn current_user_view_non_admin() {
    let s = session(true, Some("user2"), Some("bob"), None, &["viewer"]);
    let view = CurrentUserView::from_session(&s).unwrap();
    assert_eq!(view.username, "bob");
    assert_eq!(view.display_name, "bob");
    assert!(!view.is_admin);
}

#[test]
fn current_user_view_fallback_to_user_id() {
    let s = session(true, Some("user3"), None, None, &[]);
    let view = CurrentUserView::from_session(&s).unwrap();
    assert_eq!(view.username, "user3");
    assert_eq!(view.display_name, "user3");
    assert!(!view.is_admin);
}

#[test]
fn migration_preview_from_plan() {
    let view = MigrationPreviewView::from_plan(
        vec![("Create schema 'Contact'".to_string(), MigrationSafety::Safe)],
        MigrationSafety::Safe,
    );
    assert!(!view.is_empty);
    assert!(!view.steps.is_empty());
    assert_eq!(view.overall_safety, "Safe");
}

#[test]
fn migration_preview_empty_plan() {
    let view = MigrationPreviewView::from_plan(vec![], MigrationSafety::Safe);
    assert!(view.is_empty);
    assert!(view.steps.is_empty());
}

use schema_forge_acton::definition::{FileConstraints, 
    FieldDefinition, FieldType, FloatConstraints, IntegerConstraints, SchemaDefinition, TextConstraints,
};

fn make_field(name: &str, ft: FieldType) -> FieldDefinition {
    FieldDefinition::new(name.to_string(), ft)
}

#[test]
fn schema_editor_view_from_definition() {
    let mut name = make_field("name", FieldType::Text(TextConstraints { max_length: Some(100) }));
    name.required = true;
    let age = make_field("age", FieldType::Integer(IntegerConstraints { min: Some(0), max: Some(150) }));
    let schema = SchemaDefinition {
        id: "sch-test".to_string(),
        name: "Contact".to_string(),
        fields: vec![name, age],
        access: None,
        version: Some(2),
        display_field: Some("name".to_string()),
        system: false,
    };
    let view = SchemaEditorView::from_definition(&schema);
    assert_eq!(view.schema_name, "Contact");
    assert_eq!(view.version, "2");
    assert_eq!(view.display_field, "name");
    assert!(view.is_edit);
    assert_eq!(view.existing_name, Some("Contact".to_string()));
    assert_eq!(view.fields.len(), 2);

    let f0 = &view.fields[0];
    assert_eq!(f0.index, 0);
    assert_eq!(f0.name, "name");
    assert_eq!(f0.field_type, "text");
    assert!(f0.required);
    assert_eq!(f0.text_max_length, Some(100));

    let f1 = &view.fields[1];
    assert_eq!(f1.index, 1);
    assert_eq!(f1.name, "age");
    assert_eq!(f1.field_type, "integer");
    assert!(!f1.required);
    assert_eq!(f1.integer_min, Some(0));
    assert_eq!(f1.integer_max, Some(150));
}

#[test]
fn field_editor_row_from_enum() {
    let field = make_field("status", FieldType::Enum(vec!["Active".into(), "Inactive".into()]));
    let row = FieldEditorRow::from_definition(0, &field);
    assert_eq!(row.field_type, "enum");
    assert_eq!(row.enum_variants, "Active\nInactive");
}

#[test]
fn field_editor_row_from_relation() {
    let field = make_field("company", FieldType::Relation { target: "Company".to_string(), many: true });
    let row = FieldEditorRow::from_definition(0, &field);
    assert_eq!(row.field_type, "relation");
    assert_eq!(row.relation_target, "Company");
    assert_eq!(row.relation_cardinality, "many");
}

#[test]
fn field_editor_row_has_old_name() {
    let field = make_field("email", FieldType::Text(TextConstraints { max_length: None }));
    let row = FieldEditorRow::from_definition(0, &field);
    assert_eq!(row.old_name, Some("email".to_string()));
}

#[test]
fn field_editor_row_defaults_and_other_types() {
    let mut f = make_field("score", FieldType::Float(FloatConstraints { precision: Some(2) }));
    f.default = Some("1.5".to_string());
    f.indexed = true;
    let row = FieldEditorRow::from_definition(3, &f);
    assert_eq!(row.index, 3);
    assert_eq!(row.field_type, "float");
    assert_eq!(row.float_precision, Some(2));
    assert!(row.default_enabled);
    assert_eq!(row.default_value, "1.5");
    assert!(row.indexed);
    assert_eq!(row.relation_cardinality, "one");
    let row = FieldEditorRow::from_definition(0, &make_field("blob", FieldType::File(FileConstraints { bucket: "documents".to_string() })));
    assert_eq!(row.field_type, "text");
    let row = FieldEditorRow::from_definition(0, &make_field("meta", FieldType::Json));
    assert_eq!(row.field_type, "json");
    assert!(!row.default_enabled);
    let view = SchemaEditorView::from_definition(&SchemaDefinition {
        id: "sch-test".to_string(),
        name: "Empty".to_string(),
        fields: vec![],
        access: None,
        version: None,
        display_field: None,
        system: false,
    });
    assert_eq!(view.version, "");
    assert_eq!(view.display_field, "");
    assert!(view.fields.is_empty());
}

#[test]
fn login_session_shows_the_user() {
    let user = ForgeUser {
        username: "alice".to_string(),
        roles: vec!["viewer".to_string(), "admin".to_string()],
        display_name: Some("Alice Smith".to_string()),
        active: true,
    };
    let view = CurrentUserView::from_session(&session_after_login(&user)).unwrap();
    assert_eq!(view.username, "alice");
    assert_eq!(view.display_name, "Alice Smith");
    assert!(view.is_admin);
    let bob = ForgeUser { username: "bob".to_string(), roles: vec![], display_name: None, active: true };
    let view = CurrentUserView::from_session(&session_after_login(&bob)).unwrap();
    assert_eq!(view.display_name, "bob");
    assert!(!view.is_admin);
}
