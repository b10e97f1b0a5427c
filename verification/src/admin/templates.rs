//! Data handed to the admin UI templates.
use vstd::prelude::*;

use crate::admin::auth::{CurrentUserView, ForgeUser};
use crate::admin::views::{DashboardEntry, FieldEditorRow, MigrationPreviewView, SchemaEditorView, SchemaGraphView};

verus! {

/// Login page.
pub struct LoginTemplate {
    pub error: Option<String>,
}

/// Dashboard page — lists all schemas with entity counts.
pub struct DashboardTemplate {
    pub entries: Vec<DashboardEntry>,
    pub schema_names: Vec<String>,
    pub graph: SchemaGraphView,
    pub current_user: Option<CurrentUserView>,
}

/// Flash message fragment.
pub struct FlashMessageFragment {
    pub message: String,
    pub is_error: bool,
}

/// Relation options fragment — `<option>` elements for select dropdowns.
pub struct RelationOptionsFragment {
    pub options: Vec<(String, String)>,
}

/// Schema editor page — create or edit a schema.
pub struct SchemaEditorTemplate {
    pub editor: SchemaEditorView,
    pub schema_names: Vec<String>,
    pub errors: Vec<String>,
    pub current_user: Option<CurrentUserView>,
}

/// Field editor row fragment — a single field row for HTMX append.
pub struct FieldEditorRowFragment {
    pub field: FieldEditorRow,
}

/// Type constraints fragment — type-specific inputs swapped via HTMX.
pub struct TypeConstraintsFragment {
    pub field_type: String,
    pub index: usize,
}

/// DSL preview fragment — formatted DSL text.
pub struct DslPreviewFragment {
    pub dsl_text: String,
    pub errors: Vec<String>,
    pub migration: Option<MigrationPreviewView>,
}

/// Migration preview fragment.
pub struct MigrationPreviewFragment {
    pub migration: MigrationPreviewView,
}

/// User management list page.
pub struct UserListTemplate {
    pub users: Vec<ForgeUser>,
    pub schema_names: Vec<String>,
    pub current_user: Option<CurrentUserView>,
}

/// User create/edit form page.
pub struct UserFormTemplate {
    pub is_edit: bool,
    pub username: String,
    pub display_name: String,
    pub available_roles: Vec<String>,
    pub selected_roles: Vec<String>,
    pub schema_names: Vec<String>,
    pub errors: Vec<String>,
    pub current_user: Option<CurrentUserView>,
}

} // verus!
