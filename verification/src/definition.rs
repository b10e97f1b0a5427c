//! Schema definitions as the library reads them: each schema's name, its
//! annotations, and its fields with their types, modifiers and
//! annotations. The Cedar schema and policy generators, the GraphQL type
//! mapping and the admin schema editor all work from these.
use vstd::prelude::*;

verus! {

/// Optional maximum length of a text field.
#[derive(Debug, Clone, Copy, PartialEq, Eq, Structural)]
pub struct TextConstraints {
    pub max_length: Option<u32>,
}

/// Optional inclusive bounds of an integer field.
#[derive(Debug, Clone, Copy, PartialEq, Eq, Structural)]
pub struct IntegerConstraints {
    pub min: Option<i64>,
    pub max: Option<i64>,
}

impl IntegerConstraints {
    /// No bounds.
    pub fn unconstrained() -> (c: Self)
        ensures
            c.min is None,
            c.max is None,
    {
        IntegerConstraints { min: None, max: None }
    }
}

/// Optional precision of a float field.
#[derive(Debug, Clone, Copy, PartialEq, Eq, Structural)]
pub struct FloatConstraints {
    pub precision: Option<u32>,
}

/// The storage of a file field: the name of the storage backend (bucket)
/// its blobs go to.
#[derive(Debug)]
pub struct FileConstraints {
    pub bucket: String,
}

/// The type of a field.
#[derive(Debug)]
pub enum FieldType {
    Text(TextConstraints),
    RichText,
    Integer(IntegerConstraints),
    Float(FloatConstraints),
    Boolean,
    DateTime,
    /// An enumeration, with its variants in declaration order.
    Enum(Vec<String>),
    Json,
    /// A relation to one entity of the target schema, or to many.
    Relation { target: String, many: bool },
    Array(Box<FieldType>),
    /// A nested object with fields of its own.
    Composite(Vec<FieldDefinition>),
    File(FileConstraints),
}

/// The `@field_access(read: [...], write: [...])` role lists of a field.
#[derive(Debug, Clone)]
pub struct FieldAccessRoles {
    pub read: Vec<String>,
    pub write: Vec<String>,
}

/// The `@access(read: [...], write: [...], delete: [...])` role lists of a
/// schema.
#[derive(Debug, Clone)]
pub struct AccessRoles {
    pub read: Vec<String>,
    pub write: Vec<String>,
    pub delete: Vec<String>,
}

/// One field of a schema.
#[derive(Debug)]
pub struct FieldDefinition {
    pub name: String,
    pub field_type: FieldType,
    /// The `required` modifier.
    pub required: bool,
    /// The `indexed` modifier.
    pub indexed: bool,
    /// The `default` modifier, as the default value's display text.
    pub default: Option<String>,
    /// The `@hidden` annotation: the field never surfaces outside storage.
    pub hidden: bool,
    /// The `@owner` annotation.
    pub owner: bool,
    /// The field's first `@field_access` annotation.
    pub field_access: Option<FieldAccessRoles>,
}

impl FieldDefinition {
    /// A field of the given name and type with no modifiers and no
    /// annotations.
    pub fn new(name: String, field_type: FieldType) -> (f: Self)
        ensures
            f.name == name,
            f.field_type == field_type,
            !f.required,
            !f.indexed,
            f.default is None,
            !f.hidden,
            !f.owner,
            f.field_access is None,
    {
        FieldDefinition {
            name,
            field_type,
            required: false,
            indexed: false,
            default: None,
            hidden: false,
            owner: false,
            field_access: None,
        }
    }
}

/// One schema: its name, its fields in declaration order, and its
/// annotations.
#[derive(Debug)]
pub struct SchemaDefinition {
    /// The schema's stable identity, kept across edits.
    pub id: String,
    pub name: String,
    pub fields: Vec<FieldDefinition>,
    /// The schema's first `@access` annotation.
    pub access: Option<AccessRoles>,
    /// The `@version` annotation.
    pub version: Option<u32>,
    /// The `@display` annotation: the field that names an entity.
    pub display_field: Option<String>,
    /// The `@system` annotation: a schema the service itself owns.
    pub system: bool,
}

} // verus!
