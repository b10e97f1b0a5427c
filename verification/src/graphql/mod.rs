pub mod description;
pub mod input_types;
pub mod resolvers;
pub mod schema_builder;
pub mod type_mapping;
