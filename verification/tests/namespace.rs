use schema_forge_acton::authz::engine::{field_action_uid, FieldDirection};
use schema_forge_acton::authz::namespace::{action_uid, field_read_action_uid, field_write_action_uid, ActionVerb};

#[test]
fn action_uid_renders_correctly() {
    assert_eq!(
        action_uid(ActionVerb::Read, "Contact"),
        "Forge::Action::\"ReadContact\""
    );
    assert_eq!(
        action_uid(ActionVerb::Create, "Order"),
        "Forge::Action::\"CreateOrder\""
    );
}

#[test]
fn field_read_action_uid_uses_underscore_separator() {
    assert_eq!(
        field_read_action_uid("Employee", "salary"),
        "Forge::Action::\"ReadFieldEmployee_salary\""
    );
}

#[test]
fn field_write_action_uid_and_direction() {
    assert_eq!(
        field_write_action_uid("Employee", "salary"),
        "Forge::Action::\"WriteFieldEmployee_salary\""
    );
    assert_eq!(
        field_action_uid("Employee", "salary", FieldDirection::Read),
        "Forge::Action::\"ReadFieldEmployee_salary\""
    );
    assert_eq!(
        field_action_uid("Employee", "salary", FieldDirection::Write),
        "Forge::Action::\"WriteFieldEmployee_salary\""
    );
}

#[test]
fn verb_names() {
    assert_eq!(ActionVerb::List.as_str(), "List");
    assert_eq!(action_uid(ActionVerb::Delete, "X"), "Forge::Action::\"DeleteX\"");
}
