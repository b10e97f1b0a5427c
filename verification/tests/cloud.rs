use schema_forge_acton::cloud::handlers::{
    capitalize, detail_style_name, list_style_name, nav_style_name, parse_list_params, plan_entity_list, theme_slots,
    CloudError, DetailStyle, ListParams, ListStyle, NavStyle,
};
use schema_forge_acton::error::ForgeError;

fn pairs(p: &[(&str, &str)]) -> Vec<(String, String)> {
    p.iter().map(|(k, v)| (k.to_string(), v.to_string())).collect()
}

#[test]
fn list_params_read_numbers_and_filters() {
    let raw = pairs(&[
        ("limit", "25"),
        ("offset", "abc"),
        ("filter_status", "open"),
        ("filter_owner", ""),
        ("sort", "name"),
    ]);
    let p = parse_list_params(&raw);
    assert_eq!(p.limit, Some(25));
    assert_eq!(p.offset, None);
    assert_eq!(p.filters, vec![("status".to_string(), "open".to_string())]);
}

#[test]
fn style_names() {
    assert_eq!(nav_style_name(NavStyle::TopNav), "topnav");
    assert_eq!(list_style_name(ListStyle::Kanban), "kanban");
    assert_eq!(detail_style_name(DetailStyle::Split), "split");
}

#[test]
fn capitalize_first_letter() {
    assert_eq!(capitalize("contacts"), "Contacts");
    assert_eq!(capitalize(""), "");
    assert_eq!(capitalize("ßtraße"), "SStraße");
}

#[test]
fn theme_slots_sanitize_html() {
    let slots = theme_slots(
        &Some("/favicon.ico".to_string()),
        &Some("<script>alert(1)</script><meta name=\"x\">".to_string()),
        &None,
        &Some("<p>footer</p>".to_string()),
    );
    assert_eq!(slots.favicon_url, Some("/favicon.ico".to_string()));
    assert!(!slots.head_html.unwrap().contains("<script>"));
    assert!(slots.nav_extra_html.is_none());
    assert_eq!(slots.footer_html, Some("<p>footer</p>".to_string()));
}

#[test]
fn cloud_error_responses() {
    let e = CloudError::NotFound("Contact".to_string());
    assert_eq!(e.status_code(), 404);
    assert_eq!(e.body(), "Not found: Contact");
    let e = CloudError::Forbidden("<no>".to_string());
    assert_eq!(e.status_code(), 403);
    assert!(e.is_html());
    assert!(e.body().contains("<div class=\"sf-error-message\">&lt;no&gt;</div>"));
    let e = CloudError::from_forge(ForgeError::SchemaNotFound { name: "X".to_string() });
    assert_eq!(e.status_code(), 500);
    assert_eq!(e.body(), "Internal error: schema 'X' not found");
}

#[test]
fn table_list_uses_requested_page_and_defaults() {
    let params = parse_list_params(&pairs(&[("limit", "10"), ("filter_status", "open")]));
    let plan = plan_entity_list(ListStyle::Table, Some("status".to_string()), false, params);
    assert_eq!(plan.kanban_field, None);
    assert_eq!(plan.limit, 10);
    assert_eq!(plan.offset, Some(0));
    assert_eq!(plan.filters, vec![("status".to_string(), "open".to_string())]);

    let plan = plan_entity_list(ListStyle::Cards, None, true, ListParams::default());
    assert_eq!(plan.limit, 25);
    assert_eq!(plan.offset, Some(0));
    assert!(plan.filters.is_empty());
}

#[test]
fn kanban_list_fetches_the_board_without_pages() {
    let params = parse_list_params(&pairs(&[("limit", "10"), ("offset", "20")]));
    let plan = plan_entity_list(ListStyle::Kanban, Some("status".to_string()), false, params);
    assert_eq!(plan.kanban_field, Some("status".to_string()));
    assert_eq!(plan.limit, 500);
    assert_eq!(plan.offset, None);

    // A dashboard asking for kanban turns a table into a board.
    let plan = plan_entity_list(ListStyle::Table, Some("stage".to_string()), true, ListParams::default());
    assert_eq!(plan.kanban_field, Some("stage".to_string()));
    assert_eq!(plan.limit, 500);
}

#[test]
fn kanban_style_without_a_field_falls_back_to_a_page() {
    let params = parse_list_params(&pairs(&[("offset", "50")]));
    let plan = plan_entity_list(ListStyle::Kanban, None, true, params);
    assert_eq!(plan.kanban_field, None);
    assert_eq!(plan.limit, 25);
    assert_eq!(plan.offset, Some(50));
}
