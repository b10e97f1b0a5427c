use schema_forge_acton::cloud::css::{sanitize_css, sanitize_html};

#[test]
fn sanitize_css_strips_import() {
    let input = "@import url('evil.css');\n.safe { color: red; }";
    let result = sanitize_css(input);
    assert!(!result.contains("@import"));
    assert!(result.contains(".safe { color: red; }"));
}

#[test]
fn sanitize_css_strips_url() {
    let input = ".bg { background: url('http://evil.com/img.png'); }";
    let result = sanitize_css(input);
    assert!(!result.contains("url("));
}

#[test]
fn sanitize_css_strips_javascript() {
    let input = ".xss { background: javascript:alert(1); }";
    let result = sanitize_css(input);
    assert!(!result.contains("javascript:"));
}

#[test]
fn sanitize_css_strips_expression() {
    let input = ".ie { width: expression(document.body.clientWidth); }";
    let result = sanitize_css(input);
    assert!(!result.contains("expression("));
}

#[test]
fn sanitize_css_strips_behavior() {
    let input = ".htc { behavior: url(evil.htc); }";
    let result = sanitize_css(input);
    assert!(!result.contains("behavior:"));
}

#[test]
fn sanitize_html_strips_script_tags() {
    let input = "<div>Hello</div><script>alert(1)</script><p>World</p>";
    let result = sanitize_html(input);
    assert!(!result.contains("<script>"));
    assert!(result.contains("<div>Hello</div>"));
    assert!(result.contains("<p>World</p>"));
}

#[test]
fn sanitize_html_strips_iframe() {
    let input = r#"<iframe src="evil.com"></iframe><p>safe</p>"#;
    let result = sanitize_html(input);
    assert!(!result.contains("<iframe"));
    assert!(result.contains("<p>safe</p>"));
}

#[test]
fn sanitize_html_strips_event_handlers() {
    let input = r#"<img onerror="alert(1)" src="x.png">"#;
    let result = sanitize_html(input);
    assert!(!result.contains("onerror"));
}

#[test]
fn sanitize_html_strips_javascript_protocol() {
    let input = r#"<a href="javascript:alert(1)">click</a>"#;
    let result = sanitize_html(input);
    assert!(!result.contains("javascript:"));
}

#[test]
fn sanitize_html_preserves_safe_content() {
    let input = r##"<link rel="icon" href="/favicon.ico"><meta name="theme-color" content="#333">"##;
    let result = sanitize_html(input);
    assert!(result.contains("<link"));
    assert!(result.contains("<meta"));
}

#[test]
fn sanitize_html_strips_data_uri() {
    let input = r#"<a href="data:text/html,<script>alert(1)</script>">bad</a>"#;
    let result = sanitize_html(input);
    assert!(!result.contains("data:text/html"));
}

#[test]
fn sanitize_css_preserves_safe_css() {
    let input = ".sf-custom {\n    color: #333;\n    font-size: 14px;\n    border: 1px solid #ccc;\n}";
    let result = sanitize_css(input);
    assert!(result.contains("color: #333;"));
    assert!(result.contains("font-size: 14px;"));
}

#[test]
fn sanitize_css_is_case_insensitive() {
    let result = sanitize_css("A { B: URL(x); }\n.ok { color: blue; }");
    assert!(!result.contains("URL("));
    assert!(result.contains(".ok { color: blue; }"));
}

#[test]
fn generate_css_includes_custom_css() {
    let css = schema_forge_acton::cloud::css::generate_css(
        ":root {\n    --sf-primary: #3B82F6;\n}\n",
        ".sf-app { display: flex; }\n",
        Some(".my-class { color: red; }"),
    );
    assert!(css.contains(".my-class { color: red; }"));
}

#[test]
fn generate_css_orders_vars_base_then_sanitized_custom() {
    let css = schema_forge_acton::cloud::css::generate_css(
        ":root{}\n",
        ".sf-app{}\n",
        Some("@import url('x.css');\n.ok { color: blue; }"),
    );
    assert_eq!(css, ":root{}\n.sf-app{}\n.ok { color: blue; }\n");
    assert_eq!(schema_forge_acton::cloud::css::generate_css("a", "b", None), "ab");
}
