//! Request helpers and errors of the public (cloud) UI: list parameters,
//! display-style names, sanitized theme slots, and the error pages.
use vstd::prelude::*;

use crate::admin::error::{html_escape, html_escape_spec};
use crate::admin::handlers::{form_lookup, form_view};
use crate::admin::views::opt_view;
use crate::cloud::css::{sanitize_html, sanitize_html_spec};
use crate::decimal::{parse_unsigned, parse_usize};
use crate::error::{forge_message, ForgeError};
use crate::text::{char_to_uppercase, char_uppercase, chars_of, has_prefix, push_str, starts_with, str_to_string, string_from};

verus! {

/// Navigation layout of the cloud UI.
#[derive(Debug, Clone, Copy, PartialEq, Eq)]
pub enum NavStyle {
    Sidebar,
    TopNav,
    Minimal,
}

/// Layout of an entity list.
#[derive(Debug, Clone, Copy, PartialEq, Eq)]
pub enum ListStyle {
    Table,
    Cards,
    Compact,
    Kanban,
}

/// Layout of an entity detail page.
#[derive(Debug, Clone, Copy, PartialEq, Eq)]
pub enum DetailStyle {
    Full,
    Split,
    Tabbed,
}

pub open spec fn nav_style_text(s: NavStyle) -> Seq<char> {
    match s {
        NavStyle::Sidebar => "sidebar"@,
        NavStyle::TopNav => "topnav"@,
        NavStyle::Minimal => "minimal"@,
    }
}

pub open spec fn list_style_text(s: ListStyle) -> Seq<char> {
    match s {
        ListStyle::Table => "table"@,
        ListStyle::Cards => "cards"@,
        ListStyle::Compact => "compact"@,
        ListStyle::Kanban => "kanban"@,
    }
}

pub open spec fn detail_style_text(s: DetailStyle) -> Seq<char> {
    match s {
        DetailStyle::Full => "full"@,
        DetailStyle::Split => "split"@,
        DetailStyle::Tabbed => "tabbed"@,
    }
}

/// String name for a nav style.
pub fn nav_style_name(style: NavStyle) -> (r: &'static str)
    ensures
        r@ == nav_style_text(style),
{
    match style {
        NavStyle::Sidebar => "sidebar",
        NavStyle::TopNav => "topnav",
        NavStyle::Minimal => "minimal",
    }
}

/// String name for a list style.
pub fn list_style_name(style: ListStyle) -> (r: &'static str)
    ensures
        r@ == list_style_text(style),
{
    match style {
        ListStyle::Table => "table",
        ListStyle::Cards => "cards",
        ListStyle::Compact => "compact",
        ListStyle::Kanban => "kanban",
    }
}

/// String name for a detail style.
pub fn detail_style_name(style: DetailStyle) -> (r: &'static str)
    ensures
        r@ == detail_style_text(style),
{
    match style {
        DetailStyle::Full => "full",
        DetailStyle::Split => "split",
        DetailStyle::Tabbed => "tabbed",
    }
}

/// Theme slot fields as templates receive them.
#[derive(Debug, Clone)]
pub struct ThemeSlots {
    pub favicon_url: Option<String>,
    pub head_html: Option<String>,
    pub nav_extra_html: Option<String>,
    pub footer_html: Option<String>,
}

/// An optional HTML slot after sanitizing.
pub open spec fn sanitized_slot(o: Option<String>) -> Option<Seq<char>> {
    match o {
        Some(h) => Some(sanitize_html_spec(h@)),
        None => None,
    }
}

fn sanitize_slot(o: &Option<String>) -> (r: Option<String>)
    ensures
        opt_view(r) == sanitized_slot(*o),
{
    match o {
        Some(h) => Some(sanitize_html(h.as_str())),
        None => None,
    }
}

/// The theme's slots for templates: the favicon URL as given, every HTML
/// slot passed through `sanitize_html`.
pub fn theme_slots(
    favicon_url: &Option<String>,
    head_html: &Option<String>,
    nav_extra_html: &Option<String>,
    footer_html: &Option<String>,
) -> (t: ThemeSlots)
    ensures
        opt_view(t.favicon_url) == opt_view(*favicon_url),
        opt_view(t.head_html) == sanitized_slot(*head_html),
        opt_view(t.nav_extra_html) == sanitized_slot(*nav_extra_html),
        opt_view(t.footer_html) == sanitized_slot(*footer_html),
{
    ThemeSlots {
        favicon_url: favicon_url.clone(),
        head_html: sanitize_slot(head_html),
        nav_extra_html: sanitize_slot(nav_extra_html),
        footer_html: sanitize_slot(footer_html),
    }
}

/// Query params for entity list pagination and filtering.
#[derive(Debug, Default)]
pub struct ListParams {
    pub limit: Option<usize>,
    pub offset: Option<usize>,
    /// Field name → value, for each non-empty `filter_<field>` parameter.
    pub filters: Vec<(String, String)>,
}

/// The looked-up parameter read as a `usize`.
pub open spec fn param_usize(raw: Seq<(Seq<char>, Seq<char>)>, key: Seq<char>) -> Option<int> {
    match form_lookup(raw, key) {
        Some(v) => parse_unsigned(v, usize::MAX as int),
        None => None,
    }
}

/// The filter a parameter contributes: a `filter_<field>` key with a
/// non-empty value.
pub open spec fn is_filter_param(p: (Seq<char>, Seq<char>)) -> bool {
    has_prefix(p.0, "filter_"@) && p.1.len() > 0
}

/// The filters of the raw parameters, in order: field name after
/// `filter_`, and the value.
pub open spec fn filters_of(raw: Seq<(Seq<char>, Seq<char>)>) -> Seq<(Seq<char>, Seq<char>)>
    decreases raw.len(),
{
    if raw.len() == 0 {
        Seq::empty()
    } else {
        let rest = filters_of(raw.drop_last());
        let p = raw.last();
        if is_filter_param(p) {
            rest.push((p.0.subrange(7, p.0.len() as int), p.1))
        } else {
            rest
        }
    }
}

fn usize_param(raw: &[(String, String)], key: &str) -> (r: Option<usize>)
    ensures
        match r {
            Some(v) => param_usize(form_view(raw@), key@) == Some(v as int),
            None => param_usize(form_view(raw@), key@) is None,
        },
{
    let k = str_to_string(key);
    let mut i: usize = raw.len();
    let ghost rv = form_view(raw@);
    assert(rv.subrange(0, i as int) =~= rv);
    while i > 0
        invariant
            i <= raw@.len(),
            rv == form_view(raw@),
            k@ == key@,
            form_lookup(rv, key@) == form_lookup(rv.subrange(0, i as int), key@),
        decreases i,
    {
        let ghost t = rv.subrange(0, i as int);
        assert(t.drop_last() =~= rv.subrange(0, i - 1));
        if raw[i - 1].0 == k {
            return parse_usize(raw[i - 1].1.as_str());
        }
        i -= 1;
    }
    None
}

/// Extracts list params from the raw query parameters (distinct keys, as
/// a query map holds them): `limit` and `offset` when they read as `usize`,
/// and every non-empty `filter_<field>` parameter as a filter on `<field>`.
pub fn parse_list_params(raw: &[(String, String)]) -> (p: ListParams)
    requires
        forall|a: int, b: int| 0 <= a < b < raw@.len() ==> raw@[a].0@ != raw@[b].0@,
    ensures
        match p.limit {
            Some(v) => param_usize(form_view(raw@), "limit"@) == Some(v as int),
            None => param_usize(form_view(raw@), "limit"@) is None,
        },
        match p.offset {
            Some(v) => param_usize(form_view(raw@), "offset"@) == Some(v as int),
            None => param_usize(form_view(raw@), "offset"@) is None,
        },
        form_view(p.filters@) == filters_of(form_view(raw@)),
{
    proof {
        reveal_strlit("filter_");
        assert("filter_"@.len() == 7);
    }
    let limit = usize_param(raw, "limit");
    let offset = usize_param(raw, "offset");
    let prefix = chars_of("filter_");
    let mut filters: Vec<(String, String)> = Vec::new();
    let mut i: usize = 0;
    let ghost rv = form_view(raw@);
    while i < raw.len()
        invariant
            i <= raw@.len(),
            rv == form_view(raw@),
            prefix@ == "filter_"@,
            "filter_"@.len() == 7,
            form_view(filters@) == filters_of(rv.subrange(0, i as int)),
        decreases raw@.len() - i,
    {
        let ghost t = rv.subrange(0, i + 1);
        assert(t.drop_last() =~= rv.subrange(0, i as int));
        let kv = chars_of(raw[i].0.as_str());
        if starts_with(&kv, &prefix) && !raw[i].1.as_str().is_empty() {
            let field = string_from(vstd::slice::slice_subrange(kv.as_slice(), 7, kv.len()));
            filters.push((field, raw[i].1.clone()));
            assert(form_view(filters@) =~= filters_of(t));
        }
        i += 1;
    }
    assert(rv.subrange(0, i as int) =~= rv);
    ListParams { limit, offset, filters }
}

/// The most entities a kanban board shows; it has no pages.
pub const KANBAN_LIMIT: usize = 500;

/// The page size of a list when the request names none.
pub const DEFAULT_PAGE_SIZE: usize = 25;

/// What an entity-list page asks the backend for.
#[derive(Debug)]
pub struct ListPlan {
    /// For a kanban board: the enum field whose variants are its columns.
    pub kanban_field: Option<String>,
    pub limit: usize,
    /// The page's offset; a kanban board has none.
    pub offset: Option<usize>,
    /// Field name → value: every entity listed has each of these values.
    pub filters: Vec<(String, String)>,
}

/// Whether a list is shown as a kanban board: its style says so, or the
/// schema has a field to group by and asks for a kanban dashboard.
pub open spec fn shows_kanban(style: ListStyle, has_kanban_field: bool, dashboard_kanban: bool) -> bool {
    style == ListStyle::Kanban || (has_kanban_field && dashboard_kanban)
}

/// Plans an entity-list page. `kanban_field` is the schema's field to group
/// a board by, if it has one; `dashboard_kanban` says whether the schema's
/// dashboard annotation asks for the kanban layout. A board (which needs
/// that field) fetches up to `KANBAN_LIMIT` entities with no offset; any
/// other list fetches the requested page (25 from offset 0 by default).
/// Either way the request's filters all apply.
pub fn plan_entity_list(
    style: ListStyle,
    kanban_field: Option<String>,
    dashboard_kanban: bool,
    params: ListParams,
) -> (p: ListPlan)
    ensures
        p.filters == params.filters,
        (shows_kanban(style, kanban_field is Some, dashboard_kanban) && kanban_field is Some) ==> {
            &&& p.kanban_field == kanban_field
            &&& p.limit == KANBAN_LIMIT
            &&& p.offset is None
        },
        !(shows_kanban(style, kanban_field is Some, dashboard_kanban) && kanban_field is Some) ==> {
            &&& p.kanban_field is None
            &&& p.limit == match params.limit {
                Some(l) => l,
                None => DEFAULT_PAGE_SIZE,
            }
            &&& p.offset == Some(
                match params.offset {
                    Some(o) => o,
                    None => 0usize,
                },
            )
        },
{
    let use_kanban = matches!(style, ListStyle::Kanban) || (kanban_field.is_some() && dashboard_kanban);
    if use_kanban && kanban_field.is_some() {
        ListPlan { kanban_field, limit: KANBAN_LIMIT, offset: None, filters: params.filters }
    } else {
        let limit = match params.limit {
            Some(l) => l,
            None => DEFAULT_PAGE_SIZE,
        };
        let offset = match params.offset {
            Some(o) => o,
            None => 0,
        };
        ListPlan { kanban_field: None, limit, offset: Some(offset), filters: params.filters }
    }
}

/// The first character uppercased (by `char::to_uppercase`), the rest kept.
pub open spec fn capitalize_spec(s: Seq<char>) -> Seq<char> {
    if s.len() == 0 {
        Seq::empty()
    } else {
        char_uppercase(s[0]) + s.drop_first()
    }
}

/// Capitalizes the first letter of a string.
pub fn capitalize(s: &str) -> (r: String)
    ensures
        r@ == capitalize_spec(s@),
{
    let v = chars_of(s);
    if v.len() == 0 {
        return String::new();
    }
    let mut r = char_to_uppercase(v[0]);
    let rest = string_from(vstd::slice::slice_subrange(v.as_slice(), 1, v.len()));
    push_str(&mut r, rest.as_str());
    assert(v@.subrange(1, v@.len() as int) =~= s@.drop_first());
    r
}

/// Cloud UI error type.
#[derive(Debug)]
pub enum CloudError {
    NotFound(String),
    Forbidden(String),
    Internal(String),
}

/// The access-denied page, with the escaped message in its body.
pub open spec fn forbidden_page(escaped: Seq<char>) -> Seq<char> {
    "<!DOCTYPE html>\n<html lang=\"en\">\n<head>\n    <meta charset=\"UTF-8\">\n    <meta name=\"viewport\" content=\"width=device-width, initial-scale=1.0\">\n    <title>Access Denied</title>\n    <link rel=\"stylesheet\" href=\"/app/theme.css\">\n</head>\n<body class=\"sf-app\">\n    <div class=\"sf-error-page\">\n        <div class=\"sf-error-code\">403</div>\n        <div class=\"sf-error-message\">"@
        + escaped
        + "</div>\n        <a href=\"/app/\" class=\"sf-btn sf-btn-primary\">Back to Dashboard</a>\n    </div>\n</body>\n</html>"@
}

/// The status code of each error.
pub open spec fn cloud_status(e: CloudError) -> u16 {
    match e {
        CloudError::NotFound(_) => 404,
        CloudError::Forbidden(_) => 403,
        CloudError::Internal(_) => 500,
    }
}

/// The response body of each error: plain text for missing and internal
/// errors, an HTML page with the escaped message for refusals.
pub open spec fn cloud_body(e: CloudError) -> Seq<char> {
    match e {
        CloudError::NotFound(m) => "Not found: "@ + m@,
        CloudError::Forbidden(m) => forbidden_page(html_escape_spec(m@)),
        CloudError::Internal(m) => "Internal error: "@ + m@,
    }
}

impl CloudError {
    /// The HTTP status code of the response.
    pub fn status_code(&self) -> (c: u16)
        ensures
            c == cloud_status(*self),
    {
        match self {
            CloudError::NotFound(_) => 404,
            CloudError::Forbidden(_) => 403,
            CloudError::Internal(_) => 500,
        }
    }

    /// Whether the body is an HTML page (only for refusals).
    pub fn is_html(&self) -> (b: bool)
        ensures
            b == (*self is Forbidden),
    {
        match self {
            CloudError::Forbidden(_) => true,
            _ => false,
        }
    }

    /// The response body.
    pub fn body(&self) -> (s: String)
        ensures
            s@ == cloud_body(*self),
    {
        match self {
            CloudError::NotFound(m) => {
                let mut s = str_to_string("Not found: ");
                push_str(&mut s, m.as_str());
                s
            },
            CloudError::Forbidden(m) => {
                let escaped = html_escape(m.as_str());
                let mut s = str_to_string(
                    "<!DOCTYPE html>\n<html lang=\"en\">\n<head>\n    <meta charset=\"UTF-8\">\n    <meta name=\"viewport\" content=\"width=device-width, initial-scale=1.0\">\n    <title>Access Denied</title>\n    <link rel=\"stylesheet\" href=\"/app/theme.css\">\n</head>\n<body class=\"sf-app\">\n    <div class=\"sf-error-page\">\n        <div class=\"sf-error-code\">403</div>\n        <div class=\"sf-error-message\">",
                );
                push_str(&mut s, escaped.as_str());
                push_str(
                    &mut s,
                    "</div>\n        <a href=\"/app/\" class=\"sf-btn sf-btn-primary\">Back to Dashboard</a>\n    </div>\n</body>\n</html>",
                );
                s
            },
            CloudError::Internal(m) => {
                let mut s = str_to_string("Internal error: ");
                push_str(&mut s, m.as_str());
                s
            },
        }
    }

    /// A SchemaForge error shown in the cloud UI: an internal error carrying
    /// its message.
    pub fn from_forge(e: ForgeError) -> (c: CloudError)
        ensures
            c matches CloudError::Internal(m) && m@ == forge_message(e),
    {
        CloudError::Internal(e.to_string())
    }
}

} // verus!
