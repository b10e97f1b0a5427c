//! Data handed to the cloud UI templates.
use vstd::prelude::*;

verus! {

/// One schema in the navigation.
#[derive(Debug, Clone)]
pub struct NavSchemaEntry {
    pub url_name: String,
    pub label: String,
}

/// One dashboard widget card.
#[derive(Debug, Clone)]
pub struct DashboardCard {
    pub url_name: String,
    pub label: String,
    pub widget_label: String,
    pub display_value: String,
}

/// The cloud login page.
pub struct CloudLoginTemplate {
    pub app_title: String,
    pub logo_url: Option<String>,
    pub error: Option<String>,
    pub favicon_url: Option<String>,
    pub head_html: Option<String>,
}

} // verus!
