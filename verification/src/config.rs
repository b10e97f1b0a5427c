//! SchemaForge configuration sections with their defaults.
use vstd::prelude::*;

use crate::authz::principal_claims::PrincipalClaimsConfig;
use crate::text::str_to_string;

verus! {

/// The default URL path prefix for SchemaForge routes.
pub fn default_route_prefix() -> (s: String)
    ensures
        s@ == "/forge"@,
{
    str_to_string("/forge")
}

/// `[schema_forge.client]` section: connection defaults for the CLI's HTTP
/// commands. All fields are optional.
#[derive(Debug, Clone)]
pub struct ClientConfig {
    /// Base URL of the running instance.
    pub server: Option<String>,
    /// Path to a file containing the Bearer token.
    pub token_file: Option<String>,
    /// Path to a PEM-encoded CA certificate.
    pub ca_cert: Option<String>,
    /// Per-request timeout in seconds.
    pub timeout_secs: Option<u64>,
}

impl Default for ClientConfig {
    fn default() -> (c: Self)
        ensures
            c.server is None,
            c.token_file is None,
            c.ca_cert is None,
            c.timeout_secs is None,
    {
        ClientConfig { server: None, token_file: None, ca_cert: None, timeout_secs: None }
    }
}

/// `[schema_forge.authz]` section: operator-defined principal claim
/// mappings, empty by default.
pub struct AuthzConfig {
    pub principal_claims: PrincipalClaimsConfig,
}

impl Default for AuthzConfig {
    fn default() -> (c: Self)
        ensures
            c.principal_claims.pairs().len() == 0,
    {
        AuthzConfig { principal_claims: PrincipalClaimsConfig::new() }
    }
}

/// SchemaForge settings: the `[schema_forge]` section of `config.toml`, as
/// far as the library reads it.
pub struct SchemaForgeSettings {
    /// The URL path prefix for SchemaForge routes.
    pub route_prefix: String,
    /// Whether Cedar policy templates are generated when schemas are
    /// registered.
    pub auto_generate_cedar_policies: bool,
    /// Authorization settings.
    pub authz: AuthzConfig,
    /// Connection defaults for the CLI's HTTP commands.
    pub client: ClientConfig,
}

impl Default for SchemaForgeSettings {
    fn default() -> (s: Self)
        ensures
            s.route_prefix@ == "/forge"@,
            !s.auto_generate_cedar_policies,
            s.authz.principal_claims.pairs().len() == 0,
            s.client.server is None,
            s.client.token_file is None,
            s.client.ca_cert is None,
            s.client.timeout_secs is None,
    {
        SchemaForgeSettings {
            route_prefix: default_route_prefix(),
            auto_generate_cedar_policies: false,
            authz: AuthzConfig::default(),
            client: ClientConfig::default(),
        }
    }
}

/// The service's custom configuration: its `[schema_forge]` section.
pub struct SchemaForgeConfig {
    pub schema_forge: SchemaForgeSettings,
}

impl Default for SchemaForgeConfig {
    fn default() -> (c: Self)
        ensures
            c.schema_forge.route_prefix@ == "/forge"@,
            !c.schema_forge.auto_generate_cedar_policies,
            c.schema_forge.authz.principal_claims.pairs().len() == 0,
            c.schema_forge.client.server is None,
    {
        SchemaForgeConfig { schema_forge: SchemaForgeSettings::default() }
    }
}

} // verus!
