# schema_forge_acton

The service layer of SchemaForge, as a Verus-verified library: what the
service derives from schema definitions and requests, with each function's
result stated in its contract and proved.

- `definition` — schema definitions: fields, types, modifiers, annotations.
- `cedar` — Cedar schema source and policy generation from schemas.
- `authz` — the Cedar namespace, role ranks (read from TOML), principal-claim
  mappings, principal and placeholder entities, the policy bundle (Cedar
  schema and policies compiled and strictly validated, kept with their
  sources, with the policy hash), and `authorize` / `authorize_field`.
  Their contracts give each outcome exactly: which identifier fails to
  parse, which claims fail the mappings, when Cedar refuses the entities,
  the context or the request, and otherwise Cedar's decision, named over
  the bundle's two sources, the principal, the action, the resource and
  the context.
- `access`, `auth` — access verbs, the schema access check, permission
  summaries and field filtering (each made of `authorize` /
  `authorize_field` decisions), tenant scoping, claims.
- `graphql` — the generated GraphQL schema (types, inputs, fields, type
  references), filter keys, error codes.
- `admin`, `cloud` — the schema-editor form (read, then checked against
  the verdicts of the schema-definition rules), editor and graph views,
  sanitizers, theme and list settings of the two UIs, the plan of an
  entity-list page (board or page, limits, filters), and the relation
  references of listed entities with the labels they are shown by.
- `form` — an entity form read back into field values by the schema's
  field types (datetimes as UTC instants).
- `extension` — startup checks of the schemas' storage references.
- `export_config`, `export_rate_limit`, `export_job`, `export_bundle` —
  export caps, per-subject rate limiting, the job table, ZIP bundles.
- `email`, `config`, `error` — configuration sections and errors.
- `text`, `decimal`, `order` — string, number and ordering helpers the
  contracts are stated with.

`tests/` runs the library; `app/` holds what stays outside it: reading
configuration and policy files, serde forms of the configuration types,
JSON rendering, the floating-point reading of submitted numbers, and the
clock-driven rate limiter.
