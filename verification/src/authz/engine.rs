//! Authorization decisions: [`authorize`] builds the Cedar request for a
//! principal, an action on a schema and a resource (or the schema's
//! placeholder), evaluates it against the bundle in force and reports the
//! decision; the per-field action a field check evaluates.
use vstd::prelude::*;

use crate::access::claims_of;
use crate::auth::Claims;
use crate::authz::adapters::{
    adapter_message, build_principal_entities, build_resource_placeholder, cedar_uid_outcome, placeholder_attrs,
    principal_entities_built, principal_uid, uid_from_text, user_id_spec, action_entity_uid, AdapterError,
    CedarUid, EntityParts,
};
use crate::authz::principal_claims::extraction_fails_at;
use crate::authz::namespace::{verb_text, ActionVerb};
use crate::authz::principal_claims::{CedarAttr, PrincipalClaimMappings};
use crate::authz::loader::CustomPolicySource;
use crate::authz::role_ranks::RoleRanks;
use crate::authz::store::{compiled_from, custom_texts, policy_source, CedarPolicies, CedarSchemaBuild, PolicyStoreError, PolicyStoreSnapshot};
use crate::cedar::policy_gen::{all_schema_policies_spec, global_policies_spec};
use crate::cedar::schema_gen::{schemas_source, FORGE_NAMESPACE_HEAD, FORGE_NAMESPACE_TAIL};
use crate::definition::SchemaDefinition;
use crate::authz::namespace::{field_read_action_uid, field_write_action_uid, action_uid_of};
use crate::text::{join_seq, join_strings, push_str, str_to_string, views};

verus! {

/// The text of an error followed by each error in its source chain, joined
/// by `": "`; the chain is given outermost first.
pub fn render_error_chain(chain: &[String]) -> (s: String)
    ensures
        s@ == join_seq(views(chain@), ": "@),
{
    join_strings(chain, ": ")
}

/// Direction for field-level authorization decisions.
#[derive(Debug, Clone, Copy, PartialEq, Eq)]
pub enum FieldDirection {
    /// Reading the field on a response (`ReadField...` action).
    Read,
    /// Writing the field on a request body (`WriteField...` action).
    Write,
}

/// The action a field check evaluates: `ReadField<schema>_<field>` or
/// `WriteField<schema>_<field>` in the action namespace.
pub fn field_action_uid(schema_name: &str, field_name: &str, direction: FieldDirection) -> (r: String)
    ensures
        r@ == action_uid_of(
            (match direction {
                FieldDirection::Read => "ReadField"@,
                FieldDirection::Write => "WriteField"@,
            }) + schema_name@ + "_"@ + field_name@,
        ),
{
    match direction {
        FieldDirection::Read => field_read_action_uid(schema_name, field_name),
        FieldDirection::Write => field_write_action_uid(schema_name, field_name),
    }
}

/// Errors raised while preparing or running a Cedar authorization request.
#[derive(Debug)]
pub enum AuthzError {
    /// Domain-to-Cedar adapter failed.
    Adapter(AdapterError),
    /// Cedar request construction failed.
    Request(String),
}

/// The message of each error: an adapter failure shows its own message.
pub open spec fn authz_message(e: AuthzError) -> Seq<char> {
    match e {
        AuthzError::Adapter(a) => adapter_message(a),
        AuthzError::Request(m) => "invalid Cedar request: "@ + m@,
    }
}

impl AuthzError {
    /// The error's display text.
    pub fn to_string(&self) -> (s: String)
        ensures
            s@ == authz_message(*self),
    {
        match self {
            AuthzError::Adapter(a) => a.to_string(),
            AuthzError::Request(m) => {
                let mut s = str_to_string("invalid Cedar request: ");
                push_str(&mut s, m.as_str());
                s
            },
        }
    }
}

/// Result of a single authorization evaluation.
#[derive(Debug, Clone)]
pub struct AuthzDecision {
    /// Cedar's raw Allow result.
    pub allowed: bool,
    /// Cedar policy IDs that contributed to the decision.
    pub matched_policies: Vec<String>,
    /// Cedar evaluation error messages, if any.
    pub errors: Vec<String>,
}

impl AuthzDecision {
    /// The effective decision: Allow with no evaluation errors.
    pub fn is_allow(&self) -> (b: bool)
        ensures
            b == (self.allowed && self.errors@.len() == 0),
    {
        self.allowed && self.errors.len() == 0
    }
}

// ---------------------------------------------------------------------------
// Cedar's authorizer, as `authorize` calls it
// ---------------------------------------------------------------------------

/// A Cedar entity.
#[verifier::external_type_specification]
#[verifier::external_body]
pub struct ExCedarEntity(cedar_policy::Entity);

/// A Cedar entity set.
#[verifier::external_type_specification]
#[verifier::external_body]
pub struct ExCedarEntities(cedar_policy::Entities);

/// A Cedar attribute value expression.
#[verifier::external_type_specification]
#[verifier::external_body]
pub struct ExRestrictedExpression(cedar_policy::RestrictedExpression);

/// A Cedar request context.
#[verifier::external_type_specification]
#[verifier::external_body]
pub struct ExCedarContext(cedar_policy::Context);

/// A Cedar authorization request.
#[verifier::external_type_specification]
#[verifier::external_body]
pub struct ExCedarRequest(cedar_policy::Request);

/// A Cedar authorization response.
#[verifier::external_type_specification]
#[verifier::external_body]
pub struct ExCedarResponse(cedar_policy::Response);

/// An attribute value as a mathematical value.
pub enum AttrView {
    String(Seq<char>),
    Long(i64),
    Bool(bool),
    SetOfString(Seq<Seq<char>>),
}

/// An attribute value as a mathematical value.
pub open spec fn attr_view(a: CedarAttr) -> AttrView {
    match a {
        CedarAttr::String(s) => AttrView::String(s@),
        CedarAttr::Long(n) => AttrView::Long(n),
        CedarAttr::Bool(b) => AttrView::Bool(b),
        CedarAttr::SetOfString(items) => AttrView::SetOfString(views(items@)),
    }
}

/// An entity as mathematical values: its UID text, its attributes in
/// order, and its parents' UID texts.
pub type EntityView = (Seq<char>, Seq<(Seq<char>, AttrView)>, Seq<Seq<char>>);

/// The parts of an entity as mathematical values.
pub open spec fn parts_view(p: EntityParts) -> EntityView {
    (p.uid@, p.attrs@.map_values(|a: (String, CedarAttr)| (a.0@, attr_view(a.1))), views(p.parents@))
}

/// An entity set as mathematical values: each batch of entities put into
/// it, in order, with the source of the schema the batch was checked
/// against.
pub type StoreView = Seq<(Seq<char>, Seq<EntityView>)>;

/// A request as mathematical values: the source of the schema it is
/// validated against; the principal's, the action's and the resource's UID
/// texts; and the one attribute of its context.
pub type RequestView = (Seq<char>, Seq<char>, Seq<char>, Seq<char>, (Seq<char>, AttrView));

/// Names whether cedar `Entity::new` builds the entity of these parts
/// (evaluating its attribute expressions).
pub uninterp spec fn cedar_entity_ok(e: EntityView) -> bool;

/// Names whether cedar `Entities::from_entities` accepts these entities
/// against the schema built from `schema_src`.
pub uninterp spec fn cedar_entities_ok(schema_src: Seq<char>, entities: Seq<EntityView>) -> bool;

/// Names whether cedar `Entities::add_entities` accepts `more` into the
/// entity set `store`, against the schema built from `schema_src`.
pub uninterp spec fn cedar_add_entities_ok(store: StoreView, schema_src: Seq<char>, more: Seq<EntityView>) -> bool;

/// Names whether cedar `Context::from_pairs` builds a context of the one
/// attribute `name` with `value`.
pub uninterp spec fn cedar_context_ok(name: Seq<char>, value: AttrView) -> bool;

/// Names whether cedar `Request::new` accepts the request.
pub uninterp spec fn cedar_request_ok(request: RequestView) -> bool;

/// Names whether the decision of cedar `Authorizer::is_authorized`, on the
/// request, the policies parsed from `policies_src` and the entity set, is
/// `Allow`.
pub uninterp spec fn cedar_allows(policies_src: Seq<char>, request: RequestView, store: StoreView) -> bool;

/// Names the ids of the policies cedar `Authorizer::is_authorized` gives as
/// the reasons of its decision on these arguments.
pub uninterp spec fn cedar_reasons(policies_src: Seq<char>, request: RequestView, store: StoreView) -> Set<Seq<char>>;

/// Names the texts of the evaluation errors cedar `Authorizer::is_authorized`
/// reports on these arguments.
pub uninterp spec fn cedar_errors(policies_src: Seq<char>, request: RequestView, store: StoreView) -> Set<Seq<char>>;

/// A Cedar attribute value expression, with the value it was built from.
pub struct CedarValue {
    expr: cedar_policy::RestrictedExpression,
    shown: Ghost<AttrView>,
}

impl View for CedarValue {
    type V = AttrView;

    closed spec fn view(&self) -> AttrView {
        self.shown@
    }
}

/// A Cedar entity, with the parts it was built from.
pub struct CedarEntity {
    entity: cedar_policy::Entity,
    shown: Ghost<EntityView>,
}

impl View for CedarEntity {
    type V = EntityView;

    closed spec fn view(&self) -> EntityView {
        self.shown@
    }
}

/// A Cedar entity set, with the batches it was built from.
pub struct CedarEntities {
    entities: cedar_policy::Entities,
    shown: Ghost<StoreView>,
}

impl View for CedarEntities {
    type V = StoreView;

    closed spec fn view(&self) -> StoreView {
        self.shown@
    }
}

/// A Cedar context, with its one attribute.
pub struct CedarContext {
    context: cedar_policy::Context,
    shown: Ghost<(Seq<char>, AttrView)>,
}

impl View for CedarContext {
    type V = (Seq<char>, AttrView);

    closed spec fn view(&self) -> (Seq<char>, AttrView) {
        self.shown@
    }
}

/// A Cedar request, with what it was built from.
pub struct CedarRequest {
    request: cedar_policy::Request,
    shown: Ghost<RequestView>,
}

impl View for CedarRequest {
    type V = RequestView;

    closed spec fn view(&self) -> RequestView {
        self.shown@
    }
}

/// A Cedar response, with the policy source, the request and the entity
/// set it answers.
pub struct CedarResponse {
    response: cedar_policy::Response,
    shown: Ghost<(Seq<char>, RequestView, StoreView)>,
}

impl View for CedarResponse {
    type V = (Seq<char>, RequestView, StoreView);

    closed spec fn view(&self) -> (Seq<char>, RequestView, StoreView) {
        self.shown@
    }
}

/// The values of entities, in order.
pub open spec fn shown_entities(es: Seq<CedarEntity>) -> Seq<EntityView> {
    es.map_values(|e: CedarEntity| e@)
}

/// The entity the UID, attributes and parents describe.
pub open spec fn entity_shown(uid: Seq<char>, attrs: Seq<(String, CedarValue)>, parents: Seq<CedarUid>) -> EntityView {
    (uid, attrs.map_values(|a: (String, CedarValue)| (a.0@, a.1@)), parents.map_values(|p: CedarUid| p@))
}

/// The text of a string value (empty for any other value).
pub open spec fn string_of(v: AttrView) -> Seq<char> {
    match v {
        AttrView::String(s) => s,
        _ => Seq::empty(),
    }
}

/// cedar `RestrictedExpression::new_string`.
#[verifier::external_body]
fn restricted_string(s: String) -> (r: CedarValue)
    ensures
        r@ == AttrView::String(s@),
{
    let shown = Ghost(AttrView::String(s@));
    CedarValue { expr: cedar_policy::RestrictedExpression::new_string(s), shown }
}

/// cedar `RestrictedExpression::new_long`.
#[verifier::external_body]
fn restricted_long(n: i64) -> (r: CedarValue)
    ensures
        r@ == AttrView::Long(n),
{
    CedarValue { expr: cedar_policy::RestrictedExpression::new_long(n), shown: Ghost(AttrView::Long(n)) }
}

/// cedar `RestrictedExpression::new_bool`.
#[verifier::external_body]
fn restricted_bool(b: bool) -> (r: CedarValue)
    ensures
        r@ == AttrView::Bool(b),
{
    CedarValue { expr: cedar_policy::RestrictedExpression::new_bool(b), shown: Ghost(AttrView::Bool(b)) }
}

/// cedar `RestrictedExpression::new_set`, of string values.
#[verifier::external_body]
fn restricted_set(items: Vec<CedarValue>) -> (r: CedarValue)
    requires
        forall|i: int| 0 <= i < items@.len() ==> items@[i]@ is String,
    ensures
        r@ == AttrView::SetOfString(items@.map_values(|v: CedarValue| string_of(v@))),
{
    let shown = Ghost(AttrView::SetOfString(items@.map_values(|v: CedarValue| string_of(v@))));
    CedarValue { expr: cedar_policy::RestrictedExpression::new_set(items.into_iter().map(|v| v.expr)), shown }
}

/// cedar `Entity::new`, the attributes collected into a map and the
/// parents into a set. It builds the entity exactly when `cedar_entity_ok`
/// holds of the parts; the error's text is left unsaid.
#[verifier::external_body]
fn cedar_entity(uid: CedarUid, attrs: Vec<(String, CedarValue)>, parents: Vec<CedarUid>) -> (r: Result<
    CedarEntity,
    String,
>)
    ensures
        r is Ok <==> cedar_entity_ok(entity_shown(uid@, attrs@, parents@)),
        r matches Ok(e) ==> e@ == entity_shown(uid@, attrs@, parents@),
{
    let shown = Ghost(entity_shown(uid@, attrs@, parents@));
    match cedar_policy::Entity::new(
        uid.into_cedar(),
        attrs.into_iter().map(|(k, v)| (k, v.expr)).collect(),
        parents.into_iter().map(|p| p.into_cedar()).collect(),
    ) {
        Ok(entity) => Ok(CedarEntity { entity, shown }),
        Err(e) => Err(e.to_string()),
    }
}

/// cedar `Entities::from_entities`, checked against the schema. It builds
/// the set exactly when `cedar_entities_ok` holds; the error's text is left
/// unsaid.
#[verifier::external_body]
fn entities_from(entities: Vec<CedarEntity>, schema: &CedarSchemaBuild) -> (r: Result<CedarEntities, String>)
    ensures
        r is Ok <==> cedar_entities_ok(schema@, shown_entities(entities@)),
        r matches Ok(s) ==> s@ == seq![(schema@, shown_entities(entities@))],
{
    let shown = Ghost(seq![(schema@, shown_entities(entities@))]);
    match cedar_policy::Entities::from_entities(entities.into_iter().map(|e| e.entity), Some(schema.cedar())) {
        Ok(es) => Ok(CedarEntities { entities: es, shown }),
        Err(e) => Err(e.to_string()),
    }
}

/// cedar `Entities::add_entities` on a copy of `base`, checked against the
/// schema. It succeeds exactly when `cedar_add_entities_ok` holds; the
/// error's text is left unsaid.
#[verifier::external_body]
fn entities_with(base: &CedarEntities, more: Vec<CedarEntity>, schema: &CedarSchemaBuild) -> (r: Result<
    CedarEntities,
    String,
>)
    ensures
        r is Ok <==> cedar_add_entities_ok(base@, schema@, shown_entities(more@)),
        r matches Ok(s) ==> s@ == base@.push((schema@, shown_entities(more@))),
{
    let shown = Ghost(base@.push((schema@, shown_entities(more@))));
    match base.entities.clone().add_entities(more.into_iter().map(|e| e.entity), Some(schema.cedar())) {
        Ok(es) => Ok(CedarEntities { entities: es, shown }),
        Err(e) => Err(e.to_string()),
    }
}

/// cedar `Context::from_pairs` with the one pair `name`, `value`. It builds
/// the context exactly when `cedar_context_ok` holds; the error's text is
/// left unsaid.
#[verifier::external_body]
fn context_from_pair(name: String, value: CedarValue) -> (r: Result<CedarContext, String>)
    ensures
        r is Ok <==> cedar_context_ok(name@, value@),
        r matches Ok(c) ==> c@ == (name@, value@),
{
    let shown = Ghost((name@, value@));
    match cedar_policy::Context::from_pairs([(name, value.expr)]) {
        Ok(context) => Ok(CedarContext { context, shown }),
        Err(e) => Err(e.to_string()),
    }
}

/// cedar `Request::new`, validated against the schema. It builds the
/// request exactly when `cedar_request_ok` holds; the error's text is left
/// unsaid.
#[verifier::external_body]
fn request_new(
    principal: CedarUid,
    action: CedarUid,
    resource: CedarUid,
    context: CedarContext,
    schema: &CedarSchemaBuild,
) -> (r: Result<CedarRequest, String>)
    ensures
        r is Ok <==> cedar_request_ok((schema@, principal@, action@, resource@, context@)),
        r matches Ok(q) ==> q@ == (schema@, principal@, action@, resource@, context@),
{
    let shown = Ghost((schema@, principal@, action@, resource@, context@));
    match cedar_policy::Request::new(
        principal.into_cedar(),
        action.into_cedar(),
        resource.into_cedar(),
        context.context,
        Some(schema.cedar()),
    ) {
        Ok(request) => Ok(CedarRequest { request, shown }),
        Err(e) => Err(e.to_string()),
    }
}

/// cedar `Authorizer::is_authorized` (on a new authorizer): the response,
/// kept with what it answers.
#[verifier::external_body]
fn is_authorized(request: &CedarRequest, policies: &CedarPolicies, entities: &CedarEntities) -> (r: CedarResponse)
    ensures
        r@ == (policies@, request@, entities@),
{
    let shown = Ghost((policies@, request@, entities@));
    let response = cedar_policy::Authorizer::new().is_authorized(&request.request, policies.cedar(), &entities.entities);
    CedarResponse { response, shown }
}

/// cedar `Response::decision`, compared with `Decision::Allow`.
#[verifier::external_body]
fn response_allowed(r: &CedarResponse) -> (b: bool)
    ensures
        b == cedar_allows(r@.0, r@.1, r@.2),
{
    matches!(r.response.decision(), cedar_policy::Decision::Allow)
}

/// cedar `Diagnostics::reason`, each policy id as its display text (in the
/// order its hash set yields them).
#[verifier::external_body]
fn response_reasons(r: &CedarResponse) -> (v: Vec<String>)
    ensures
        views(v@).to_set() == cedar_reasons(r@.0, r@.1, r@.2),
{
    r.response.diagnostics().reason().map(|id| id.to_string()).collect()
}

/// cedar `Diagnostics::errors`, each as its display text.
#[verifier::external_body]
fn response_errors(r: &CedarResponse) -> (v: Vec<String>)
    ensures
        views(v@).to_set() == cedar_errors(r@.0, r@.1, r@.2),
{
    r.response.diagnostics().errors().map(|e| e.to_string()).collect()
}

// ---------------------------------------------------------------------------
// What an authorization gives
// ---------------------------------------------------------------------------

/// The name of the context attribute that says whether the resource is the
/// schema's placeholder.
pub const PLACEHOLDER_CONTEXT_ATTRIBUTE: &'static str = "resource_is_placeholder";

/// What authorizing gives: Cedar's decision (`Allow` or not, its reasons,
/// its errors), or the failure that stops it.
pub enum AuthzOutcome {
    Decided(bool, Set<Seq<char>>, Set<Seq<char>>),
    /// A UID text Cedar does not parse, with Cedar's message.
    InvalidIdentifier(Seq<char>, Seq<char>),
    /// An entity Cedar does not build, by its label.
    Unrepresentable(Seq<char>),
    /// Cedar refuses the entities, the context or the request (with the
    /// message, where it is known).
    Refused(Option<Seq<char>>),
}

/// `e` is the adapter failure `o` describes.
pub open spec fn adapter_is(e: AdapterError, o: AuthzOutcome) -> bool {
    match o {
        AuthzOutcome::InvalidIdentifier(v, d) => e matches AdapterError::InvalidIdentifier { value, detail }
            && value@ == v && detail@ == d,
        AuthzOutcome::Unrepresentable(f) => e matches AdapterError::UnrepresentableValue { field, .. } && field@ == f,
        _ => false,
    }
}

/// `e` is the failure `o` describes.
pub open spec fn err_is(e: AuthzError, o: AuthzOutcome) -> bool {
    match o {
        AuthzOutcome::Refused(Some(m)) => e matches AuthzError::Request(x) && x@ == m,
        AuthzOutcome::Refused(None) => e is Request,
        AuthzOutcome::Decided(..) => false,
        _ => e matches AuthzError::Adapter(a) && adapter_is(a, o),
    }
}

/// `r` is what `o` describes.
pub open spec fn outcome_is(r: Result<AuthzDecision, AuthzError>, o: AuthzOutcome) -> bool {
    match r {
        Ok(d) => o == AuthzOutcome::Decided(d.allowed, views(d.matched_policies@).to_set(), views(d.errors@).to_set()),
        Err(e) => err_is(e, o),
    }
}

/// The first of the UID texts Cedar does not parse, with Cedar's message.
pub open spec fn first_bad_uid(us: Seq<Seq<char>>) -> Option<(Seq<char>, Seq<char>)>
    decreases us.len(),
{
    if us.len() == 0 {
        None
    } else {
        match first_bad_uid(us.drop_last()) {
            Some(b) => Some(b),
            None => match cedar_uid_outcome(us.last()) {
                Err(d) => Some((us.last(), d)),
                Ok(_) => None,
            },
        }
    }
}

/// Building one entity: its UID and then its parents' UIDs must parse, and
/// Cedar must build it (else it is unrepresentable, by `label`).
pub open spec fn entity_step(p: EntityParts, label: Seq<char>) -> Result<EntityView, AuthzOutcome> {
    match first_bad_uid(seq![p.uid@] + views(p.parents@)) {
        Some((v, d)) => Err(AuthzOutcome::InvalidIdentifier(v, d)),
        None => if cedar_entity_ok(parts_view(p)) {
            Ok(parts_view(p))
        } else {
            Err(AuthzOutcome::Unrepresentable(label))
        },
    }
}

/// Building a principal's entities in order, the first labelled
/// `principal` and each other by its UID text; the first failure stops it.
pub open spec fn entities_step(ps: Seq<EntityParts>) -> Result<Seq<EntityView>, AuthzOutcome>
    decreases ps.len(),
{
    if ps.len() == 0 {
        Ok(Seq::empty())
    } else {
        match entities_step(ps.drop_last()) {
            Err(o) => Err(o),
            Ok(vs) => {
                let label = if ps.len() == 1 {
                    "principal"@
                } else {
                    ps.last().uid@
                };
                match entity_step(ps.last(), label) {
                    Err(o) => Err(o),
                    Ok(v) => Ok(vs.push(v)),
                }
            },
        }
    }
}

/// The text of the anonymous principal's UID.
pub open spec fn anonymous_principal_text() -> Seq<char> {
    "Forge::Principal::\"_anonymous\""@
}

/// The principal's UID text for a subject.
pub open spec fn principal_text(sub: Seq<char>) -> Seq<char> {
    "Forge::Principal"@ + "::\""@ + user_id_spec(sub) + "\""@
}

/// The principal's UID and entities: for a principal with claims (its UID
/// text and entity parts), its UID must parse and its entities build; the
/// anonymous principal has no entities, and a UID Cedar refuses is a
/// request failure.
pub open spec fn principal_step(principal: Option<(Seq<char>, Seq<EntityParts>)>) -> Result<(Seq<char>, Seq<EntityView>), AuthzOutcome> {
    match principal {
        Some((uid, ps)) => match cedar_uid_outcome(uid) {
            Err(d) => Err(AuthzOutcome::InvalidIdentifier(uid, d)),
            Ok(_) => match entities_step(ps) {
                Err(o) => Err(o),
                Ok(vs) => Ok((uid, vs)),
            },
        },
        None => {
            let anon = anonymous_principal_text();
            match cedar_uid_outcome(anon) {
                Err(d) => Err(
                    AuthzOutcome::Refused(Some("invalid Cedar identifier '"@ + anon + "': "@ + d)),
                ),
                Ok(_) => Ok((anon, Seq::empty())),
            }
        },
    }
}

/// The principal an authorization is made for: none without claims; with
/// claims, the principal's UID text and the entities built for it.
pub open spec fn principal_given(
    principal: Option<(Seq<char>, Seq<EntityParts>)>,
    claims: Option<Claims>,
    ranks: Map<Seq<char>, i64>,
    principal_claims: PrincipalClaimMappings,
) -> bool {
    match claims {
        None => principal is None,
        Some(c) => principal matches Some((u, ps)) && u == principal_text(c.sub@) && principal_entities_built(
            ps,
            c,
            ranks,
            principal_claims.mappings(),
        ),
    }
}

/// The principal's claims do not satisfy the principal-claim mappings, and
/// `r` is the error that says so.
pub open spec fn extraction_refused(
    r: Result<AuthzDecision, AuthzError>,
    claims: Option<Claims>,
    principal_claims: PrincipalClaimMappings,
) -> bool {
    &&& claims matches Some(c)
    &&& r matches Err(AuthzError::Adapter(e))
    &&& exists|i: int| extraction_fails_at(c.custom@, principal_claims.mappings(), i, e)
}

/// Cedar's decision on a request, when Cedar accepts the request.
pub open spec fn decision_step(policies_src: Seq<char>, request: RequestView, store: StoreView) -> AuthzOutcome {
    if cedar_request_ok(request) {
        AuthzOutcome::Decided(
            cedar_allows(policies_src, request, store),
            cedar_reasons(policies_src, request, store),
            cedar_errors(policies_src, request, store),
        )
    } else {
        AuthzOutcome::Refused(None)
    }
}

/// What authorizing gives once the principal is known (its UID text and
/// entities): its entities are put in a set, the resource's entity is
/// added to it, the context says whether the resource is the placeholder,
/// and Cedar decides on the request.
pub open spec fn authorize_rest(
    policies_src: Seq<char>,
    schema_src: Seq<char>,
    pu: Seq<char>,
    pvs: Seq<EntityView>,
    action: Seq<char>,
    resource: EntityParts,
    placeholder: bool,
) -> AuthzOutcome {
    if !cedar_entities_ok(schema_src, pvs) {
        AuthzOutcome::Refused(None)
    } else {
        match entity_step(resource, resource.uid@) {
            Err(o) => o,
            Ok(rv) => {
                let store = seq![(schema_src, pvs)];
                let ctx = (PLACEHOLDER_CONTEXT_ATTRIBUTE@, AttrView::Bool(placeholder));
                if !cedar_add_entities_ok(store, schema_src, seq![rv]) {
                    AuthzOutcome::Refused(None)
                } else if !cedar_context_ok(ctx.0, ctx.1) {
                    AuthzOutcome::Refused(None)
                } else {
                    decision_step(
                        policies_src,
                        (schema_src, pu, action, resource.uid@, ctx),
                        store.push((schema_src, seq![rv])),
                    )
                }
            },
        }
    }
}

/// What authorizing the action `action` on `resource` gives, against the
/// bundle compiled from `schema_src` and `policies_src`: the action's UID
/// must parse; then the principal's UID, and its entities must build; the
/// rest is `authorize_rest`.
pub open spec fn authorize_spec(
    policies_src: Seq<char>,
    schema_src: Seq<char>,
    principal: Option<(Seq<char>, Seq<EntityParts>)>,
    action: Seq<char>,
    resource: EntityParts,
    placeholder: bool,
) -> AuthzOutcome {
    match cedar_uid_outcome(action) {
        Err(d) => AuthzOutcome::InvalidIdentifier(action, d),
        Ok(_) => match principal_step(principal) {
            Err(o) => o,
            Ok((pu, pvs)) => authorize_rest(policies_src, schema_src, pu, pvs, action, resource, placeholder),
        },
    }
}

/// What authorizing a field action gives once the principal is known: the
/// resource's entity must build; the principal's entities and the
/// resource's are put in one set, the context says the resource is not a
/// placeholder, and Cedar decides on the request.
pub open spec fn authorize_field_rest(
    policies_src: Seq<char>,
    schema_src: Seq<char>,
    pu: Seq<char>,
    pvs: Seq<EntityView>,
    action: Seq<char>,
    resource: EntityParts,
) -> AuthzOutcome {
    match entity_step(resource, resource.uid@) {
        Err(o) => o,
        Ok(rv) => {
            let all = pvs.push(rv);
            let ctx = (PLACEHOLDER_CONTEXT_ATTRIBUTE@, AttrView::Bool(false));
            if !cedar_entities_ok(schema_src, all) {
                AuthzOutcome::Refused(None)
            } else if !cedar_context_ok(ctx.0, ctx.1) {
                AuthzOutcome::Refused(None)
            } else {
                decision_step(policies_src, (schema_src, pu, action, resource.uid@, ctx), seq![(schema_src, all)])
            }
        },
    }
}

/// What authorizing the field action `action` on the entity `resource`
/// gives, against the bundle compiled from `schema_src` and
/// `policies_src`: the action's UID must parse (else the request fails
/// with Cedar's message); then the principal's UID, and its entities must
/// build; the rest is `authorize_field_rest`.
pub open spec fn authorize_field_spec(
    policies_src: Seq<char>,
    schema_src: Seq<char>,
    principal: Option<(Seq<char>, Seq<EntityParts>)>,
    action: Seq<char>,
    resource: EntityParts,
) -> AuthzOutcome {
    match cedar_uid_outcome(action) {
        Err(d) => AuthzOutcome::Refused(Some(d)),
        Ok(_) => match principal_step(principal) {
            Err(o) => o,
            Ok((pu, pvs)) => authorize_field_rest(policies_src, schema_src, pu, pvs, action, resource),
        },
    }
}

/// The principal `authorize` works for, as `principal_stage` gave it: none
/// without claims, else the one whose entities were built.
pub open spec fn principal_chosen(
    stage: Result<(CedarUid, Vec<CedarEntity>), AuthzError>,
    claims: Option<Claims>,
    snapshot: PolicyStoreSnapshot,
    principal_claims: PrincipalClaimMappings,
) -> Option<(Seq<char>, Seq<EntityParts>)> {
    match claims {
        None => None,
        Some(c) => {
            let ps = choose|ps: Seq<EntityParts>|
                principal_entities_built(ps, c, snapshot.role_ranks@, principal_claims.mappings())
                    && principal_step_is(stage, Some((principal_text(c.sub@), ps)));
            Some((principal_text(c.sub@), ps))
        },
    }
}

// ---------------------------------------------------------------------------
// Authorizing
// ---------------------------------------------------------------------------

proof fn lemma_first_bad_append(s: Seq<Seq<char>>, t: Seq<Seq<char>>)
    requires
        first_bad_uid(s) is Some,
    ensures
        first_bad_uid(s + t) == first_bad_uid(s),
    decreases t.len(),
{
    if t.len() == 0 {
        assert(s + t =~= s);
    } else {
        lemma_first_bad_append(s, t.drop_last());
        assert((s + t).drop_last() =~= s + t.drop_last());
    }
}

proof fn lemma_first_bad_none(s: Seq<Seq<char>>, i: int)
    requires
        first_bad_uid(s) is None,
        0 <= i < s.len(),
    ensures
        cedar_uid_outcome(s[i]) is Ok,
    decreases s.len(),
{
    if i < s.len() - 1 {
        lemma_first_bad_none(s.drop_last(), i);
    }
}

fn restricted_of(a: &CedarAttr) -> (r: CedarValue)
    ensures
        r@ == attr_view(*a),
{
    match a {
        CedarAttr::String(s) => restricted_string(s.clone()),
        CedarAttr::Long(n) => restricted_long(*n),
        CedarAttr::Bool(b) => restricted_bool(*b),
        CedarAttr::SetOfString(items) => {
            let mut v: Vec<CedarValue> = Vec::new();
            let mut i: usize = 0;
            while i < items.len()
                invariant
                    i <= items@.len(),
                    v@.len() == i,
                    forall|k: int| 0 <= k < i ==> v@[k]@ == AttrView::String(items@[k]@),
                decreases items@.len() - i,
            {
                v.push(restricted_string(items[i].clone()));
                i += 1;
            }
            assert(v@.map_values(|x: CedarValue| string_of(x@)) =~= views(items@));
            restricted_set(v)
        },
    }
}

/// The Cedar entity the parts describe, as `entity_step` states it:
/// its UID parsed, each attribute as its value, each parent's UID parsed;
/// `label` names it when Cedar cannot build it.
fn entity_from_parts(parts: &EntityParts, label: &str) -> (r: Result<CedarEntity, AdapterError>)
    ensures
        match entity_step(*parts, label@) {
            Ok(v) => r matches Ok(e) && e@ == v,
            Err(o) => r matches Err(e) && adapter_is(e, o),
        },
{
    let ghost all = seq![parts.uid@] + views(parts.parents@);
    let uid = match uid_from_text(parts.uid.clone()) {
        Ok(u) => u,
        Err(e) => {
            proof {
                let s1 = seq![parts.uid@];
                assert(s1.drop_last() =~= Seq::<Seq<char>>::empty());
                assert(first_bad_uid(s1.drop_last()) is None);
                assert(s1.last() == parts.uid@);
                assert(first_bad_uid(s1) is Some);
                lemma_first_bad_append(s1, views(parts.parents@));
            }
            return Err(e);
        },
    };
    proof {
        let s1 = seq![parts.uid@];
        assert(s1.drop_last() =~= Seq::<Seq<char>>::empty());
        assert(first_bad_uid(s1.drop_last()) is None);
        assert(s1.last() == parts.uid@);
        assert(first_bad_uid(s1) is None);
        assert(seq![parts.uid@] + views(parts.parents@.subrange(0, 0)) =~= s1);
    }
    let mut attrs: Vec<(String, CedarValue)> = Vec::new();
    let mut i: usize = 0;
    while i < parts.attrs.len()
        invariant
            i <= parts.attrs@.len(),
            attrs@.map_values(|a: (String, CedarValue)| (a.0@, a.1@)) == parts.attrs@.subrange(0, i as int).map_values(
                |a: (String, CedarAttr)| (a.0@, attr_view(a.1)),
            ),
        decreases parts.attrs@.len() - i,
    {
        let ghost before = attrs@;
        let k = parts.attrs[i].0.clone();
        let v = restricted_of(&parts.attrs[i].1);
        assert(k@ == parts.attrs@[i as int].0@);
        attrs.push((k, v));
        assert(attrs@ == before.push((k, v)));
        assert(parts.attrs@.subrange(0, i + 1) =~= parts.attrs@.subrange(0, i as int).push(parts.attrs@[i as int]));
        assert(attrs@.map_values(|a: (String, CedarValue)| (a.0@, a.1@)) =~= before.map_values(
            |a: (String, CedarValue)| (a.0@, a.1@),
        ).push((k@, v@)));
        assert(parts.attrs@.subrange(0, i + 1).map_values(|a: (String, CedarAttr)| (a.0@, attr_view(a.1))) =~= parts.attrs@.subrange(
            0,
            i as int,
        ).map_values(|a: (String, CedarAttr)| (a.0@, attr_view(a.1))).push(
            (parts.attrs@[i as int].0@, attr_view(parts.attrs@[i as int].1)),
        ));
        i += 1;
    }
    assert(parts.attrs@.subrange(0, i as int) =~= parts.attrs@);
    let mut parents: Vec<CedarUid> = Vec::new();
    let mut j: usize = 0;
    assert(parents@.map_values(|p: CedarUid| p@) =~= views(parts.parents@.subrange(0, 0)));
    while j < parts.parents.len()
        invariant
            j <= parts.parents@.len(),
            uid@ == parts.uid@,
            all == seq![parts.uid@] + views(parts.parents@),
            first_bad_uid(seq![parts.uid@] + views(parts.parents@.subrange(0, j as int))) is None,
            parents@.map_values(|p: CedarUid| p@) == views(parts.parents@.subrange(0, j as int)),
            attrs@.map_values(|a: (String, CedarValue)| (a.0@, a.1@)) == parts.attrs@.map_values(
                |a: (String, CedarAttr)| (a.0@, attr_view(a.1)),
            ),
        decreases parts.parents@.len() - j,
    {
        let ghost pre = seq![parts.uid@] + views(parts.parents@.subrange(0, j as int));
        let ghost next = seq![parts.uid@] + views(parts.parents@.subrange(0, j + 1));
        assert(next.drop_last() =~= pre);
        assert(next.last() == parts.parents@[j as int]@);
        let raw = parts.parents[j].clone();
        assert(raw@ == parts.parents@[j as int]@);
        match uid_from_text(raw) {
            Ok(u) => {
                let ghost before = parents@;
                parents.push(u);
                assert(parents@ == before.push(u));
                assert(parents@.map_values(|p: CedarUid| p@) =~= before.map_values(|p: CedarUid| p@).push(u@));
                assert(views(parts.parents@.subrange(0, j + 1)) =~= views(parts.parents@.subrange(0, j as int)).push(
                    parts.parents@[j as int]@,
                ));
            },
            Err(e) => {
                proof {
                    assert(all =~= next + views(parts.parents@.subrange(j + 1, parts.parents@.len() as int)));
                    lemma_first_bad_append(next, views(parts.parents@.subrange(j + 1, parts.parents@.len() as int)));
                }
                return Err(e);
            },
        }
        j += 1;
    }
    assert(parts.parents@.subrange(0, j as int) =~= parts.parents@);
    assert(entity_shown(uid@, attrs@, parents@) == parts_view(*parts));
    match cedar_entity(uid, attrs, parents) {
        Ok(e) => Ok(e),
        Err(detail) => Err(AdapterError::UnrepresentableValue { field: str_to_string(label), detail }),
    }
}

/// A principal's entities, built in order as `entities_step` states it.
fn entities_of_parts(parts: &Vec<EntityParts>) -> (r: Result<Vec<CedarEntity>, AdapterError>)
    ensures
        match entities_step(parts@) {
            Ok(vs) => r matches Ok(es) && shown_entities(es@) == vs,
            Err(o) => r matches Err(e) && adapter_is(e, o),
        },
{
    let mut out: Vec<CedarEntity> = Vec::new();
    let mut i: usize = 0;
    assert(parts@.subrange(0, 0) =~= Seq::<EntityParts>::empty());
    assert(shown_entities(out@) =~= Seq::<EntityView>::empty());
    while i < parts.len()
        invariant
            i <= parts@.len(),
            entities_step(parts@.subrange(0, i as int)) == Ok::<Seq<EntityView>, AuthzOutcome>(shown_entities(out@)),
        decreases parts@.len() - i,
    {
        let ghost next = parts@.subrange(0, i + 1);
        assert(next.drop_last() =~= parts@.subrange(0, i as int));
        assert(next.last() == parts@[i as int]);
        let label = if i == 0 {
            str_to_string("principal")
        } else {
            parts[i].uid.clone()
        };
        proof {
            reveal_strlit("principal");
        }
        match entity_from_parts(&parts[i], label.as_str()) {
            Ok(e) => {
                let ghost before = shown_entities(out@);
                out.push(e);
                assert(shown_entities(out@) =~= before.push(e@));
            },
            Err(e) => {
                proof {
                    lemma_entities_step_fails(parts@, i as int);
                }
                return Err(e);
            },
        }
        i += 1;
    }
    assert(parts@.subrange(0, i as int) =~= parts@);
    Ok(out)
}

proof fn lemma_entities_step_fails(ps: Seq<EntityParts>, i: int)
    requires
        0 <= i < ps.len(),
        entities_step(ps.subrange(0, i + 1)) is Err,
    ensures
        entities_step(ps) == entities_step(ps.subrange(0, i + 1)),
    decreases ps.len(),
{
    if i + 1 < ps.len() {
        assert(ps.drop_last().subrange(0, i + 1) =~= ps.subrange(0, i + 1));
        lemma_entities_step_fails(ps.drop_last(), i);
    } else {
        assert(ps.subrange(0, i + 1) =~= ps);
    }
}

/// The principal's UID and entities, for `claims` (the anonymous principal,
/// with no entities, when there are none).
fn principal_stage(
    snapshot: &PolicyStoreSnapshot,
    principal_claims: &PrincipalClaimMappings,
    claims: Option<&Claims>,
) -> (r: Result<(CedarUid, Vec<CedarEntity>), AuthzError>)
    ensures
        match claims {
            None => principal_step_is(r, None),
            Some(c) => {
                ||| (r matches Err(AuthzError::Adapter(e)) && exists|i: int|
                    extraction_fails_at(c.custom@, principal_claims.mappings(), i, e))
                ||| exists|ps: Seq<EntityParts>|
                    principal_entities_built(ps, *c, snapshot.role_ranks@, principal_claims.mappings())
                        && principal_step_is(r, Some((principal_text(c.sub@), ps)))
            },
        },
{
    match claims {
        Some(c) => {
            let parts = match build_principal_entities(c, &snapshot.role_ranks, principal_claims) {
                Ok(p) => p,
                Err(e) => return Err(AuthzError::Adapter(e)),
            };
            let principal = match principal_uid(c) {
                Ok(u) => u,
                Err(e) => {
                    assert(principal_step_is(
                        Err::<(CedarUid, Vec<CedarEntity>), AuthzError>(AuthzError::Adapter(e)),
                        Some((principal_text(c.sub@), parts@)),
                    ));
                    return Err(AuthzError::Adapter(e));
                },
            };
            match entities_of_parts(&parts) {
                Ok(es) => {
                    let r = Ok((principal, es));
                    assert(principal_step_is(r, Some((principal_text(c.sub@), parts@))));
                    r
                },
                Err(e) => {
                    assert(principal_step_is(
                        Err::<(CedarUid, Vec<CedarEntity>), AuthzError>(AuthzError::Adapter(e)),
                        Some((principal_text(c.sub@), parts@)),
                    ));
                    Err(AuthzError::Adapter(e))
                },
            }
        },
        None => {
            proof {
                reveal_strlit("Forge::Principal::\"_anonymous\"");
            }
            let principal = match uid_from_text(str_to_string("Forge::Principal::\"_anonymous\"")) {
                Ok(u) => u,
                Err(e) => return Err(AuthzError::Request(e.to_string())),
            };
            let none: Vec<CedarEntity> = Vec::new();
            assert(shown_entities(none@) =~= Seq::<EntityView>::empty());
            Ok((principal, none))
        },
    }
}

/// `r` is what `principal_step` gives.
pub open spec fn principal_step_is(
    r: Result<(CedarUid, Vec<CedarEntity>), AuthzError>,
    principal: Option<(Seq<char>, Seq<EntityParts>)>,
) -> bool {
    match principal_step(principal) {
        Ok((u, vs)) => r matches Ok((pu, es)) && pu@ == u && shown_entities(es@) == vs,
        Err(o) => r matches Err(e) && err_is(e, o),
    }
}

/// Cedar's decision on the request, against the policies and entities.
fn decide(request: &CedarRequest, policies: &CedarPolicies, entities: &CedarEntities) -> (dec: AuthzDecision)
    ensures
        dec.allowed == cedar_allows(policies@, request@, entities@),
        views(dec.matched_policies@).to_set() == cedar_reasons(policies@, request@, entities@),
        views(dec.errors@).to_set() == cedar_errors(policies@, request@, entities@),
{
    let response = is_authorized(request, policies, entities);
    let allowed = response_allowed(&response);
    let matched_policies = response_reasons(&response);
    let errors = response_errors(&response);
    AuthzDecision { allowed, matched_policies, errors }
}

/// `resource` is the entity authorized: the one given, else the schema's
/// placeholder.
pub open spec fn resource_given(resource: EntityParts, given: Option<EntityParts>, schema: SchemaDefinition) -> bool {
    match given {
        Some(p) => resource == p,
        None => {
            &&& resource.uid@ == schema.name@ + "::\"_any\""@
            &&& placeholder_attrs(schema.fields@, resource.attrs@)
            &&& resource.parents@.len() == 0
        },
    }
}


/// `r` is what authorizing `action` gives against the bundle compiled from
/// `schema_src` and `policies_src` (with role ranks `ranks`), for the
/// principal of `claims` and the resource `given` (else the schema's
/// placeholder): when the action's UID does not parse, that error; when the
/// principal's claims do not satisfy the principal-claim mappings, that
/// error; otherwise what `authorize_spec` states, for the principal's
/// entities as built and the resource.
pub open spec fn authorization_is(
    r: Result<AuthzDecision, AuthzError>,
    policies_src: Seq<char>,
    schema_src: Seq<char>,
    ranks: Map<Seq<char>, i64>,
    principal_claims: PrincipalClaimMappings,
    claims: Option<Claims>,
    action: Seq<char>,
    given: Option<EntityParts>,
    schema: SchemaDefinition,
) -> bool {
    match cedar_uid_outcome(action) {
        Err(d) => outcome_is(r, AuthzOutcome::InvalidIdentifier(action, d)),
        Ok(_) => {
            ||| extraction_refused(r, claims, principal_claims)
            ||| exists|pr: Option<(Seq<char>, Seq<EntityParts>)>, res: EntityParts|
                {
                    &&& principal_given(pr, claims, ranks, principal_claims)
                    &&& resource_given(res, given, schema)
                    &&& #[trigger] outcome_is(
                        r,
                        authorize_spec(policies_src, schema_src, pr, action, res, given is None),
                    )
                }
        },
    }
}

/// `r` is what authorizing the field action `action` on `entity` gives
/// against the bundle compiled from `schema_src` and `policies_src` (with
/// role ranks `ranks`), for the principal of `claims`: when the action's
/// UID does not parse, a request failure with Cedar's message; when the
/// principal's claims do not satisfy the principal-claim mappings, that
/// error; otherwise what `authorize_field_spec` states.
pub open spec fn field_authorization_is(
    r: Result<AuthzDecision, AuthzError>,
    policies_src: Seq<char>,
    schema_src: Seq<char>,
    ranks: Map<Seq<char>, i64>,
    principal_claims: PrincipalClaimMappings,
    claims: Option<Claims>,
    action: Seq<char>,
    entity: EntityParts,
) -> bool {
    match cedar_uid_outcome(action) {
        Err(d) => outcome_is(r, AuthzOutcome::Refused(Some(d))),
        Ok(_) => {
            ||| extraction_refused(r, claims, principal_claims)
            ||| exists|pr: Option<(Seq<char>, Seq<EntityParts>)>|
                {
                    &&& principal_given(pr, claims, ranks, principal_claims)
                    &&& #[trigger] outcome_is(r, authorize_field_spec(policies_src, schema_src, pr, action, entity))
                }
        },
    }
}

/// Every decision is Cedar's over the bundle compiled from the schemas: on
/// a snapshot compiled from the bundle of `schemas` (their generated
/// policies, then the custom ones, against their Cedar schema), what
/// `authorize` and `authorize_field` state of the snapshot they state of
/// those two sources.
pub proof fn lemma_decisions_come_from_compiled_bundle(
    snapshot: PolicyStoreSnapshot,
    schemas: Seq<SchemaDefinition>,
    custom: Seq<CustomPolicySource>,
    role_ranks: RoleRanks,
    r: Result<AuthzDecision, AuthzError>,
    principal_claims: PrincipalClaimMappings,
    claims: Option<Claims>,
    action: Seq<char>,
    given: Option<EntityParts>,
    schema: SchemaDefinition,
    entity: EntityParts,
)
    requires
        compiled_from(
            Ok::<PolicyStoreSnapshot, PolicyStoreError>(snapshot),
            FORGE_NAMESPACE_HEAD@ + FORGE_NAMESPACE_TAIL@ + schemas_source(schemas),
            policy_source(global_policies_spec(schemas) + all_schema_policies_spec(schemas), custom_texts(custom)),
            role_ranks,
        ),
    ensures
        ({
            let schema_src = FORGE_NAMESPACE_HEAD@ + FORGE_NAMESPACE_TAIL@ + schemas_source(schemas);
            let policies_src = policy_source(
                global_policies_spec(schemas) + all_schema_policies_spec(schemas),
                custom_texts(custom),
            );
            &&& authorization_is(
                r,
                snapshot.policies@,
                snapshot.schema@,
                snapshot.role_ranks@,
                principal_claims,
                claims,
                action,
                given,
                schema,
            ) <==> authorization_is(
                r,
                policies_src,
                schema_src,
                role_ranks@,
                principal_claims,
                claims,
                action,
                given,
                schema,
            )
            &&& field_authorization_is(
                r,
                snapshot.policies@,
                snapshot.schema@,
                snapshot.role_ranks@,
                principal_claims,
                claims,
                action,
                entity,
            ) <==> field_authorization_is(
                r,
                policies_src,
                schema_src,
                role_ranks@,
                principal_claims,
                claims,
                action,
                entity,
            )
        }),
{
}

/// The rest of `authorize`, once the action's and the principal's UIDs are
/// parsed and the principal's entities built.
fn authorize_with(
    snapshot: &PolicyStoreSnapshot,
    principal: CedarUid,
    principal_entities: Vec<CedarEntity>,
    action: CedarUid,
    resource: &EntityParts,
    placeholder: bool,
) -> (r: Result<AuthzDecision, AuthzError>)
    ensures
        outcome_is(
            r,
            authorize_rest(
                snapshot.policies@,
                snapshot.schema@,
                principal@,
                shown_entities(principal_entities@),
                action@,
                *resource,
                placeholder,
            ),
        ),
{
    let base = match entities_from(principal_entities, &snapshot.schema) {
        Ok(e) => e,
        Err(m) => return Err(AuthzError::Request(m)),
    };
    let resource_entity = match entity_from_parts(resource, resource.uid.as_str()) {
        Ok(e) => e,
        Err(e) => return Err(AuthzError::Adapter(e)),
    };
    proof {
        lemma_first_bad_none(seq![resource.uid@] + views(resource.parents@), 0);
    }
    let resource_uid = match uid_from_text(resource.uid.clone()) {
        Ok(u) => u,
        Err(e) => return Err(AuthzError::Adapter(e)),
    };
    let ghost rv = resource_entity@;
    let mut more: Vec<CedarEntity> = Vec::new();
    more.push(resource_entity);
    assert(shown_entities(more@) =~= seq![rv]);
    let entities = match entities_with(&base, more, &snapshot.schema) {
        Ok(e) => e,
        Err(m) => return Err(AuthzError::Request(m)),
    };
    let flag = restricted_bool(placeholder);
    let context = match context_from_pair(str_to_string(PLACEHOLDER_CONTEXT_ATTRIBUTE), flag) {
        Ok(c) => c,
        Err(m) => return Err(AuthzError::Request(m)),
    };
    let request = match request_new(principal, action, resource_uid, context, &snapshot.schema) {
        Ok(q) => q,
        Err(m) => return Err(AuthzError::Request(m)),
    };
    Ok(decide(&request, &snapshot.policies, &entities))
}

/// Authorizes `verb` on `schema` for the principal of `claims` (the
/// anonymous principal when there are none) against the bundle in force,
/// as `authorize_spec` states it: the resource is `resource` when given,
/// else the schema's placeholder, and the context says which. Before the
/// principal's entities are built, its claims must satisfy the
/// principal-claim mappings, else that error comes back.
pub fn authorize(
    snapshot: &PolicyStoreSnapshot,
    principal_claims: &PrincipalClaimMappings,
    claims: Option<&Claims>,
    verb: ActionVerb,
    schema: &SchemaDefinition,
    resource: Option<&EntityParts>,
) -> (r: Result<AuthzDecision, AuthzError>)
    ensures
        authorization_is(
            r,
            snapshot.policies@,
            snapshot.schema@,
            snapshot.role_ranks@,
            *principal_claims,
            claims_of(claims),
            action_uid_of(verb_text(verb) + schema.name@),
            match resource {
                Some(p) => Some(*p),
                None => None,
            },
            *schema,
        ),
{
    let action = match action_entity_uid(verb, schema.name.as_str()) {
        Ok(u) => u,
        Err(e) => return Err(AuthzError::Adapter(e)),
    };
    let ghost action_text = action_uid_of(verb_text(verb) + schema.name@);
    let placeholder;
    let resource_parts: &EntityParts = match resource {
        Some(p) => p,
        None => {
            placeholder = build_resource_placeholder(schema);
            &placeholder
        },
    };
    let stage = principal_stage(snapshot, principal_claims, claims);
    let ghost st = stage;
    let ghost pr = principal_chosen(st, claims_of(claims), *snapshot, *principal_claims);
    let r = match stage {
        Ok((principal, principal_entities)) => authorize_with(
            snapshot,
            principal,
            principal_entities,
            action,
            resource_parts,
            resource.is_none(),
        ),
        Err(e) => Err(e),
    };
    proof {
        if !extraction_refused(r, claims_of(claims), *principal_claims) {
            assert(principal_given(pr, claims_of(claims), snapshot.role_ranks@, *principal_claims));
            assert(resource_given(*resource_parts, match resource {
                Some(p) => Some(*p),
                None => None,
            }, *schema));
            assert(outcome_is(
                r,
                authorize_spec(
                    snapshot.policies@,
                    snapshot.schema@,
                    pr,
                    action_text,
                    *resource_parts,
                    resource is None,
                ),
            ));
        }
    }
    r
}

/// The UID text of a field's action: `ReadField<schema>_<field>` or
/// `WriteField<schema>_<field>` in the action namespace.
pub open spec fn field_action_text(schema_name: Seq<char>, field_name: Seq<char>, direction: FieldDirection) -> Seq<char> {
    action_uid_of(
        (match direction {
            FieldDirection::Read => "ReadField"@,
            FieldDirection::Write => "WriteField"@,
        }) + schema_name + "_"@ + field_name,
    )
}

/// The field's action UID, parsed; when Cedar cannot parse it, the request
/// fails with Cedar's message.
fn field_action_entity_uid(schema_name: &str, field_name: &str, direction: FieldDirection) -> (r: Result<
    CedarUid,
    AuthzError,
>)
    ensures
        match cedar_uid_outcome(field_action_text(schema_name@, field_name@, direction)) {
            Err(d) => r matches Err(AuthzError::Request(m)) && m@ == d,
            Ok(_) => r matches Ok(u) && u@ == field_action_text(schema_name@, field_name@, direction),
        },
{
    let raw = field_action_uid(schema_name, field_name, direction);
    match uid_from_text(raw) {
        Ok(u) => Ok(u),
        Err(AdapterError::InvalidIdentifier { detail, .. }) => Err(AuthzError::Request(detail)),
        Err(e) => Err(AuthzError::Adapter(e)),
    }
}

/// Authorizes reading or writing the field `field_name` of the entity
/// `entity` of `schema` for the principal of `claims` (the anonymous
/// principal when there are none), by the field's own action
/// (`ReadField<schema>_<field>` or `WriteField<schema>_<field>`) against the
/// whole policy set in force, as `authorize_field_spec` states it. Before
/// the principal's entities are built, its claims must satisfy the
/// principal-claim mappings, else that error comes back.
pub fn authorize_field(
    snapshot: &PolicyStoreSnapshot,
    principal_claims: &PrincipalClaimMappings,
    claims: Option<&Claims>,
    schema: &SchemaDefinition,
    entity: &EntityParts,
    field_name: &str,
    direction: FieldDirection,
) -> (r: Result<AuthzDecision, AuthzError>)
    ensures
        field_authorization_is(
            r,
            snapshot.policies@,
            snapshot.schema@,
            snapshot.role_ranks@,
            *principal_claims,
            claims_of(claims),
            field_action_text(schema.name@, field_name@, direction),
            *entity,
        ),
{
    let ghost action_text = field_action_text(schema.name@, field_name@, direction);
    let action = match field_action_entity_uid(schema.name.as_str(), field_name, direction) {
        Ok(u) => u,
        Err(e) => return Err(e),
    };
    let stage = principal_stage(snapshot, principal_claims, claims);
    let ghost st = stage;
    let ghost pr = principal_chosen(st, claims_of(claims), *snapshot, *principal_claims);
    let r = match stage {
        Ok((principal, principal_entities)) => authorize_field_with(snapshot, principal, principal_entities, action, entity),
        Err(e) => Err(e),
    };
    proof {
        if !extraction_refused(r, claims_of(claims), *principal_claims) {
            assert(principal_given(pr, claims_of(claims), snapshot.role_ranks@, *principal_claims));
            assert(outcome_is(r, authorize_field_spec(snapshot.policies@, snapshot.schema@, pr, action_text, *entity)));
        }
    }
    r
}

/// The rest of `authorize_field`, once the action's and the principal's
/// UIDs are parsed and the principal's entities built.
fn authorize_field_with(
    snapshot: &PolicyStoreSnapshot,
    principal: CedarUid,
    principal_entities: Vec<CedarEntity>,
    action: CedarUid,
    entity: &EntityParts,
) -> (r: Result<AuthzDecision, AuthzError>)
    ensures
        outcome_is(
            r,
            authorize_field_rest(
                snapshot.policies@,
                snapshot.schema@,
                principal@,
                shown_entities(principal_entities@),
                action@,
                *entity,
            ),
        ),
{
    let resource_entity = match entity_from_parts(entity, entity.uid.as_str()) {
        Ok(e) => e,
        Err(e) => return Err(AuthzError::Adapter(e)),
    };
    proof {
        lemma_first_bad_none(seq![entity.uid@] + views(entity.parents@), 0);
    }
    let resource_uid = match uid_from_text(entity.uid.clone()) {
        Ok(u) => u,
        Err(e) => return Err(AuthzError::Adapter(e)),
    };
    let ghost pvs = shown_entities(principal_entities@);
    let ghost rv = resource_entity@;
    let mut all = principal_entities;
    all.push(resource_entity);
    assert(shown_entities(all@) =~= pvs.push(rv));
    let entities = match entities_from(all, &snapshot.schema) {
        Ok(e) => e,
        Err(m) => return Err(AuthzError::Request(m)),
    };
    let flag = restricted_bool(false);
    let context = match context_from_pair(str_to_string(PLACEHOLDER_CONTEXT_ATTRIBUTE), flag) {
        Ok(c) => c,
        Err(m) => return Err(AuthzError::Request(m)),
    };
    let request = match request_new(principal, action, resource_uid, context, &snapshot.schema) {
        Ok(q) => q,
        Err(m) => return Err(AuthzError::Request(m)),
    };
    Ok(decide(&request, &snapshot.policies, &entities))
}

} // verus!
