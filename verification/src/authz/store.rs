//! The policy bundle the authorizer compiles (the Cedar schema source of
//! the registered schemas, and the policy source made of the generated
//! policies followed by the operator's custom policies), its compilation
//! and strict validation by Cedar, and the store that holds the bundle in
//! force.
use vstd::prelude::*;

use sha2::Digest;

use crate::admin::views::hex_digit;
use crate::authz::loader::{CustomPolicySource, LoaderError};
use crate::authz::role_ranks::{RoleRanks, RoleRanksError};
use crate::cedar::policy_gen::{all_schema_policies_spec, generate_full_policy_set, global_policies_spec, policy_views, PolicyView};
use crate::cedar::schema_gen::{generate_cedar_schema, schemas_source, SchemaGenError, FORGE_NAMESPACE_HEAD, FORGE_NAMESPACE_TAIL};
use crate::definition::SchemaDefinition;
use crate::text::{join_seq, join_strings, push_str, str_to_string, views};

verus! {

/// Errors raised while compiling or installing a policy bundle.
#[derive(Debug)]
pub enum PolicyStoreError {
    /// The Cedar schema (entity types, actions, attributes) failed to build.
    Schema(String),
    /// The policy source failed to parse.
    Parse(String),
    /// Strict-mode validation rejected the bundle.
    Validation(String),
    /// The role-rank file could not be loaded.
    RoleRanks(RoleRanksError),
    /// The custom policy directory could not be read.
    Loader(LoaderError),
    /// Schema source generation failed.
    SchemaGen(SchemaGenError),
}

/// The policy source of a bundle: the generated policies' texts separated
/// by blank lines, then each custom policy after a blank line of its own.
pub open spec fn policy_source(generated: Seq<PolicyView>, custom: Seq<Seq<char>>) -> Seq<char>
    decreases custom.len(),
{
    if custom.len() == 0 {
        join_seq(generated.map_values(|p: PolicyView| p.1), "\n\n"@)
    } else {
        policy_source(generated, custom.drop_last()) + "\n\n"@ + custom.last()
    }
}

/// The texts of custom policies.
pub open spec fn custom_texts(custom: Seq<CustomPolicySource>) -> Seq<Seq<char>> {
    custom.map_values(|c: CustomPolicySource| c.text@)
}

/// The sources a bundle is compiled from.
#[derive(Debug)]
pub struct PolicyBundle {
    /// Cedar schema source declaring entity types, actions, attributes.
    pub schema_source: String,
    /// Every generated and custom policy, as one source.
    pub policy_source: String,
}

impl PolicyBundle {
    /// Assembles the bundle of `schemas`: their Cedar schema source, and
    /// the full generated policy set (global policies, then each schema's)
    /// followed by the custom policies in the order they were loaded.
    pub fn from_schemas(schemas: &[SchemaDefinition], custom: &[CustomPolicySource]) -> (r: Result<
        PolicyBundle,
        PolicyStoreError,
    >)
        ensures
            r matches Ok(b) && b.schema_source@ == FORGE_NAMESPACE_HEAD@ + FORGE_NAMESPACE_TAIL@
                + schemas_source(schemas@) && b.policy_source@ == policy_source(
                global_policies_spec(schemas@) + all_schema_policies_spec(schemas@),
                custom_texts(custom@),
            ),
    {
        let schema_source = match generate_cedar_schema(schemas) {
            Ok(s) => s,
            Err(e) => return Err(PolicyStoreError::SchemaGen(e)),
        };
        let generated = generate_full_policy_set(schemas);
        let ghost gv = policy_views(generated@);
        let mut texts: Vec<String> = Vec::new();
        let mut i: usize = 0;
        while i < generated.len()
            invariant
                i <= generated@.len(),
                gv == policy_views(generated@),
                texts@.len() == i,
                forall|k: int| 0 <= k < i ==> (#[trigger] texts@[k])@ == gv[k].1,
            decreases generated@.len() - i,
        {
            texts.push(generated[i].cedar_text.clone());
            i += 1;
        }
        assert(views(texts@) =~= gv.map_values(|p: PolicyView| p.1));
        let mut source = join_strings(texts.as_slice(), "\n\n");
        let mut j: usize = 0;
        while j < custom.len()
            invariant
                j <= custom@.len(),
                source@ == policy_source(gv, custom_texts(custom@).subrange(0, j as int)),
            decreases custom@.len() - j,
        {
            let ghost pre = custom_texts(custom@).subrange(0, j + 1);
            assert(pre.drop_last() =~= custom_texts(custom@).subrange(0, j as int));
            push_str(&mut source, "\n\n");
            push_str(&mut source, custom[j].text.as_str());
            j += 1;
        }
        assert(custom_texts(custom@).subrange(0, j as int) =~= custom_texts(custom@));
        Ok(PolicyBundle { schema_source, policy_source: source })
    }
}

// ---------------------------------------------------------------------------
// Cedar, SHA-256 and hex, as the bundle's compilation calls them
// ---------------------------------------------------------------------------

/// A Cedar schema, as `cedar_policy` builds it.
#[verifier::external_type_specification]
#[verifier::external_body]
pub struct ExCedarSchema(cedar_policy::Schema);

/// A Cedar policy set, as `cedar_policy` parses it.
#[verifier::external_type_specification]
#[verifier::external_body]
pub struct ExCedarPolicySet(cedar_policy::PolicySet);

/// Cedar's policy validator for one schema.
#[verifier::external_type_specification]
#[verifier::external_body]
pub struct ExCedarValidator(cedar_policy::Validator);

/// The errors and warnings of one validation run.
#[verifier::external_type_specification]
#[verifier::external_body]
pub struct ExCedarValidationResult(cedar_policy::ValidationResult);

/// A JSON value, as serde_json represents it.
#[verifier::external_type_specification]
#[verifier::external_body]
pub struct ExJsonValue(serde_json::Value);

/// Names what `cedar_policy::Schema::from_cedarschema_str` makes of a
/// schema source: the set of its warnings' texts when it builds a schema,
/// nothing when it fails. (The warnings come from walks over hash maps, so
/// their order is not fixed by the source; their set is.)
pub uninterp spec fn cedar_schema_warnings(src: Seq<char>) -> Option<Set<Seq<char>>>;

/// Names what parsing a policy source into a `cedar_policy::PolicySet`
/// gives: success, or the text of the parse errors.
pub uninterp spec fn cedar_policies_outcome(src: Seq<char>) -> Result<(), Seq<char>>;

/// The validation modes Cedar offers in this build (its permissive and
/// partial modes sit behind features this crate does not enable).
#[derive(Debug, Clone, Copy, PartialEq, Eq)]
pub enum PolicyValidationMode {
    /// Type-correct policies of the restricted form analysis needs.
    Strict,
}

/// Names whether validation in `mode` of the policies parsed from
/// `policies_src`, against the schema built from `schema_src`, finds no
/// error.
pub uninterp spec fn cedar_validation_passes(schema_src: Seq<char>, policies_src: Seq<char>, mode: PolicyValidationMode) -> bool;

/// Names the number of policies parsed from a policy source.
pub uninterp spec fn cedar_policy_count(policies_src: Seq<char>) -> nat;

/// Names the bytes serde_json writes for the JSON rendering of the policies
/// parsed from a policy source; nothing when Cedar cannot render them.
pub uninterp spec fn cedar_policy_json(policies_src: Seq<char>) -> Option<Seq<u8>>;

/// The texts of the errors a validation run found, in the order the run
/// lists them.
pub uninterp spec fn validation_errors_of(r: cedar_policy::ValidationResult) -> Seq<Seq<char>>;

/// The texts of the warnings a validation run found, in the order the run
/// lists them.
pub uninterp spec fn validation_warnings_of(r: cedar_policy::ValidationResult) -> Seq<Seq<char>>;

/// A Cedar schema, with the source it was built from.
#[derive(Debug)]
pub struct CedarSchemaBuild {
    schema: cedar_policy::Schema,
    source: String,
}

/// A Cedar policy set, with the source it was parsed from.
#[derive(Debug)]
pub struct CedarPolicies {
    set: cedar_policy::PolicySet,
    source: String,
}

impl View for CedarSchemaBuild {
    type V = Seq<char>;

    /// The source the schema was built from.
    closed spec fn view(&self) -> Seq<char> {
        self.source@
    }
}

impl CedarSchemaBuild {
    /// The Cedar schema itself.
    pub fn cedar(&self) -> &cedar_policy::Schema {
        &self.schema
    }
}

impl View for CedarPolicies {
    type V = Seq<char>;

    /// The source the policies were parsed from.
    closed spec fn view(&self) -> Seq<char> {
        self.source@
    }
}

impl CedarPolicies {
    /// The Cedar policy set itself.
    pub fn cedar(&self) -> &cedar_policy::PolicySet {
        &self.set
    }
}

/// A strict validator, with the source of its schema.
pub struct CedarValidator {
    validator: cedar_policy::Validator,
    source: String,
}

/// The JSON rendering of a policy set, with the set's source.
pub struct CedarPolicyJson {
    value: serde_json::Value,
    source: String,
}

/// Names the SHA-256 digest of a byte sequence.
pub uninterp spec fn sha256_of(data: Seq<u8>) -> Seq<u8>;

/// cedar `Schema::from_cedarschema_str`: the schema, kept with its source,
/// and its warnings (each as its display text, in the order Cedar yields
/// them), or the error's display text. Whether it builds, and the set of
/// warning texts, are named by `cedar_schema_warnings`; the error text and
/// the warnings' order are left unsaid.
#[verifier::external_body]
fn parse_cedar_schema(src: &str) -> (r: Result<(CedarSchemaBuild, Vec<String>), String>)
    ensures
        match r {
            Ok((b, w)) => b.source@ == src@ && cedar_schema_warnings(src@) == Some(views(w@).to_set()),
            Err(_) => cedar_schema_warnings(src@) is None,
        },
{
    match cedar_policy::Schema::from_cedarschema_str(src) {
        Ok((schema, warnings)) => Ok((
            CedarSchemaBuild { schema, source: src.to_string() },
            warnings.map(|w| w.to_string()).collect(),
        )),
        Err(e) => Err(e.to_string()),
    }
}

/// cedar `PolicySet::from_str`: the policy set, kept with its source, or
/// the display text of the parse errors; which of them, and the text, are
/// named by `cedar_policies_outcome`.
#[verifier::external_body]
fn parse_policy_set(src: &str) -> (r: Result<CedarPolicies, String>)
    ensures
        match r {
            Ok(p) => p.source@ == src@ && cedar_policies_outcome(src@) == Ok::<(), Seq<char>>(()),
            Err(e) => cedar_policies_outcome(src@) == Err::<(), Seq<char>>(e@),
        },
{
    match src.parse::<cedar_policy::PolicySet>() {
        Ok(set) => Ok(CedarPolicies { set, source: src.to_string() }),
        Err(e) => Err(e.to_string()),
    }
}

/// cedar `Validator::new`, on a copy of the schema; the validator keeps the
/// schema's source.
#[verifier::external_body]
fn validator_for(schema: &CedarSchemaBuild) -> (v: CedarValidator)
    ensures
        v.source@ == schema.source@,
{
    CedarValidator { validator: cedar_policy::Validator::new(schema.schema.clone()), source: schema.source.clone() }
}

/// cedar `Validator::validate` in `mode`. The run finds no error exactly
/// when `cedar_validation_passes` holds of the two sources and the mode
/// (the outcome depends on them alone); which errors and warnings it lists
/// is read through the three functions below.
#[verifier::external_body]
fn validate_policies(validator: &CedarValidator, policies: &CedarPolicies, mode: PolicyValidationMode) -> (r: cedar_policy::ValidationResult)
    ensures
        validation_errors_of(r).len() == 0 <==> cedar_validation_passes(validator.source@, policies.source@, mode),
{
    let m = match mode {
        PolicyValidationMode::Strict => cedar_policy::ValidationMode::Strict,
    };
    validator.validator.validate(&policies.set, m)
}

/// cedar `ValidationResult::validation_passed`: true exactly when the run
/// found no error (warnings do not count).
#[verifier::external_body]
fn validation_passed(r: &cedar_policy::ValidationResult) -> (b: bool)
    ensures
        b == (validation_errors_of(*r).len() == 0),
{
    r.validation_passed()
}

/// cedar `ValidationResult::validation_errors`, each as its display text.
#[verifier::external_body]
fn validation_error_texts(r: &cedar_policy::ValidationResult) -> (v: Vec<String>)
    ensures
        views(v@) == validation_errors_of(*r),
{
    r.validation_errors().map(|e| e.to_string()).collect()
}

/// cedar `ValidationResult::validation_warnings`, each as its display text.
#[verifier::external_body]
fn validation_warning_texts(r: &cedar_policy::ValidationResult) -> (v: Vec<String>)
    ensures
        views(v@) == validation_warnings_of(*r),
{
    r.validation_warnings().map(|w| w.to_string()).collect()
}

/// cedar `PolicySet::policies`, counted: the number named by
/// `cedar_policy_count` for the set's source.
#[verifier::external_body]
fn policy_count_of(policies: &CedarPolicies) -> (n: usize)
    ensures
        n == cedar_policy_count(policies.source@),
{
    policies.set.policies().count()
}

/// cedar `PolicySet::to_json`, on a copy of the set: its JSON rendering
/// (kept with the set's source), or the error's display text. It renders
/// exactly when `cedar_policy_json` names bytes for the source.
#[verifier::external_body]
fn policy_set_json(policies: &CedarPolicies) -> (r: Result<CedarPolicyJson, String>)
    ensures
        match r {
            Ok(j) => j.source@ == policies.source@ && cedar_policy_json(policies.source@) is Some,
            Err(_) => cedar_policy_json(policies.source@) is None,
        },
{
    match policies.set.clone().to_json() {
        Ok(value) => Ok(CedarPolicyJson { value, source: policies.source.clone() }),
        Err(e) => Err(e.to_string()),
    }
}

/// serde_json `to_vec` of the rendering: the bytes named by
/// `cedar_policy_json`. Writing a JSON value into a `Vec<u8>` has no
/// failure (its keys are strings and the writer does not fail).
#[verifier::external_body]
fn json_bytes(json: &CedarPolicyJson) -> (b: Vec<u8>)
    ensures
        cedar_policy_json(json.source@) == Some(b@),
{
    serde_json::to_vec(&json.value).unwrap_or_default()
}

/// sha2 `Sha256::digest`: the 32-byte SHA-256 digest of `data`, named by
/// `sha256_of`.
#[verifier::external_body]
fn sha256_digest(data: &[u8]) -> (r: Vec<u8>)
    ensures
        r@ == sha256_of(data@),
        r@.len() == 32,
{
    sha2::Sha256::digest(data).to_vec()
}

/// Lowercase hexadecimal of bytes, two digits per byte, high nibble first,
/// as `hex::encode` writes it.
pub open spec fn hex_lower(b: Seq<u8>) -> Seq<char>
    decreases b.len(),
{
    if b.len() == 0 {
        Seq::empty()
    } else {
        hex_lower(b.drop_last()) + seq![hex_digit((b.last() / 16) as int), hex_digit((b.last() % 16) as int)]
    }
}

/// hex `encode`: the lowercase hexadecimal of `data`, two digits per byte.
#[verifier::external_body]
fn hex_encode(data: &[u8]) -> (r: String)
    ensures
        r@ == hex_lower(data@),
{
    hex::encode(data)
}

proof fn lemma_hex_lower_len(b: Seq<u8>)
    ensures
        hex_lower(b).len() == 2 * b.len(),
    decreases b.len(),
{
    if b.len() > 0 {
        lemma_hex_lower_len(b.drop_last());
    }
}

/// The lowercase hexadecimal of the SHA-256 digest of `data`.
pub fn digest_hex(data: &[u8]) -> (h: String)
    ensures
        h@ == hex_lower(sha256_of(data@)),
        h@.len() == 64,
{
    let d = sha256_digest(data);
    proof {
        lemma_hex_lower_len(d@);
    }
    hex_encode(d.as_slice())
}

/// The audit hash of the policies parsed from `policies_src`: the SHA-256,
/// in lowercase hex, of their canonical JSON (of nothing, when Cedar cannot
/// render them). It depends on the source alone.
pub open spec fn policy_hash_of(policies_src: Seq<char>) -> Seq<char> {
    hex_lower(
        sha256_of(
            match cedar_policy_json(policies_src) {
                Some(b) => b,
                None => Seq::empty(),
            },
        ),
    )
}

fn compute_policy_hash(policies: &CedarPolicies) -> (h: String)
    ensures
        h@ == policy_hash_of(policies.source@),
        h@.len() == 64,
{
    let bytes: Vec<u8> = match policy_set_json(policies) {
        Ok(json) => json_bytes(&json),
        Err(_) => Vec::new(),
    };
    proof {
        assert(bytes@ == (match cedar_policy_json(policies.source@) {
            Some(b) => b,
            None => Seq::<u8>::empty(),
        }));
    }
    digest_hex(bytes.as_slice())
}

// ---------------------------------------------------------------------------
// Compiling a bundle
// ---------------------------------------------------------------------------

/// A compiled, validated bundle: the Cedar policy set and schema (each
/// with its source), the role ranks consulted when principals are built,
/// the audit hash of the policy set and the number of its policies.
#[derive(Debug)]
pub struct PolicyStoreSnapshot {
    /// The policy set, with the source it was parsed from.
    pub policies: CedarPolicies,
    /// The Cedar schema, with the source it was built from.
    pub schema: CedarSchemaBuild,
    pub role_ranks: RoleRanks,
    /// SHA-256, in lowercase hex, of the policy set's canonical JSON.
    pub policy_hash: String,
    pub policy_count: usize,
}

/// The message of a schema that builds with warnings.
pub open spec fn schema_warnings_message(warnings: Seq<Seq<char>>) -> Seq<char> {
    "schema produced warnings (treated as errors):\n"@ + join_seq(warnings, "\n"@)
}

/// What compiling `schema_src` and `policies_src` gives: a schema that
/// does not build is refused (with Cedar's message); one that builds with
/// warnings is refused with them listed; policies that do not parse are
/// refused with Cedar's message; parsed policies that strict validation
/// rejects are refused; otherwise the bundle compiles, with the policies'
/// count and audit hash.
pub open spec fn compiled_from(
    r: Result<PolicyStoreSnapshot, PolicyStoreError>,
    schema_src: Seq<char>,
    policies_src: Seq<char>,
    role_ranks: RoleRanks,
) -> bool {
    &&& match cedar_schema_warnings(schema_src) {
        None => r matches Err(PolicyStoreError::Schema(_)),
        Some(ws) => if ws.len() > 0 {
            match r {
                Err(PolicyStoreError::Schema(m)) => exists|l: Seq<Seq<char>>|
                    l.to_set() == ws && m@ == schema_warnings_message(l),
                _ => false,
            }
        } else {
            match cedar_policies_outcome(policies_src) {
                Err(e) => match r {
                    Err(PolicyStoreError::Parse(m)) => m@ == e,
                    _ => false,
                },
                Ok(_) => if cedar_validation_passes(schema_src, policies_src, PolicyValidationMode::Strict) {
                    r is Ok
                } else {
                    r matches Err(PolicyStoreError::Validation(_))
                },
            }
        },
    }
    &&& match r {
        Ok(snap) => {
            &&& snap.policies@ == policies_src
            &&& snap.schema@ == schema_src
            &&& snap.role_ranks@ == role_ranks@
            &&& snap.policy_count == cedar_policy_count(policies_src)
            &&& snap.policy_hash@ == policy_hash_of(policies_src)
        },
        _ => true,
    }
}

/// What a strict validation run decides: the bundle passes when the run
/// found no error; else it is refused with every error, then every
/// warning, one per line.
pub fn validation_verdict(passed: bool, errors: &[String], warnings: &[String]) -> (r: Result<(), PolicyStoreError>)
    ensures
        passed ==> r is Ok,
        !passed ==> match r {
            Err(PolicyStoreError::Validation(m)) => m@ == join_seq(views(errors@) + views(warnings@), "\n"@),
            _ => false,
        },
{
    if passed {
        return Ok(());
    }
    let mut combined: Vec<String> = Vec::new();
    let mut i: usize = 0;
    while i < errors.len()
        invariant
            i <= errors@.len(),
            views(combined@) == views(errors@).subrange(0, i as int),
        decreases errors@.len() - i,
    {
        let ghost before = views(combined@);
        combined.push(errors[i].clone());
        assert(views(combined@) =~= before.push(errors@[i as int]@));
        i += 1;
        assert(views(combined@) =~= views(errors@).subrange(0, i as int));
    }
    let mut j: usize = 0;
    while j < warnings.len()
        invariant
            j <= warnings@.len(),
            views(combined@) == views(errors@) + views(warnings@).subrange(0, j as int),
        decreases warnings@.len() - j,
    {
        let ghost before = views(combined@);
        combined.push(warnings[j].clone());
        assert(views(combined@) =~= before.push(warnings@[j as int]@));
        j += 1;
        assert(views(combined@) =~= views(errors@) + views(warnings@).subrange(0, j as int));
    }
    assert(views(warnings@).subrange(0, j as int) =~= views(warnings@));
    Err(PolicyStoreError::Validation(join_strings(combined.as_slice(), "\n")))
}

impl PolicyStoreSnapshot {
    /// Builds and validates a snapshot from Cedar source: the schema must
    /// build without warnings, the policies must parse, and strict
    /// validation must find no error; the first of these that fails
    /// decides the error.
    pub fn compile(schema_src: &str, policies_src: &str, role_ranks: RoleRanks) -> (r: Result<Self, PolicyStoreError>)
        ensures
            compiled_from(r, schema_src@, policies_src@, role_ranks),
    {
        let (built, warnings) = match parse_cedar_schema(schema_src) {
            Ok(p) => p,
            Err(e) => return Err(PolicyStoreError::Schema(e)),
        };
        if warnings.len() > 0 {
            proof {
                if views(warnings@).to_set().len() == 0 {
                    assert(views(warnings@).to_set().contains(views(warnings@)[0]));
                }
            }
            let mut m = str_to_string("schema produced warnings (treated as errors):\n");
            push_str(&mut m, join_strings(warnings.as_slice(), "\n").as_str());
            return Err(PolicyStoreError::Schema(m));
        }
        proof {
            assert(views(warnings@) =~= Seq::<Seq<char>>::empty());
            assert(views(warnings@).to_set() =~= Set::<Seq<char>>::empty());
        }
        let policies = match parse_policy_set(policies_src) {
            Ok(p) => p,
            Err(e) => return Err(PolicyStoreError::Parse(e)),
        };
        let validator = validator_for(&built);
        let result = validate_policies(&validator, &policies, PolicyValidationMode::Strict);
        let passed = validation_passed(&result);
        let errors = validation_error_texts(&result);
        let warns = validation_warning_texts(&result);
        match validation_verdict(passed, errors.as_slice(), warns.as_slice()) {
            Err(e) => return Err(e),
            Ok(()) => {},
        }
        let policy_count = policy_count_of(&policies);
        let policy_hash = compute_policy_hash(&policies);
        Ok(PolicyStoreSnapshot { policies, schema: built, role_ranks, policy_hash, policy_count })
    }

    /// Builds the snapshot of `schemas`: their bundle (the custom policies
    /// after the generated ones), compiled with `role_ranks`.
    pub fn from_schemas(schemas: &[SchemaDefinition], custom: &[CustomPolicySource], role_ranks: RoleRanks) -> (r: Result<
        Self,
        PolicyStoreError,
    >)
        ensures
            compiled_from(
                r,
                FORGE_NAMESPACE_HEAD@ + FORGE_NAMESPACE_TAIL@ + schemas_source(schemas@),
                policy_source(
                    global_policies_spec(schemas@) + all_schema_policies_spec(schemas@),
                    custom_texts(custom@),
                ),
                role_ranks,
            ),
    {
        match PolicyBundle::from_schemas(schemas, custom) {
            Ok(bundle) => Self::compile(bundle.schema_source.as_str(), bundle.policy_source.as_str(), role_ranks),
            Err(e) => Err(e),
        }
    }
}

// ---------------------------------------------------------------------------
// The store
// ---------------------------------------------------------------------------

/// Holds the bundle in force. A request works with the snapshot it read;
/// installing another replaces it whole.
#[derive(Debug)]
pub struct PolicyStore {
    snapshot: PolicyStoreSnapshot,
}

impl PolicyStore {
    /// The snapshot in force.
    pub closed spec fn view(&self) -> PolicyStoreSnapshot {
        self.snapshot
    }

    /// A store serving `snapshot`.
    pub fn new(snapshot: PolicyStoreSnapshot) -> (s: Self)
        ensures
            s@ == snapshot,
    {
        PolicyStore { snapshot }
    }

    /// The snapshot in force.
    pub fn current(&self) -> (r: &PolicyStoreSnapshot)
        ensures
            *r == self@,
    {
        &self.snapshot
    }

    /// Installs `next` in place of the snapshot in force.
    pub fn swap(&mut self, next: PolicyStoreSnapshot)
        ensures
            final(self)@ == next,
    {
        self.snapshot = next;
    }

    /// Compiles the bundle of `schemas` (with the custom policies, and the
    /// role ranks of the snapshot in force) and installs it. When it does
    /// not compile, the error comes back and the snapshot in force stays:
    /// the running bundle keeps serving.
    pub fn recompile_from_schemas(&mut self, schemas: &[SchemaDefinition], custom: &[CustomPolicySource]) -> (r: Result<
        (),
        PolicyStoreError,
    >)
        ensures
            ({
                let schema_src = FORGE_NAMESPACE_HEAD@ + FORGE_NAMESPACE_TAIL@ + schemas_source(schemas@);
                let policies_src = policy_source(
                    global_policies_spec(schemas@) + all_schema_policies_spec(schemas@),
                    custom_texts(custom@),
                );
                match r {
                    Ok(_) => compiled_from(
                        Ok::<PolicyStoreSnapshot, PolicyStoreError>(final(self)@),
                        schema_src,
                        policies_src,
                        old(self)@.role_ranks,
                    ),
                    Err(e) => compiled_from(
                        Err::<PolicyStoreSnapshot, PolicyStoreError>(e),
                        schema_src,
                        policies_src,
                        old(self)@.role_ranks,
                    ) && final(self)@ == old(self)@,
                }
            }),
    {
        let role_ranks = self.snapshot.role_ranks.copy();
        match PolicyStoreSnapshot::from_schemas(schemas, custom, role_ranks) {
            Ok(next) => {
                self.snapshot = next;
                Ok(())
            },
            Err(e) => Err(e),
        }
    }
}

} // verus!
