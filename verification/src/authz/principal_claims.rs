//! Operator-defined principal claim → Cedar attribute mappings.
//!
//! Operators expose token claims as extra attributes of the Cedar
//! `Forge::Principal`. A mapping set is validated once, at startup: names
//! must be Cedar identifiers that do not shadow the intrinsic attributes,
//! claim keys must be non-empty, and a default must have the declared type.
//! Mappings are kept in attribute-name order, so the generated schema
//! fragment is the same byte for byte on every start.
use vstd::prelude::*;

use crate::order::{lemma_lex_irreflexive, lemma_lex_total, lemma_lex_transitive, lex_lt, str_lt};
use crate::authz::adapters::AdapterError;
use crate::text::{chars_of, contains_seq, is_ascii_alnum, is_ascii_alpha, occurs_at, push_str, str_to_string};

verus! {

/// A JSON value, as the mapping rules read it. A number carries its value
/// where it is an `i64`, and `None` otherwise.
#[derive(Debug)]
pub enum JsonValue {
    Null,
    Bool(bool),
    Number(Option<i64>),
    String(String),
    Array(Vec<JsonValue>),
    Object(Vec<(String, JsonValue)>),
}

/// Cedar value type used to represent a mapped claim.
#[derive(Debug, Clone, Copy, PartialEq, Eq, Structural)]
pub enum PrincipalClaimType {
    /// Cedar `String`. Source JSON must be a string.
    String,
    /// Cedar `Long`. Source JSON must be an integer.
    Long,
    /// Cedar `Bool`. Source JSON must be a boolean.
    Bool,
    /// Cedar `Set<String>`. Source JSON must be an array of strings.
    SetOfString,
}

/// The Cedar schema type of a claim type.
pub open spec fn cedar_type_spec(t: PrincipalClaimType) -> Seq<char> {
    match t {
        PrincipalClaimType::String => "String"@,
        PrincipalClaimType::Long => "Long"@,
        PrincipalClaimType::Bool => "Bool"@,
        PrincipalClaimType::SetOfString => "Set<String>"@,
    }
}

/// The `Debug` text of a claim type (its variant name).
pub open spec fn claim_type_debug(t: PrincipalClaimType) -> Seq<char> {
    match t {
        PrincipalClaimType::String => "String"@,
        PrincipalClaimType::Long => "Long"@,
        PrincipalClaimType::Bool => "Bool"@,
        PrincipalClaimType::SetOfString => "SetOfString"@,
    }
}

impl PrincipalClaimType {
    /// Cedar schema fragment for this type (the right-hand side of `name?:`).
    pub fn cedar_type_fragment(self) -> (r: &'static str)
        ensures
            r@ == cedar_type_spec(self),
    {
        match self {
            PrincipalClaimType::String => "String",
            PrincipalClaimType::Long => "Long",
            PrincipalClaimType::Bool => "Bool",
            PrincipalClaimType::SetOfString => "Set<String>",
        }
    }
}

fn claim_type_debug_text(t: PrincipalClaimType) -> (r: &'static str)
    ensures
        r@ == claim_type_debug(t),
{
    match t {
        PrincipalClaimType::String => "String",
        PrincipalClaimType::Long => "Long",
        PrincipalClaimType::Bool => "Bool",
        PrincipalClaimType::SetOfString => "SetOfString",
    }
}

/// One row of the principal-claim configuration; the row's key is the
/// Cedar attribute name.
#[derive(Debug)]
pub struct PrincipalClaimConfigEntry {
    /// Token claim key. Defaults to the attribute name.
    pub claim: Option<String>,
    /// Declared Cedar type for the claim's value.
    pub claim_type: PrincipalClaimType,
    /// When `true`, a token missing this claim is rejected.
    pub required: bool,
    /// Fallback value used when the claim is absent.
    pub default: Option<JsonValue>,
}

/// Keys strictly ascending.
pub open spec fn keys_sorted<V>(pairs: Seq<(Seq<char>, V)>) -> bool {
    forall|a: int, b: int| 0 <= a < b < pairs.len() ==> lex_lt(pairs[a].0, pairs[b].0)
}

/// The configuration map: attribute name → entry, kept in name order.
pub struct PrincipalClaimsConfig {
    entries: Vec<(String, PrincipalClaimConfigEntry)>,
}

impl PrincipalClaimsConfig {
    /// The rows in name order, names as views.
    pub closed spec fn pairs(self) -> Seq<(Seq<char>, PrincipalClaimConfigEntry)> {
        self.entries@.map_values(|p: (String, PrincipalClaimConfigEntry)| (p.0@, p.1))
    }

    #[verifier::type_invariant]
    spec fn sorted(self) -> bool {
        keys_sorted(self.pairs())
    }

    /// An empty configuration.
    pub fn new() -> (c: Self)
        ensures
            c.pairs() == Seq::<(Seq<char>, PrincipalClaimConfigEntry)>::empty(),
    {
        let c = PrincipalClaimsConfig { entries: Vec::new() };
        assert(c.pairs() =~= Seq::<(Seq<char>, PrincipalClaimConfigEntry)>::empty());
        c
    }

    /// The number of rows.
    pub fn len(&self) -> (n: usize)
        ensures
            n == self.pairs().len(),
    {
        self.entries.len()
    }

    /// Whether there are no rows.
    pub fn is_empty(&self) -> (b: bool)
        ensures
            b == (self.pairs().len() == 0),
    {
        self.entries.len() == 0
    }

    /// Whether some row has this name.
    pub fn contains_key(&self, name: &str) -> (b: bool)
        ensures
            b == exists|i: int| 0 <= i < self.pairs().len() && (#[trigger] self.pairs()[i]).0 == name@,
    {
        let mut i: usize = 0;
        while i < self.entries.len()
            invariant
                i <= self.entries@.len(),
                forall|k: int| 0 <= k < i ==> (#[trigger] self.pairs()[k]).0 != name@,
            decreases self.entries@.len() - i,
        {
            if !str_lt(self.entries[i].0.as_str(), name)
                && !str_lt(name, self.entries[i].0.as_str()) {
                proof {
                    if self.pairs()[i as int].0 != name@ {
                        lemma_lex_total(self.pairs()[i as int].0, name@);
                    }
                }
                return true;
            }
            proof {
                if self.pairs()[i as int].0 == name@ {
                    lemma_lex_irreflexive(name@);
                    assert(self.entries@[i as int].0@ == name@);
                }
            }
            i += 1;
        }
        false
    }

    /// Sets the row of `name` to `entry`, as `BTreeMap::insert`: an existing
    /// row is replaced in place and its entry returned; otherwise the row is
    /// added at its place in name order.
    pub fn insert(&mut self, name: String, entry: PrincipalClaimConfigEntry) -> (prev: Option<
        PrincipalClaimConfigEntry,
    >)
        ensures
            keys_sorted(final(self).pairs()),
            match prev {
                Some(e) => exists|p: int|
                    0 <= p < old(self).pairs().len() && old(self).pairs()[p].0 == name@ && e
                        == old(self).pairs()[p].1 && final(self).pairs() == old(self).pairs().update(
                        p,
                        (name@, entry),
                    ),
                None => (forall|k: int|
                    0 <= k < old(self).pairs().len() ==> (#[trigger] old(self).pairs()[k]).0
                        != name@) && exists|p: int|
                    0 <= p <= old(self).pairs().len() && final(self).pairs() == old(
                        self,
                    ).pairs().insert(p, (name@, entry)),
            },
    {
        proof {
            use_type_invariant(&*self);
        }
        let ghost before = self.pairs();
        let mut i: usize = 0;
        while i < self.entries.len() && str_lt(self.entries[i].0.as_str(), name.as_str())
            invariant
                i <= self.entries@.len(),
                before == self.pairs(),
                keys_sorted(before),
                forall|k: int| 0 <= k < i ==> lex_lt(#[trigger] before[k].0, name@),
            decreases self.entries@.len() - i,
        {
            i += 1;
        }
        let found = i < self.entries.len() && !str_lt(name.as_str(), self.entries[i].0.as_str());
        let mut entries: Vec<(String, PrincipalClaimConfigEntry)> = Vec::new();
        std::mem::swap(&mut entries, &mut self.entries);
        assert(entries@.map_values(|p: (String, PrincipalClaimConfigEntry)| (p.0@, p.1)) == before);
        if found {
            proof {
                if before[i as int].0 != name@ {
                    lemma_lex_total(before[i as int].0, name@);
                }
            }
            let (_, old_entry) = entries.remove(i);
            entries.insert(i, (name, entry));
            let ghost after = entries@.map_values(|p: (String, PrincipalClaimConfigEntry)| (p.0@, p.1));
            assert(after =~= before.update(i as int, (name@, entry)));
            self.entries = entries;
            Some(old_entry)
        } else {
            proof {
                assert forall|k: int| 0 <= k < before.len() implies (#[trigger] before[k]).0 != name@ by {
                    if k < i {
                        lemma_lex_irreflexive(name@);
                    } else {
                        assert(lex_lt(name@, before[i as int].0));
                        if k > i {
                            lemma_lex_transitive(name@, before[i as int].0, before[k].0);
                        }
                        lemma_lex_irreflexive(name@);
                    }
                }
            }
            entries.insert(i, (name, entry));
            let ghost after = entries@.map_values(|p: (String, PrincipalClaimConfigEntry)| (p.0@, p.1));
            assert(after =~= before.insert(i as int, (name@, entry)));
            proof {
                assert forall|a: int, b: int| 0 <= a < b < after.len() implies lex_lt(after[a].0, after[b].0) by {
                    if b < i {
                    } else if b == i {
                    } else if a < i {
                        assert(lex_lt(before[a].0, name@));
                        if b > i + 0 {
                            assert(lex_lt(name@, before[i as int].0));
                            if b - 1 > i {
                                lemma_lex_transitive(name@, before[i as int].0, before[b - 1].0);
                            }
                            lemma_lex_transitive(before[a].0, name@, before[b - 1].0);
                        }
                    } else if a == i {
                        assert(lex_lt(name@, before[i as int].0));
                        if b - 1 > i {
                            lemma_lex_transitive(name@, before[i as int].0, before[b - 1].0);
                        }
                    } else {
                    }
                }
            }
            self.entries = entries;
            None
        }
    }
}

/// A single validated mapping.
#[derive(Debug)]
pub struct PrincipalClaimMapping {
    /// Cedar attribute name on `Forge::Principal`.
    pub attribute_name: String,
    /// Token claim key.
    pub claim_name: String,
    /// Declared Cedar type.
    pub claim_type: PrincipalClaimType,
    /// Whether absence is fatal.
    pub required: bool,
    /// Default applied when the claim is absent and `required` is false.
    pub default: Option<JsonValue>,
}

/// Validated, attribute-name-ordered set of principal-claim mappings.
pub struct PrincipalClaimMappings {
    by_name: Vec<PrincipalClaimMapping>,
}

/// Errors raised while validating a principal-claim mapping config.
#[derive(Debug)]
pub enum PrincipalClaimsError {
    /// The Cedar attribute name collides with one of the intrinsic names.
    ReservedName { name: String },
    /// The Cedar attribute name is not a Cedar identifier.
    InvalidName { name: String },
    /// The token claim key is empty.
    EmptyClaimKey { name: String },
    /// The configured `default` value's JSON kind does not match the declared type.
    DefaultTypeMismatch { name: String, declared: PrincipalClaimType, actual: String },
}

/// The message of each error.
pub open spec fn claims_error_message(e: PrincipalClaimsError) -> Seq<char> {
    match e {
        PrincipalClaimsError::ReservedName { name } => "principal claim attribute '"@ + name@
            + "' collides with a reserved name (id, role_rank, roles); pick a different name"@,
        PrincipalClaimsError::InvalidName { name } => "principal claim attribute '"@ + name@
            + "' is not a valid Cedar identifier (must match [A-Za-z_][A-Za-z0-9_]*)"@,
        PrincipalClaimsError::EmptyClaimKey { name } => "principal claim '"@ + name@
            + "' has an empty token claim key"@,
        PrincipalClaimsError::DefaultTypeMismatch { name, declared, actual } => "principal claim '"@
            + name@ + "': default value does not match declared type "@ + claim_type_debug(declared)
            + " (got: "@ + actual@ + ")"@,
    }
}

impl PrincipalClaimsError {
    /// The error's display text.
    pub fn to_string(&self) -> (s: String)
        ensures
            s@ == claims_error_message(*self),
    {
        match self {
            PrincipalClaimsError::ReservedName { name } => {
                let mut s = str_to_string("principal claim attribute '");
                push_str(&mut s, name.as_str());
                push_str(
                    &mut s,
                    "' collides with a reserved name (id, role_rank, roles); pick a different name",
                );
                s
            },
            PrincipalClaimsError::InvalidName { name } => {
                let mut s = str_to_string("principal claim attribute '");
                push_str(&mut s, name.as_str());
                push_str(
                    &mut s,
                    "' is not a valid Cedar identifier (must match [A-Za-z_][A-Za-z0-9_]*)",
                );
                s
            },
            PrincipalClaimsError::EmptyClaimKey { name } => {
                let mut s = str_to_string("principal claim '");
                push_str(&mut s, name.as_str());
                push_str(&mut s, "' has an empty token claim key");
                s
            },
            PrincipalClaimsError::DefaultTypeMismatch { name, declared, actual } => {
                let mut s = str_to_string("principal claim '");
                push_str(&mut s, name.as_str());
                push_str(&mut s, "': default value does not match declared type ");
                push_str(&mut s, claim_type_debug_text(*declared));
                push_str(&mut s, " (got: ");
                push_str(&mut s, actual.as_str());
                push_str(&mut s, ")");
                s
            },
        }
    }
}

/// The attribute names every `Forge::Principal` already has.
pub open spec fn is_reserved_name(name: Seq<char>) -> bool {
    name == "id"@ || name == "role_rank"@ || name == "roles"@
}

/// Cedar identifier rule: ASCII letter or underscore first, then ASCII
/// letters, digits or underscores.
pub open spec fn is_cedar_identifier_spec(s: Seq<char>) -> bool {
    &&& s.len() > 0
    &&& (s[0] == '_' || is_ascii_alpha(s[0]))
    &&& forall|i: int| 1 <= i < s.len() ==> (#[trigger] s[i] == '_' || is_ascii_alnum(s[i]))
}

/// Whether `s` is a Cedar identifier.
pub fn is_cedar_identifier(s: &str) -> (b: bool)
    ensures
        b == is_cedar_identifier_spec(s@),
{
    let v = chars_of(s);
    if v.len() == 0 {
        return false;
    }
    let c = v[0];
    if !(c == '_' || ('A' <= c && c <= 'Z') || ('a' <= c && c <= 'z')) {
        return false;
    }
    let mut i: usize = 1;
    while i < v.len()
        invariant
            1 <= i <= v@.len(),
            v@ == s@,
            forall|k: int| 1 <= k < i ==> (#[trigger] v@[k] == '_' || is_ascii_alnum(v@[k])),
        decreases v@.len() - i,
    {
        let d = v[i];
        if !(d == '_' || ('A' <= d && d <= 'Z') || ('a' <= d && d <= 'z') || ('0' <= d && d <= '9')) {
            return false;
        }
        i += 1;
    }
    true
}

/// The JSON kind of a value, as named in messages.
pub open spec fn json_kind(v: JsonValue) -> Seq<char> {
    match v {
        JsonValue::Null => "null"@,
        JsonValue::Bool(_) => "bool"@,
        JsonValue::Number(_) => "number"@,
        JsonValue::String(_) => "string"@,
        JsonValue::Array(_) => "array"@,
        JsonValue::Object(_) => "object"@,
    }
}

fn describe_json_kind(v: &JsonValue) -> (s: String)
    ensures
        s@ == json_kind(*v),
{
    match v {
        JsonValue::Null => str_to_string("null"),
        JsonValue::Bool(_) => str_to_string("bool"),
        JsonValue::Number(_) => str_to_string("number"),
        JsonValue::String(_) => str_to_string("string"),
        JsonValue::Array(_) => str_to_string("array"),
        JsonValue::Object(_) => str_to_string("object"),
    }
}

/// A JSON value has the shape a claim type declares: a string, an `i64`, a
/// boolean, or an array of strings.
pub open spec fn json_matches_type(v: JsonValue, t: PrincipalClaimType) -> bool {
    match (t, v) {
        (PrincipalClaimType::String, JsonValue::String(_)) => true,
        (PrincipalClaimType::Long, JsonValue::Number(n)) => n is Some,
        (PrincipalClaimType::Bool, JsonValue::Bool(_)) => true,
        (PrincipalClaimType::SetOfString, JsonValue::Array(items)) => forall|i: int|
            0 <= i < items@.len() ==> (#[trigger] items@[i]) is String,
        _ => false,
    }
}

fn json_matches(v: &JsonValue, t: PrincipalClaimType) -> (b: bool)
    ensures
        b == json_matches_type(*v, t),
{
    match v {
        JsonValue::String(_) => t == PrincipalClaimType::String,
        JsonValue::Number(n) => t == PrincipalClaimType::Long && n.is_some(),
        JsonValue::Bool(_) => t == PrincipalClaimType::Bool,
        JsonValue::Array(items) => {
            if t != PrincipalClaimType::SetOfString {
                return false;
            }
            let mut i: usize = 0;
            while i < items.len()
                invariant
                    i <= items@.len(),
                    *v == JsonValue::Array(*items),
                    forall|k: int| 0 <= k < i ==> (#[trigger] items@[k]) is String,
                decreases items@.len() - i,
            {
                match &items[i] {
                    JsonValue::String(_) => {},
                    _ => {
                        assert(!(items@[i as int] is String));
                        return false;
                    },
                }
                i += 1;
            }
            true
        },
        _ => false,
    }
}

/// The token claim key of a row: its `claim`, or its name.
pub open spec fn claim_key(name: Seq<char>, e: PrincipalClaimConfigEntry) -> Seq<char> {
    match e.claim {
        Some(c) => c@,
        None => name,
    }
}

/// A row passes validation.
pub open spec fn entry_valid(name: Seq<char>, e: PrincipalClaimConfigEntry) -> bool {
    &&& !is_reserved_name(name)
    &&& is_cedar_identifier_spec(name)
    &&& claim_key(name, e).len() > 0
    &&& (e.default matches Some(d) ==> json_matches_type(d, e.claim_type))
}

/// The error that the first failing check of a row raises.
pub open spec fn entry_error(err: PrincipalClaimsError, name: Seq<char>, e: PrincipalClaimConfigEntry) -> bool {
    if is_reserved_name(name) {
        err matches PrincipalClaimsError::ReservedName { name: n } && n@ == name
    } else if !is_cedar_identifier_spec(name) {
        err matches PrincipalClaimsError::InvalidName { name: n } && n@ == name
    } else if claim_key(name, e).len() == 0 {
        err matches PrincipalClaimsError::EmptyClaimKey { name: n } && n@ == name
    } else {
        &&& err matches PrincipalClaimsError::DefaultTypeMismatch { name: n, declared, actual }
        &&& n@ == name
        &&& declared == e.claim_type
        &&& e.default matches Some(d)
        &&& actual@ == json_kind(d)
    }
}

/// Row `i` is the first that fails validation, and `err` is its error.
pub open spec fn fails_first_at(
    pairs: Seq<(Seq<char>, PrincipalClaimConfigEntry)>,
    i: int,
    err: PrincipalClaimsError,
) -> bool {
    &&& 0 <= i < pairs.len()
    &&& forall|k: int| 0 <= k < i ==> entry_valid(#[trigger] pairs[k].0, pairs[k].1)
    &&& !entry_valid(pairs[i].0, pairs[i].1)
    &&& entry_error(err, pairs[i].0, pairs[i].1)
}

/// The mapping a valid row becomes.
pub open spec fn mapping_from(m: PrincipalClaimMapping, name: Seq<char>, e: PrincipalClaimConfigEntry) -> bool {
    &&& m.attribute_name@ == name
    &&& m.claim_name@ == claim_key(name, e)
    &&& m.claim_type == e.claim_type
    &&& m.required == e.required
    &&& m.default == e.default
}

/// One line of the Cedar schema fragment: `    "name"?: Type,` and a newline.
pub open spec fn fragment_line(m: PrincipalClaimMapping) -> Seq<char> {
    "    \""@ + m.attribute_name@ + "\"?: "@ + cedar_type_spec(m.claim_type) + ",\n"@
}

/// The lines of all mappings, in order.
pub open spec fn fragment_spec(ms: Seq<PrincipalClaimMapping>) -> Seq<char>
    decreases ms.len(),
{
    if ms.len() == 0 {
        Seq::empty()
    } else {
        fragment_spec(ms.drop_last()) + fragment_line(ms.last())
    }
}

/// Attribute names strictly ascending.
pub open spec fn mappings_sorted(ms: Seq<PrincipalClaimMapping>) -> bool {
    forall|a: int, b: int| 0 <= a < b < ms.len() ==> lex_lt(ms[a].attribute_name@, ms[b].attribute_name@)
}

impl PrincipalClaimMappings {
    /// The mappings, in attribute-name order.
    pub closed spec fn mappings(self) -> Seq<PrincipalClaimMapping> {
        self.by_name@
    }

    #[verifier::type_invariant]
    spec fn sorted(self) -> bool {
        mappings_sorted(self.by_name@)
    }

    /// No mappings.
    pub fn empty() -> (m: Self)
        ensures
            m.mappings() == Seq::<PrincipalClaimMapping>::empty(),
    {
        PrincipalClaimMappings { by_name: Vec::new() }
    }

    /// Builds a validated mapping set from the configuration rows, in name
    /// order. The first row that fails a check stops the build with that
    /// check's error: a reserved name, a name that is not a Cedar
    /// identifier, an empty claim key, a default of the wrong type.
    pub fn from_config(config: PrincipalClaimsConfig) -> (r: Result<Self, PrincipalClaimsError>)
        ensures
            ({
                let pairs = config.pairs();
                match r {
                    Ok(m) => mappings_sorted(m.mappings()) && (forall|i: int|
                        0 <= i < pairs.len() ==> entry_valid(#[trigger] pairs[i].0, pairs[i].1))
                        && m.mappings().len() == pairs.len() && forall|i: int|
                        0 <= i < pairs.len() ==> mapping_from(
                            #[trigger] m.mappings()[i],
                            pairs[i].0,
                            pairs[i].1,
                        ),
                    Err(err) => exists|i: int| fails_first_at(pairs, i, err),
                }
            }),
    {
        proof {
            use_type_invariant(&config);
            reveal_strlit("id");
            reveal_strlit("role_rank");
            reveal_strlit("roles");
        }
        let ghost pairs = config.pairs();
        let PrincipalClaimsConfig { entries } = config;
        let mut rest = entries;
        let mut out: Vec<PrincipalClaimMapping> = Vec::new();
        let mut i: usize = 0;
        let n = rest.len();
        let id = str_to_string("id");
        let role_rank = str_to_string("role_rank");
        let roles = str_to_string("roles");
        while rest.len() > 0
            invariant
                i + rest@.len() == n,
                n == pairs.len(),
                pairs == config.pairs(),
                keys_sorted(pairs),
                id@ == "id"@,
                role_rank@ == "role_rank"@,
                roles@ == "roles"@,
                forall|k: int|
                    0 <= k < rest@.len() ==> (#[trigger] rest@[k]).0@ == pairs[i + k].0 && rest@[k].1
                        == pairs[i + k].1,
                out@.len() == i,
                forall|k: int| 0 <= k < i ==> entry_valid(#[trigger] pairs[k].0, pairs[k].1),
                forall|k: int| 0 <= k < i ==> mapping_from(#[trigger] out@[k], pairs[k].0, pairs[k].1),
            decreases rest@.len(),
        {
            let (name, entry) = rest.remove(0);
            let ghost pn = pairs[i as int].0;
            let ghost pe = pairs[i as int].1;
            assert(name@ == pn && entry == pe);
            if name == id || name == role_rank || name == roles {
                let err = PrincipalClaimsError::ReservedName { name };
                assert(fails_first_at(pairs, i as int, err));
                assert(!entry_valid(pn, pe));
                return Err(err);
            }
            if !is_cedar_identifier(name.as_str()) {
                let err = PrincipalClaimsError::InvalidName { name };
                assert(fails_first_at(pairs, i as int, err));
                return Err(err);
            }
            let claim_name = match &entry.claim {
                Some(c) => c.clone(),
                None => name.clone(),
            };
            if claim_name.as_str().is_empty() {
                assert(claim_name@.len() == 0);
                let err = PrincipalClaimsError::EmptyClaimKey { name };
                assert(fails_first_at(pairs, i as int, err));
                return Err(err);
            }
            if let Some(d) = &entry.default {
                if !json_matches(d, entry.claim_type) {
                    let actual = describe_json_kind(d);
                    let err = PrincipalClaimsError::DefaultTypeMismatch {
                        name,
                        declared: entry.claim_type,
                        actual,
                    };
                    assert(fails_first_at(pairs, i as int, err));
                    return Err(err);
                }
            }
            let PrincipalClaimConfigEntry { claim: _, claim_type, required, default } = entry;
            out.push(
                PrincipalClaimMapping { attribute_name: name, claim_name, claim_type, required, default },
            );
            i += 1;
        }
        proof {
            assert forall|a: int, b: int| 0 <= a < b < out@.len() implies lex_lt(
                out@[a].attribute_name@,
                out@[b].attribute_name@,
            ) by {
                assert(mapping_from(out@[a], pairs[a].0, pairs[a].1));
                assert(mapping_from(out@[b], pairs[b].0, pairs[b].1));
            }
        }
        Ok(PrincipalClaimMappings { by_name: out })
    }

    /// True when no operator mappings are configured.
    pub fn is_empty(&self) -> (b: bool)
        ensures
            b == (self.mappings().len() == 0),
    {
        self.by_name.len() == 0
    }

    /// The mappings, in attribute-name order.
    pub fn iter(&self) -> (s: &[PrincipalClaimMapping])
        ensures
            s@ == self.mappings(),
    {
        self.by_name.as_slice()
    }

    /// Cedar schema attribute lines for `Forge::Principal`: one
    /// `    "name"?: Type,` line per mapping, in name order; empty when there
    /// are no mappings.
    pub fn cedar_schema_fragment(&self) -> (s: String)
        ensures
            s@ == fragment_spec(self.mappings()),
    {
        let mut out = String::new();
        let mut i: usize = 0;
        while i < self.by_name.len()
            invariant
                i <= self.by_name@.len(),
                out@ == fragment_spec(self.by_name@.subrange(0, i as int)),
            decreases self.by_name@.len() - i,
        {
            let m = &self.by_name[i];
            push_str(&mut out, "    \"");
            push_str(&mut out, m.attribute_name.as_str());
            push_str(&mut out, "\"?: ");
            push_str(&mut out, m.claim_type.cedar_type_fragment());
            push_str(&mut out, ",\n");
            let ghost t = self.by_name@.subrange(0, i + 1);
            assert(t.drop_last() =~= self.by_name@.subrange(0, i as int));
            i += 1;
            assert(out@ =~= fragment_spec(self.by_name@.subrange(0, i as int)));
        }
        assert(self.by_name@.subrange(0, i as int) =~= self.by_name@);
        out
    }
}

// ---------------------------------------------------------------------------
// Request-time extraction
// ---------------------------------------------------------------------------

/// A typed Cedar attribute value built from a claim.
#[derive(Debug, Clone, PartialEq, Eq)]
pub enum CedarAttr {
    String(String),
    Long(i64),
    Bool(bool),
    SetOfString(Vec<String>),
}

/// The value of claim `key` among a token's custom claims.
pub open spec fn claim_lookup(custom: Seq<(String, JsonValue)>, key: Seq<char>) -> Option<JsonValue>
    decreases custom.len(),
{
    if custom.len() == 0 {
        None
    } else if custom[0].0@ == key {
        Some(custom[0].1)
    } else {
        claim_lookup(custom.drop_first(), key)
    }
}

/// The value a mapping reads: the token's claim, or else its default.
pub open spec fn raw_value(custom: Seq<(String, JsonValue)>, m: PrincipalClaimMapping) -> Option<JsonValue> {
    match claim_lookup(custom, m.claim_name@) {
        Some(v) => Some(v),
        None => m.default,
    }
}

/// `a` is the attribute that value `v` of mapping `m` becomes.
pub open spec fn attr_from(a: CedarAttr, t: PrincipalClaimType, v: JsonValue) -> bool {
    match (t, v, a) {
        (PrincipalClaimType::String, JsonValue::String(s), CedarAttr::String(x)) => x == s,
        (PrincipalClaimType::Long, JsonValue::Number(Some(i)), CedarAttr::Long(x)) => x == i,
        (PrincipalClaimType::Bool, JsonValue::Bool(b), CedarAttr::Bool(x)) => x == b,
        (PrincipalClaimType::SetOfString, JsonValue::Array(items), CedarAttr::SetOfString(xs)) => {
            &&& xs@.len() == items@.len()
            &&& forall|i: int|
                0 <= i < items@.len() ==> (#[trigger] items@[i] matches JsonValue::String(s) && xs@[i]
                    == s)
        },
        _ => false,
    }
}

/// A mapping is satisfied by the token: its value has the declared shape,
/// or it has no value and is optional.
pub open spec fn mapping_satisfied(custom: Seq<(String, JsonValue)>, m: PrincipalClaimMapping) -> bool {
    match raw_value(custom, m) {
        Some(v) => json_matches_type(v, m.claim_type),
        None => !m.required,
    }
}

/// The first item of `items` that is not a string.
pub open spec fn first_non_string(items: Seq<JsonValue>) -> JsonValue
    decreases items.len(),
{
    if items.len() == 0 {
        JsonValue::Null
    } else if items[0] is String {
        first_non_string(items.drop_first())
    } else {
        items[0]
    }
}

/// The error an unsatisfied mapping raises.
pub open spec fn mapping_error(e: AdapterError, custom: Seq<(String, JsonValue)>, m: PrincipalClaimMapping) -> bool {
    &&& e matches AdapterError::UnrepresentableValue { field, detail }
    &&& field@ == "principal."@ + m.attribute_name@
    &&& match raw_value(custom, m) {
        None => detail@ == "required claim '"@ + m.claim_name@ + "' missing from token"@,
        Some(v) => match (m.claim_type, v) {
            (PrincipalClaimType::SetOfString, JsonValue::Array(items)) => detail@ == "claim '"@
                + m.claim_name@ + "' set element has JSON kind "@ + json_kind(
                first_non_string(items@),
            ) + " but mapping requires strings"@,
            _ => detail@ == "claim '"@ + m.claim_name@ + "' has JSON kind "@ + json_kind(v)
                + " but mapping declares type "@ + claim_type_debug(m.claim_type),
        },
    }
}

/// Mapping `i` is the first the token does not satisfy, and `e` its error.
pub open spec fn extraction_fails_at(
    custom: Seq<(String, JsonValue)>,
    ms: Seq<PrincipalClaimMapping>,
    i: int,
    e: AdapterError,
) -> bool {
    &&& 0 <= i < ms.len()
    &&& forall|k: int| 0 <= k < i ==> mapping_satisfied(custom, #[trigger] ms[k])
    &&& !mapping_satisfied(custom, ms[i])
    &&& mapping_error(e, custom, ms[i])
}

/// `attrs` are the attributes of the mappings that have a value, in order.
pub open spec fn extracted(
    attrs: Seq<(String, CedarAttr)>,
    custom: Seq<(String, JsonValue)>,
    ms: Seq<PrincipalClaimMapping>,
) -> bool
    decreases ms.len(),
{
    if ms.len() == 0 {
        attrs.len() == 0
    } else {
        let m = ms.last();
        match raw_value(custom, m) {
            None => extracted(attrs, custom, ms.drop_last()),
            Some(v) => {
                &&& attrs.len() > 0
                &&& attrs.last().0@ == m.attribute_name@
                &&& attr_from(attrs.last().1, m.claim_type, v)
                &&& extracted(attrs.drop_last(), custom, ms.drop_last())
            },
        }
    }
}

fn lookup_claim<'a>(custom: &'a [(String, JsonValue)], key: &String) -> (r: Option<&'a JsonValue>)
    ensures
        match r {
            Some(v) => claim_lookup(custom@, key@) == Some(*v),
            None => claim_lookup(custom@, key@) is None,
        },
{
    let mut i: usize = 0;
    assert(custom@.skip(0) =~= custom@);
    while i < custom.len()
        invariant
            i <= custom@.len(),
            claim_lookup(custom@, key@) == claim_lookup(custom@.skip(i as int), key@),
        decreases custom@.len() - i,
    {
        let ghost rest = custom@.skip(i as int);
        assert(rest.drop_first() =~= custom@.skip(i + 1));
        assert(rest[0] == custom@[i as int]);
        if custom[i].0 == *key {
            return Some(&custom[i].1);
        }
        i += 1;
    }
    assert(custom@.skip(i as int).len() == 0);
    None
}

fn principal_field(attribute_name: &String) -> (s: String)
    ensures
        s@ == "principal."@ + attribute_name@,
{
    let mut s = str_to_string("principal.");
    push_str(&mut s, attribute_name.as_str());
    s
}

fn mismatch_error(m: &PrincipalClaimMapping, v: &JsonValue) -> (e: AdapterError)
    ensures
        e matches AdapterError::UnrepresentableValue { field, detail } && field@ == "principal."@
            + m.attribute_name@ && detail@ == "claim '"@ + m.claim_name@ + "' has JSON kind "@
            + json_kind(*v) + " but mapping declares type "@ + claim_type_debug(m.claim_type),
{
    let mut detail = str_to_string("claim '");
    push_str(&mut detail, m.claim_name.as_str());
    push_str(&mut detail, "' has JSON kind ");
    push_str(&mut detail, describe_json_kind(v).as_str());
    push_str(&mut detail, " but mapping declares type ");
    push_str(&mut detail, claim_type_debug_text(m.claim_type));
    AdapterError::UnrepresentableValue { field: principal_field(&m.attribute_name), detail }
}

/// The attribute of a mapping's value, or the error its shape raises.
fn build_expression(m: &PrincipalClaimMapping, v: &JsonValue) -> (r: Result<CedarAttr, AdapterError>)
    ensures
        match r {
            Ok(a) => json_matches_type(*v, m.claim_type) && attr_from(a, m.claim_type, *v),
            Err(e) => !json_matches_type(*v, m.claim_type) && (e matches AdapterError::UnrepresentableValue {
                field,
                detail,
            } && field@ == "principal."@ + m.attribute_name@ && match (m.claim_type, *v) {
                (PrincipalClaimType::SetOfString, JsonValue::Array(items)) => detail@ == "claim '"@
                    + m.claim_name@ + "' set element has JSON kind "@ + json_kind(
                    first_non_string(items@),
                ) + " but mapping requires strings"@,
                _ => detail@ == "claim '"@ + m.claim_name@ + "' has JSON kind "@ + json_kind(*v)
                    + " but mapping declares type "@ + claim_type_debug(m.claim_type),
            }),
        },
{
    match v {
        JsonValue::String(s) => {
            if m.claim_type == PrincipalClaimType::String {
                Ok(CedarAttr::String(s.clone()))
            } else {
                Err(mismatch_error(m, v))
            }
        },
        JsonValue::Number(n) => {
            if m.claim_type == PrincipalClaimType::Long {
                match n {
                    Some(i) => Ok(CedarAttr::Long(*i)),
                    None => Err(mismatch_error(m, v)),
                }
            } else {
                Err(mismatch_error(m, v))
            }
        },
        JsonValue::Bool(b) => {
            if m.claim_type == PrincipalClaimType::Bool {
                Ok(CedarAttr::Bool(*b))
            } else {
                Err(mismatch_error(m, v))
            }
        },
        JsonValue::Array(items) => {
            if m.claim_type != PrincipalClaimType::SetOfString {
                return Err(mismatch_error(m, v));
            }
            let mut out: Vec<String> = Vec::new();
            let mut i: usize = 0;
            assert(items@.skip(0) =~= items@);
            while i < items.len()
                invariant
                    i <= items@.len(),
                    *v == JsonValue::Array(*items),
                    m.claim_type == PrincipalClaimType::SetOfString,
                    out@.len() == i,
                    forall|k: int|
                        0 <= k < i ==> (#[trigger] items@[k] matches JsonValue::String(s) && out@[k]
                            == s),
                    first_non_string(items@) == first_non_string(items@.skip(i as int)),
                decreases items@.len() - i,
            {
                let ghost rest = items@.skip(i as int);
                assert(rest.drop_first() =~= items@.skip(i + 1));
                assert(rest[0] == items@[i as int]);
                match &items[i] {
                    JsonValue::String(s) => {
                        out.push(s.clone());
                    },
                    other => {
                        let mut detail = str_to_string("claim '");
                        push_str(&mut detail, m.claim_name.as_str());
                        push_str(&mut detail, "' set element has JSON kind ");
                        push_str(&mut detail, describe_json_kind(other).as_str());
                        push_str(&mut detail, " but mapping requires strings");
                        assert(!(items@[i as int] is String));
                        assert(first_non_string(rest) == rest[0]);
                        assert(first_non_string(items@) == items@[i as int]);
                        assert(*other == items@[i as int]);
                        assert(!json_matches_type(*v, m.claim_type));
                        let field = principal_field(&m.attribute_name);
                        assert(detail@ == "claim '"@ + m.claim_name@ + "' set element has JSON kind "@
                            + json_kind(first_non_string(items@)) + " but mapping requires strings"@);
                        return Err(AdapterError::UnrepresentableValue { field, detail });
                    },
                }
                i += 1;
            }
            Ok(CedarAttr::SetOfString(out))
        },
        _ => Err(mismatch_error(m, v)),
    }
}

impl PrincipalClaimMappings {
    /// The Cedar attributes a token's custom claims (distinct keys, in any
    /// order) give the principal: for each mapping in name order, the
    /// token's claim or else the mapping's default, typed as declared. A
    /// mapping with neither is skipped when optional, and fails the request
    /// when required; a value of the wrong shape is never coerced.
    pub fn extract_attributes(&self, custom: &[(String, JsonValue)]) -> (r: Result<
        Vec<(String, CedarAttr)>,
        AdapterError,
    >)
        ensures
            match r {
                Ok(attrs) => (forall|i: int|
                    0 <= i < self.mappings().len() ==> mapping_satisfied(
                        custom@,
                        #[trigger] self.mappings()[i],
                    )) && extracted(attrs@, custom@, self.mappings()),
                Err(e) => exists|i: int| extraction_fails_at(custom@, self.mappings(), i, e),
            },
    {
        let mut attrs: Vec<(String, CedarAttr)> = Vec::new();
        let mut i: usize = 0;
        while i < self.by_name.len()
            invariant
                i <= self.by_name@.len(),
                forall|k: int| 0 <= k < i ==> mapping_satisfied(custom@, #[trigger] self.by_name@[k]),
                extracted(attrs@, custom@, self.by_name@.subrange(0, i as int)),
            decreases self.by_name@.len() - i,
        {
            let m = &self.by_name[i];
            let ghost ms = self.by_name@.subrange(0, i + 1);
            assert(ms.drop_last() =~= self.by_name@.subrange(0, i as int));
            assert(ms.last() == *m);
            let raw: Option<&JsonValue> = match lookup_claim(custom, &m.claim_name) {
                Some(v) => Some(v),
                None => match &m.default {
                    Some(d) => Some(d),
                    None => None,
                },
            };
            match raw {
                None => {
                    if m.required {
                        let mut detail = str_to_string("required claim '");
                        push_str(&mut detail, m.claim_name.as_str());
                        push_str(&mut detail, "' missing from token");
                        let e = AdapterError::UnrepresentableValue {
                            field: principal_field(&m.attribute_name),
                            detail,
                        };
                        assert(extraction_fails_at(custom@, self.by_name@, i as int, e));
                        assert(self.mappings() == self.by_name@);
                        assert(exists|j: int| extraction_fails_at(custom@, self.mappings(), j, e));
                        return Err(e);
                    }
                },
                Some(v) => {
                    match build_expression(m, v) {
                        Ok(a) => {
                            let ghost before = attrs@;
                            attrs.push((m.attribute_name.clone(), a));
                            assert(attrs@.drop_last() =~= before);
                        },
                        Err(e) => {
                            assert(extraction_fails_at(custom@, self.by_name@, i as int, e));
                            assert(self.mappings() == self.by_name@);
                            assert(exists|j: int| extraction_fails_at(custom@, self.mappings(), j, e));
                            return Err(e);
                        },
                    }
                },
            }
            i += 1;
        }
        assert(self.by_name@.subrange(0, i as int) =~= self.by_name@);
        Ok(attrs)
    }
}

/// Attribute value `a` has the Cedar type of claim type `t`.
pub open spec fn attr_of_type(a: CedarAttr, t: PrincipalClaimType) -> bool {
    match (t, a) {
        (PrincipalClaimType::String, CedarAttr::String(_)) => true,
        (PrincipalClaimType::Long, CedarAttr::Long(_)) => true,
        (PrincipalClaimType::Bool, CedarAttr::Bool(_)) => true,
        (PrincipalClaimType::SetOfString, CedarAttr::SetOfString(_)) => true,
        _ => false,
    }
}

/// Every mapping's line is part of the fragment.
proof fn lemma_fragment_contains_lines(ms: Seq<PrincipalClaimMapping>, j: int)
    requires
        0 <= j < ms.len(),
    ensures
        contains_seq(fragment_spec(ms), fragment_line(ms[j])),
    decreases ms.len(),
{
    let init = ms.drop_last();
    let head = fragment_spec(init);
    let line = fragment_line(ms.last());
    assert(fragment_spec(ms) == head + line);
    if j == ms.len() - 1 {
        assert((head + line).subrange(head.len() as int, (head + line).len() as int) =~= line);
        assert(occurs_at(head + line, line, head.len() as int));
    } else {
        lemma_fragment_contains_lines(init, j);
        assert(init[j] == ms[j]);
        let p = fragment_line(ms[j]);
        let k = choose|k: int| occurs_at(head, p, k);
        assert((head + line).subrange(k, k + p.len()) =~= head.subrange(k, k + p.len()));
        assert(occurs_at(head + line, p, k));
    }
}

/// Law: the principal attributes a token yields are the ones the Cedar
/// schema declares. Each extracted attribute belongs to a mapping whose
/// optional declaration `"<name>"?: <type>,` is part of the fragment the
/// schema generator splices into `Forge::Principal`, and its value has the
/// declared type.
pub proof fn lemma_extracted_attrs_declared(
    attrs: Seq<(String, CedarAttr)>,
    custom: Seq<(String, JsonValue)>,
    ms: Seq<PrincipalClaimMapping>,
)
    requires
        extracted(attrs, custom, ms),
    ensures
        forall|i: int|
            0 <= i < attrs.len() ==> exists|j: int|
                0 <= j < ms.len() && ms[j].attribute_name@ == (#[trigger] attrs[i]).0@ && attr_of_type(
                    attrs[i].1,
                    ms[j].claim_type,
                ) && contains_seq(fragment_spec(ms), fragment_line(ms[j])),
    decreases ms.len(),
{
    if ms.len() > 0 {
        let m = ms.last();
        let init = ms.drop_last();
        match raw_value(custom, m) {
            None => {
                lemma_extracted_attrs_declared(attrs, custom, init);
                assert forall|i: int| 0 <= i < attrs.len() implies exists|j: int|
                    0 <= j < ms.len() && ms[j].attribute_name@ == (#[trigger] attrs[i]).0@ && attr_of_type(
                        attrs[i].1,
                        ms[j].claim_type,
                    ) && contains_seq(fragment_spec(ms), fragment_line(ms[j])) by {
                    let j = choose|j: int|
                        0 <= j < init.len() && init[j].attribute_name@ == (#[trigger] attrs[i]).0@
                            && attr_of_type(attrs[i].1, init[j].claim_type) && contains_seq(
                            fragment_spec(init),
                            fragment_line(init[j]),
                        );
                    assert(init[j] == ms[j]);
                    lemma_fragment_contains_lines(ms, j);
                }
            },
            Some(v) => {
                let rest = attrs.drop_last();
                lemma_extracted_attrs_declared(rest, custom, init);
                assert forall|i: int| 0 <= i < attrs.len() implies exists|j: int|
                    0 <= j < ms.len() && ms[j].attribute_name@ == (#[trigger] attrs[i]).0@ && attr_of_type(
                        attrs[i].1,
                        ms[j].claim_type,
                    ) && contains_seq(fragment_spec(ms), fragment_line(ms[j])) by {
                    if i < rest.len() {
                        assert(attrs[i] == rest[i]);
                        let j = choose|j: int|
                            0 <= j < init.len() && init[j].attribute_name@ == (#[trigger] rest[i]).0@
                                && attr_of_type(rest[i].1, init[j].claim_type) && contains_seq(
                                fragment_spec(init),
                                fragment_line(init[j]),
                            );
                        assert(init[j] == ms[j]);
                        lemma_fragment_contains_lines(ms, j);
                    } else {
                        let j = ms.len() - 1;
                        assert(ms[j] == m);
                        assert(attrs[i] == attrs.last());
                        lemma_fragment_contains_lines(ms, j);
                    }
                }
            },
        }
    }
}

/// A mapping reads the token claim its row names: the row's `claim` when
/// it gives one, and only otherwise the row's own name (the attribute
/// name). `from_config` builds each mapping from its row this way.
pub proof fn lemma_mapping_reads_configured_claim(m: PrincipalClaimMapping, name: Seq<char>, e: PrincipalClaimConfigEntry)
    requires
        mapping_from(m, name, e),
    ensures
        e.claim matches Some(c) ==> m.claim_name@ == c@,
        e.claim is None ==> m.claim_name@ == name,
        m.attribute_name@ == name,
{
}

} // verus!
