//! Role-name → rank mapping driving SchemaForge's role hierarchy.
//!
//! Cedar policies enforce the no-upward-visibility/creation rule for user
//! management by comparing `principal.role_rank` against `resource.role_rank`.
//! `platform_admin` always has rank [`PLATFORM_ADMIN_RANK`] and the loader
//! refuses any attempt to override it; every other registered role has a rank
//! in `0..PLATFORM_ADMIN_RANK`.
use vstd::prelude::*;

use crate::order::{insert_name, lemma_lex_irreflexive, lemma_sorted_insert_props, lex_lt, sorted_insert, strictly_sorted};
use crate::text::views;

verus! {

/// Rank assigned to the platform superuser role (`i64::MAX`), so no
/// operator-supplied rank can equal or exceed it.
pub const PLATFORM_ADMIN_RANK: i64 = 0x7fff_ffff_ffff_ffff;

/// The reserved role name representing the platform superuser.
pub const PLATFORM_ADMIN_ROLE: &'static str = "platform_admin";

/// Rank value for a single role.
pub type RoleRank = i64;

/// The TOML parse failure reported by the `toml` crate.
#[verifier::external_type_specification]
#[verifier::external_body]
pub struct ExTomlError(toml::de::Error);

/// An I/O failure reported by std.
#[verifier::external_type_specification]
#[verifier::external_body]
pub struct ExIoError(std::io::Error);

/// Errors that can occur while loading or validating a [`RoleRanks`] map.
#[derive(Debug)]
#[allow(inconsistent_fields)]
pub enum RoleRanksError {
    /// The role-ranks file does not exist at the expected path.
    FileNotFound { path: String },
    /// The TOML file could not be read from disk.
    Io { path: String, source: std::io::Error },
    /// The TOML file failed to parse.
    Parse { path: String, source: toml::de::Error },
    /// An operator attempted to override the reserved `platform_admin` rank.
    PlatformAdminOverride,
    /// A rank value was outside the permitted range.
    InvalidRank { role: String, rank: i64 },
    /// A role name was empty.
    EmptyRoleName,
    /// A Cedar policy referenced a role name with no rank entry.
    UnregisteredRole { role: String },
}

/// Validated role-name → rank mapping.
///
/// Always contains an entry for `platform_admin` at rank
/// [`PLATFORM_ADMIN_RANK`]; every other rank lies in `0..PLATFORM_ADMIN_RANK`.
#[derive(Debug)]
pub struct RoleRanks {
    ranks: Vec<(String, i64)>,
}

/// The map denoted by a list of (name, rank) entries; later entries win.
pub open spec fn entries_map(s: Seq<(String, i64)>) -> Map<Seq<char>, i64>
    decreases s.len(),
{
    if s.len() == 0 {
        Map::empty()
    } else {
        entries_map(s.drop_last()).insert(s.last().0@, s.last().1)
    }
}

/// The names of a list of entries.
pub open spec fn entry_names(s: Seq<(String, i64)>) -> Seq<Seq<char>> {
    s.map_values(|e: (String, i64)| e.0@)
}

/// Invariant every rank map satisfies: the platform admin sits alone at the
/// top, every other rank is in `0..PLATFORM_ADMIN_RANK`.
pub open spec fn valid_rank_map(m: Map<Seq<char>, i64>) -> bool {
    &&& m.dom().finite()
    &&& m.contains_key(PLATFORM_ADMIN_ROLE@)
    &&& m[PLATFORM_ADMIN_ROLE@] == PLATFORM_ADMIN_RANK
    &&& forall|k: Seq<char>|
        #![trigger m[k]]
        m.contains_key(k) && k != PLATFORM_ADMIN_ROLE@ ==> 0 <= m[k] < PLATFORM_ADMIN_RANK
}

/// The rank `roles` resolve to: the largest rank among them, unknown roles
/// counting as `0`, and `0` for no roles.
pub open spec fn max_rank_of(m: Map<Seq<char>, i64>, roles: Seq<Seq<char>>) -> i64
    decreases roles.len(),
{
    if roles.len() == 0 {
        0
    } else {
        let rest = max_rank_of(m, roles.drop_last());
        let r = if m.contains_key(roles.last()) {
            m[roles.last()]
        } else {
            0
        };
        if r > rest {
            r
        } else {
            rest
        }
    }
}

/// Why one parsed `[roles]` entry is refused, if it is.
pub enum RoleEntryFault {
    EmptyName,
    ReservedName,
    BadRank,
}

pub open spec fn entry_fault(name: Seq<char>, rank: i64) -> Option<RoleEntryFault> {
    if name.len() == 0 {
        Some(RoleEntryFault::EmptyName)
    } else if name == PLATFORM_ADMIN_ROLE@ {
        Some(RoleEntryFault::ReservedName)
    } else if rank < 0 || rank == PLATFORM_ADMIN_RANK {
        Some(RoleEntryFault::BadRank)
    } else {
        None
    }
}

/// The error `from_role_table` reports for the first refused entry.
pub open spec fn fault_matches(
    err: RoleRanksError,
    fault: RoleEntryFault,
    name: Seq<char>,
    rank: i64,
) -> bool {
    match fault {
        RoleEntryFault::EmptyName => err is EmptyRoleName,
        RoleEntryFault::ReservedName => err is PlatformAdminOverride,
        RoleEntryFault::BadRank => err matches RoleRanksError::InvalidRank { role, rank: r } && role@
            == name && r == rank,
    }
}

/// Names whether `toml::from_str` reads `src` as a TOML table.
pub uninterp spec fn toml_parses(src: Seq<char>) -> bool;

/// Names whether the table `toml::from_str` reads from `src` has `key`.
pub uninterp spec fn toml_has_key(src: Seq<char>, key: Seq<char>) -> bool;

/// Names what `toml::Value::try_into::<BTreeMap<String, i64>>` makes of the
/// value of `key` in the table read from `src`: its (name, rank) pairs in
/// the map's order, or nothing when it is not a table of integers.
pub uninterp spec fn toml_entry_ranks(src: Seq<char>, key: Seq<char>) -> Option<Seq<(Seq<char>, i64)>>;

/// The `[roles]` table of a TOML document: nothing when the text is not a
/// TOML table or its `roles` value is not a table of integers; no pairs
/// when it has no `roles` key; otherwise the (name, rank) pairs.
pub open spec fn toml_role_table(input: Seq<char>) -> Option<Seq<(Seq<char>, i64)>> {
    if !toml_parses(input) {
        None
    } else if !toml_has_key(input, "roles"@) {
        Some(Seq::empty())
    } else {
        toml_entry_ranks(input, "roles"@)
    }
}

pub open spec fn pair_views(v: Seq<(String, i64)>) -> Seq<(Seq<char>, i64)> {
    v.map_values(|e: (String, i64)| (e.0@, e.1))
}

/// The names of (name, rank) pairs.
pub open spec fn pair_names(t: Seq<(Seq<char>, i64)>) -> Seq<Seq<char>> {
    t.map_values(|e: (Seq<char>, i64)| e.0)
}

/// The map denoted by (name, rank) pairs; later pairs win.
pub open spec fn pairs_map(t: Seq<(Seq<char>, i64)>) -> Map<Seq<char>, i64>
    decreases t.len(),
{
    if t.len() == 0 {
        Map::empty()
    } else {
        pairs_map(t.drop_last()).insert(t.last().0, t.last().1)
    }
}

/// A TOML document as the `toml` crate reads it, with its source text.
pub struct TomlDocument {
    table: toml::Table,
    source: String,
}

/// The value of one key of a TOML document, with the document's source.
pub struct TomlEntry {
    value: toml::Value,
    source: String,
    key: String,
}

/// A TOML table, as the `toml` crate represents it.
#[verifier::external_type_specification]
#[verifier::external_body]
#[verifier::reject_recursive_types(K)]
#[verifier::reject_recursive_types(V)]
pub struct ExTomlMap<K, V>(toml::map::Map<K, V>);

/// A TOML value, as the `toml` crate represents it.
#[verifier::external_type_specification]
#[verifier::external_body]
pub struct ExTomlValue(toml::Value);

/// `toml::from_str` into a `toml::Table`: the table, kept with its source,
/// or the parse error; which of them is named by `toml_parses`.
#[verifier::external_body]
fn parse_toml_document(input: &str) -> (r: Result<TomlDocument, toml::de::Error>)
    ensures
        r is Ok <==> toml_parses(input@),
        r matches Ok(d) ==> d.source@ == input@,
{
    match toml::from_str::<toml::Table>(input) {
        Ok(table) => Ok(TomlDocument { table, source: input.to_string() }),
        Err(e) => Err(e),
    }
}

/// `toml::Table::remove`: the value of `key`, if the table has it (named by
/// `toml_has_key`), kept with the document's source and the key.
#[verifier::external_body]
fn take_toml_entry(doc: TomlDocument, key: &str) -> (r: Option<TomlEntry>)
    ensures
        r is Some <==> toml_has_key(doc.source@, key@),
        r matches Some(e) ==> e.source@ == doc.source@ && e.key@ == key@,
{
    let TomlDocument { mut table, source } = doc;
    match table.remove(key) {
        Some(value) => Some(TomlEntry { value, source, key: key.to_string() }),
        None => None,
    }
}

/// `toml::Value::try_into::<BTreeMap<String, i64>>`, listed: the map's
/// entries as `toml_entry_ranks` names them, or the error. A `BTreeMap`
/// yields its entries in ascending key order, so the names come strictly
/// ascending.
#[verifier::external_body]
fn toml_entry_into_ranks(entry: TomlEntry) -> (r: Result<Vec<(String, i64)>, toml::de::Error>)
    ensures
        r is Ok <==> toml_entry_ranks(entry.source@, entry.key@) is Some,
        r matches Ok(v) ==> pair_views(v@) == toml_entry_ranks(entry.source@, entry.key@)->Some_0
            && strictly_sorted(entry_names(v@)),
{
    match entry.value.try_into::<std::collections::BTreeMap<String, i64>>() {
        Ok(m) => Ok(m.into_iter().collect()),
        Err(e) => Err(e),
    }
}

/// Reads the `[roles]` table of a TOML document: its `roles` entry, no
/// pairs when the document has none, its names strictly ascending.
fn parse_role_table(input: &str) -> (r: Result<Vec<(String, i64)>, toml::de::Error>)
    ensures
        r is Ok <==> toml_role_table(input@) is Some,
        r matches Ok(v) ==> pair_views(v@) == toml_role_table(input@)->Some_0 && strictly_sorted(
            entry_names(v@),
        ),
{
    let doc = parse_toml_document(input)?;
    match take_toml_entry(doc, "roles") {
        None => {
            let v: Vec<(String, i64)> = Vec::new();
            assert(pair_views(v@) =~= Seq::<(Seq<char>, i64)>::empty());
            assert(entry_names(v@) =~= Seq::<Seq<char>>::empty());
            Ok(v)
        },
        Some(entry) => toml_entry_into_ranks(entry),
    }
}

/// Strictly ascending names occur once each.
proof fn lemma_sorted_names_distinct(s: Seq<Seq<char>>)
    requires
        strictly_sorted(s),
    ensures
        s.no_duplicates(),
{
    assert forall|a: int, b: int| 0 <= a < s.len() && 0 <= b < s.len() && a != b implies s[a] != s[b] by {
        if s[a] == s[b] {
            lemma_lex_irreflexive(s[a]);
        }
    }
}

/// `r` is what validating the (name, rank) pairs `t` in order gives: the
/// rank map of the pairs plus `platform_admin` when no pair is faulty, else
/// the error of the first faulty pair.
pub open spec fn ranks_from_pairs(r: Result<RoleRanks, RoleRanksError>, t: Seq<(Seq<char>, i64)>) -> bool {
    &&& (r is Ok <==> (forall|i: int| 0 <= i < t.len() ==> entry_fault(t[i].0, t[i].1) is None))
    &&& match r {
        Ok(m) => m@ == pairs_map(t).insert(PLATFORM_ADMIN_ROLE@, PLATFORM_ADMIN_RANK) && valid_rank_map(m@),
        Err(e) => exists|i: int|
            0 <= i < t.len() && (forall|j: int| 0 <= j < i ==> entry_fault(t[j].0, t[j].1) is None) && (
            #[trigger] entry_fault(t[i].0, t[i].1) matches Some(f) && fault_matches(e, f, t[i].0, t[i].1)),
    }
}

/// The entries map of a list is the pairs map of its views.
proof fn lemma_entries_pairs_map(v: Seq<(String, i64)>)
    ensures
        entries_map(v) == pairs_map(pair_views(v)),
    decreases v.len(),
{
    if v.len() > 0 {
        lemma_entries_pairs_map(v.drop_last());
        assert(pair_views(v).drop_last() =~= pair_views(v.drop_last()));
    }
}

proof fn lemma_entries_map_dom(s: Seq<(String, i64)>)
    ensures
        entries_map(s).dom().finite(),
        forall|k: Seq<char>| #[trigger]
            entries_map(s).contains_key(k) <==> entry_names(s).contains(k),
    decreases s.len(),
{
    if s.len() > 0 {
        lemma_entries_map_dom(s.drop_last());
        assert forall|k: Seq<char>| #[trigger]
            entries_map(s).contains_key(k) <==> entry_names(s).contains(k) by {
            if entry_names(s).contains(k) {
                let i = choose|i: int| 0 <= i < entry_names(s).len() && entry_names(s)[i] == k;
                if i < s.len() - 1 {
                    assert(entry_names(s.drop_last())[i] == k);
                }
            }
            if entries_map(s.drop_last()).contains_key(k) {
                let i = choose|i: int|
                    0 <= i < entry_names(s.drop_last()).len() && entry_names(s.drop_last())[i]
                        == k;
                assert(entry_names(s)[i] == k);
            }
            if k == s.last().0@ {
                assert(entry_names(s)[s.len() - 1] == k);
            }
        }
    }
}

proof fn lemma_entries_map_index(s: Seq<(String, i64)>, i: int)
    requires
        0 <= i < s.len(),
        entry_names(s).no_duplicates(),
    ensures
        entries_map(s).contains_key(s[i].0@),
        entries_map(s)[s[i].0@] == s[i].1,
    decreases s.len(),
{
    if i < s.len() - 1 {
        assert(entry_names(s.drop_last()).no_duplicates()) by {
            assert forall|a: int, b: int|
                0 <= a < entry_names(s.drop_last()).len() && 0 <= b < entry_names(
                    s.drop_last(),
                ).len() && a != b implies entry_names(s.drop_last())[a] != entry_names(
                s.drop_last(),
            )[b] by {
                assert(entry_names(s)[a] == entry_names(s.drop_last())[a]);
                assert(entry_names(s)[b] == entry_names(s.drop_last())[b]);
            }
        }
        lemma_entries_map_index(s.drop_last(), i);
        assert(entry_names(s)[i] != entry_names(s)[s.len() - 1]);
    }
}

impl RoleRanks {
    /// The role hierarchy as a map from role name to rank.
    pub closed spec fn view(&self) -> Map<Seq<char>, i64> {
        entries_map(self.ranks@)
    }

    #[verifier::type_invariant]
    closed spec fn inv(self) -> bool {
        &&& entry_names(self.ranks@).no_duplicates()
        &&& valid_rank_map(entries_map(self.ranks@))
    }

    /// Constructs a rank map containing only `platform_admin`.
    pub fn empty() -> (r: Self)
        ensures
            r@ == Map::<Seq<char>, i64>::empty().insert(PLATFORM_ADMIN_ROLE@, PLATFORM_ADMIN_RANK),
            valid_rank_map(r@),
    {
        let mut ranks: Vec<(String, i64)> = Vec::new();
        ranks.push((String::from_str(PLATFORM_ADMIN_ROLE), PLATFORM_ADMIN_RANK));
        proof {
            assert(ranks@.drop_last() =~= Seq::<(String, i64)>::empty());
            assert(entry_names(ranks@) =~= seq![PLATFORM_ADMIN_ROLE@]);
            assert(entries_map(Seq::<(String, i64)>::empty()) == Map::<Seq<char>, i64>::empty());
            assert(entries_map(ranks@) == entries_map(ranks@.drop_last()).insert(
                ranks@.last().0@,
                ranks@.last().1,
            ));
            let m = entries_map(ranks@);
            assert(m =~= Map::<Seq<char>, i64>::empty().insert(
                PLATFORM_ADMIN_ROLE@,
                PLATFORM_ADMIN_RANK,
            ));
        }
        RoleRanks { ranks }
    }

    /// Validates a parsed `[roles]` table. Entries are examined in order; the
    /// first empty name, reserved `platform_admin` name or out-of-range rank
    /// is reported. On success the map holds every entry plus `platform_admin`.
    pub fn from_role_table(table: Vec<(String, i64)>) -> (r: Result<Self, RoleRanksError>)
        requires
            entry_names(table@).no_duplicates(),
        ensures
            r is Ok <==> (forall|i: int|
                0 <= i < table@.len() ==> entry_fault(table@[i].0@, table@[i].1) is None),
            r matches Ok(m) ==> m@ == entries_map(table@).insert(
                PLATFORM_ADMIN_ROLE@,
                PLATFORM_ADMIN_RANK,
            ) && valid_rank_map(m@),
            r matches Err(e) ==> exists|i: int|
                0 <= i < table@.len() && (forall|j: int|
                    0 <= j < i ==> entry_fault(table@[j].0@, table@[j].1) is None) && (
                #[trigger] entry_fault(table@[i].0@, table@[i].1) matches Some(f) && fault_matches(
                    e,
                    f,
                    table@[i].0@,
                    table@[i].1,
                )),
    {
        let mut i: usize = 0;
        while i < table.len()
            invariant
                i <= table@.len(),
                forall|j: int| 0 <= j < i ==> entry_fault(table@[j].0@, table@[j].1) is None,
            decreases table@.len() - i,
        {
            let name = &table[i].0;
            let rank = table[i].1;
            if name.as_str().is_empty() {
                let ghost k = i as int;
                assert(entry_fault(table@[k].0@, table@[k].1) is Some);
                return Err(RoleRanksError::EmptyRoleName);
            }
            let pa = String::from_str(PLATFORM_ADMIN_ROLE);
            if *name == pa {
                let ghost k = i as int;
                assert(entry_fault(table@[k].0@, table@[k].1) is Some);
                return Err(RoleRanksError::PlatformAdminOverride);
            }
            if rank < 0 || rank == PLATFORM_ADMIN_RANK {
                let ghost k = i as int;
                assert(entry_fault(table@[k].0@, table@[k].1) is Some);
                return Err(RoleRanksError::InvalidRank { role: name.clone(), rank });
            }
            i += 1;
        }
        let ghost t = table@;
        proof {
            lemma_entries_map_dom(t);
            assert forall|j: int| 0 <= j < t.len() implies t[j].0@ != PLATFORM_ADMIN_ROLE@ by {
                assert(entry_fault(t[j].0@, t[j].1) is None);
            }
        }
        let mut ranks = table;
        ranks.push((String::from_str(PLATFORM_ADMIN_ROLE), PLATFORM_ADMIN_RANK));
        proof {
            assert(ranks@.drop_last() =~= t);
            assert(entry_names(ranks@) =~= entry_names(t).push(PLATFORM_ADMIN_ROLE@));
            assert(!entry_names(t).contains(PLATFORM_ADMIN_ROLE@)) by {
                if entry_names(t).contains(PLATFORM_ADMIN_ROLE@) {
                    let j = choose|j: int|
                        0 <= j < entry_names(t).len() && entry_names(t)[j] == PLATFORM_ADMIN_ROLE@;
                    assert(t[j].0@ != PLATFORM_ADMIN_ROLE@);
                }
            }
            assert(entry_names(ranks@).no_duplicates());
            let m = entries_map(ranks@);
            assert forall|k: Seq<char>|
                #![trigger m[k]]
                m.contains_key(k) && k != PLATFORM_ADMIN_ROLE@ implies 0 <= m[k]
                < PLATFORM_ADMIN_RANK by {
                assert(entries_map(t).contains_key(k));
                assert(entry_names(t).contains(k));
                let j = choose|j: int| 0 <= j < entry_names(t).len() && entry_names(t)[j] == k;
                lemma_entries_map_index(t, j);
                assert(entry_fault(t[j].0@, t[j].1) is None);
            }
        }
        Ok(RoleRanks { ranks })
    }

    /// Parses ranks from a TOML string; `<inline>` stands for the path in errors.
    pub fn from_toml_str(input: &str) -> (r: Result<Self, RoleRanksError>)
        ensures
            toml_role_table(input@) is None ==> match r {
                Err(RoleRanksError::Parse { path, .. }) => path@ == "<inline>"@,
                _ => false,
            },
            toml_role_table(input@) matches Some(t) ==> strictly_sorted(pair_names(t)) && ranks_from_pairs(
                r,
                t,
            ),
    {
        proof {
            reveal_strlit("<inline>");
        }
        Self::from_toml_str_with_path(input, "<inline>")
    }

    /// Parses ranks from TOML text, naming `path` in a parse error. The
    /// `[roles]` entries are validated in ascending name order: the map is
    /// the table plus `platform_admin`, or the error of the first faulty
    /// entry.
    pub fn from_toml_str_with_path(input: &str, path: &str) -> (r: Result<Self, RoleRanksError>)
        ensures
            toml_role_table(input@) is None ==> match r {
                Err(RoleRanksError::Parse { path: p, .. }) => p@ == path@,
                _ => false,
            },
            toml_role_table(input@) matches Some(t) ==> strictly_sorted(pair_names(t)) && ranks_from_pairs(
                r,
                t,
            ),
    {
        match parse_role_table(input) {
            Err(source) => Err(RoleRanksError::Parse { path: String::from_str(path), source }),
            Ok(table) => {
                let ghost tv = table@;
                proof {
                    lemma_sorted_names_distinct(entry_names(tv));
                }
                let r = Self::from_role_table(table);
                proof {
                    let t = toml_role_table(input@)->Some_0;
                    assert(pair_views(tv) == t);
                    assert(t.len() == tv.len());
                    assert forall|i: int| 0 <= i < t.len() implies #[trigger] t[i] == (tv[i].0@, tv[i].1) by {}
                    assert(pair_names(t) =~= entry_names(tv));
                    lemma_entries_pairs_map(tv);
                    if r is Err {
                        let e = r->Err_0;
                        let i = choose|i: int|
                            0 <= i < tv.len() && (forall|j: int|
                                0 <= j < i ==> entry_fault(tv[j].0@, tv[j].1) is None) && (
                            #[trigger] entry_fault(tv[i].0@, tv[i].1) matches Some(f) && fault_matches(
                                e,
                                f,
                                tv[i].0@,
                                tv[i].1,
                            ));
                        assert(t[i] == (tv[i].0@, tv[i].1));
                        assert forall|j: int| 0 <= j < i implies entry_fault(t[j].0, t[j].1) is None by {
                            assert(t[j] == (tv[j].0@, tv[j].1));
                        }
                    }
                    assert((forall|i: int| 0 <= i < t.len() ==> entry_fault(t[i].0, t[i].1) is None)
                        == (forall|i: int|
                        0 <= i < tv.len() ==> entry_fault(tv[i].0@, tv[i].1) is None)) by {
                        assert forall|i: int| 0 <= i < t.len() implies entry_fault(t[i].0, t[i].1)
                            == entry_fault(tv[i].0@, tv[i].1) by {
                            assert(t[i] == (tv[i].0@, tv[i].1));
                        }
                    }
                }
                r
            },
        }
    }

    /// Returns the rank for `role`, if registered.
    pub fn get(&self, role: &str) -> (r: Option<RoleRank>)
        ensures
            r == (if self@.contains_key(role@) {
                Some(self@[role@])
            } else {
                None
            }),
    {
        proof {
            use_type_invariant(self);
            lemma_entries_map_dom(self.ranks@);
        }
        let mut i: usize = 0;
        while i < self.ranks.len()
            invariant
                i <= self.ranks@.len(),
                entry_names(self.ranks@).no_duplicates(),
                forall|j: int| 0 <= j < i ==> self.ranks@[j].0@ != role@,
            decreases self.ranks@.len() - i,
        {
            if self.ranks[i].0 == String::from_str(role) {
                proof {
                    lemma_entries_map_index(self.ranks@, i as int);
                }
                return Some(self.ranks[i].1);
            }
            i += 1;
        }
        proof {
            if entry_names(self.ranks@).contains(role@) {
                let j = choose|j: int|
                    0 <= j < entry_names(self.ranks@).len() && entry_names(self.ranks@)[j]
                        == role@;
                assert(self.ranks@[j].0@ == role@);
            }
        }
        None
    }

    /// Returns the maximum rank across `roles`, or `0` if none are
    /// registered. Unknown role names contribute `0`.
    pub fn max_rank(&self, roles: &[String]) -> (r: RoleRank)
        ensures
            r == max_rank_of(self@, views(roles@)),
    {
        let mut best: i64 = 0;
        let mut i: usize = 0;
        while i < roles.len()
            invariant
                i <= roles@.len(),
                best == max_rank_of(self@, views(roles@).subrange(0, i as int)),
            decreases roles@.len() - i,
        {
            let rank = match self.get(roles[i].as_str()) {
                Some(r) => r,
                None => 0,
            };
            proof {
                let s = views(roles@).subrange(0, i + 1);
                assert(s.drop_last() =~= views(roles@).subrange(0, i as int));
                assert(s.last() == roles@[i as int]@);
            }
            if rank > best {
                best = rank;
            }
            i += 1;
        }
        assert(views(roles@).subrange(0, roles@.len() as int) =~= views(roles@));
        best
    }

    /// Returns every registered role name (including `platform_admin`), each
    /// once, in ascending order.
    pub fn role_names(&self) -> (names: Vec<String>)
        ensures
            strictly_sorted(views(names@)),
            views(names@).no_duplicates(),
            views(names@).to_set() == self@.dom(),
    {
        proof {
            use_type_invariant(self);
            lemma_entries_map_dom(self.ranks@);
        }
        let mut names: Vec<String> = Vec::new();
        let mut i: usize = 0;
        while i < self.ranks.len()
            invariant
                i <= self.ranks@.len(),
                strictly_sorted(views(names@)),
                forall|k: Seq<char>|
                    views(names@).contains(k) <==> entry_names(self.ranks@).subrange(0, i as int).contains(k),
            decreases self.ranks@.len() - i,
        {
            let ghost before = views(names@);
            proof {
                lemma_sorted_insert_props(before, self.ranks@[i as int].0@);
            }
            names = insert_name(names, self.ranks[i].0.clone());
            proof {
                let x = self.ranks@[i as int].0@;
                assert(views(names@) == sorted_insert(before, x));
                let pre = entry_names(self.ranks@).subrange(0, i + 1);
                let old_pre = entry_names(self.ranks@).subrange(0, i as int);
                assert(pre =~= entry_names(self.ranks@).subrange(0, i as int).push(self.ranks@[i as int].0@));
                assert forall|k: Seq<char>| views(names@).contains(k) <==> pre.contains(k) by {
                    assert(views(names@).contains(k) <==> (before.contains(k) || k == x));
                    assert(before.contains(k) <==> old_pre.contains(k));
                    if k == x {
                        assert(pre[i as int] == k);
                    }
                    if old_pre.contains(k) {
                        let j = choose|j: int| 0 <= j < old_pre.len() && old_pre[j] == k;
                        assert(pre[j] == k);
                    }
                    if pre.contains(k) && k != x {
                        let j = choose|j: int| 0 <= j < pre.len() && pre[j] == k;
                        assert(old_pre[j] == k);
                    }
                }
            }
            i += 1;
        }
        assert(entry_names(self.ranks@).subrange(0, i as int) =~= entry_names(self.ranks@));
        proof {
            let v = views(names@);
            assert forall|a: int, b: int| 0 <= a < v.len() && 0 <= b < v.len() && a != b implies v[a] != v[b] by {
                if a < b {
                    assert(lex_lt(v[a], v[b]));
                    if v[a] == v[b] {
                        lemma_lex_irreflexive(v[a]);
                    }
                } else {
                    assert(lex_lt(v[b], v[a]));
                    if v[a] == v[b] {
                        lemma_lex_irreflexive(v[a]);
                    }
                }
            }
            assert(views(names@).to_set() =~= self@.dom()) by {
                assert forall|k: Seq<char>| views(names@).to_set().contains(k) <==> self@.dom().contains(k) by {
                    assert(entries_map(self.ranks@).contains_key(k) <==> entry_names(self.ranks@).contains(k));
                }
            }
        }
        names
    }

    /// Checks that every role in `referenced` is registered, reporting the
    /// first unregistered one.
    pub fn ensure_all_registered(&self, referenced: &[&str]) -> (r: Result<(), RoleRanksError>)
        ensures
            r is Ok <==> (forall|i: int|
                0 <= i < referenced@.len() ==> self@.contains_key(#[trigger] referenced@[i]@)),
            r matches Err(e) ==> exists|i: int|
                0 <= i < referenced@.len() && !self@.contains_key(#[trigger] referenced@[i]@) && (
                forall|j: int| 0 <= j < i ==> self@.contains_key(referenced@[j]@)) && (
                e matches RoleRanksError::UnregisteredRole { role } && role@ == referenced@[i]@),
    {
        let mut i: usize = 0;
        while i < referenced.len()
            invariant
                i <= referenced@.len(),
                forall|j: int| 0 <= j < i ==> self@.contains_key(#[trigger] referenced@[j]@),
            decreases referenced@.len() - i,
        {
            let role = referenced[i];
            if self.get(role).is_none() {
                return Err(RoleRanksError::UnregisteredRole { role: String::from_str(role) });
            }
            i += 1;
        }
        Ok(())
    }

    /// A copy of the rank map.
    pub fn copy(&self) -> (r: Self)
        ensures
            r@ == self@,
    {
        proof {
            use_type_invariant(self);
        }
        let mut ranks: Vec<(String, i64)> = Vec::new();
        let mut i: usize = 0;
        while i < self.ranks.len()
            invariant
                i <= self.ranks@.len(),
                ranks@ == self.ranks@.subrange(0, i as int),
            decreases self.ranks@.len() - i,
        {
            let name = self.ranks[i].0.clone();
            ranks.push((name, self.ranks[i].1));
            i += 1;
            assert(ranks@ =~= self.ranks@.subrange(0, i as int));
        }
        assert(ranks@ =~= self.ranks@);
        RoleRanks { ranks }
    }

    /// The default map holds only `platform_admin`.
    pub fn default() -> (r: Self)
        ensures
            r@ == Map::<Seq<char>, i64>::empty().insert(PLATFORM_ADMIN_ROLE@, PLATFORM_ADMIN_RANK),
            valid_rank_map(r@),
    {
        Self::empty()
    }
}

/// Law: `max_rank` is the maximum of the resolved ranks. Every listed role's
/// rank (unknown roles counting as `0`) is at most the result, and the result
/// is `0` or the rank of one of the listed roles.
pub proof fn lemma_max_rank_is_maximum(m: Map<Seq<char>, i64>, roles: Seq<Seq<char>>)
    ensures
        forall|i: int|
            0 <= i < roles.len() ==> (if m.contains_key(#[trigger] roles[i]) {
                m[roles[i]]
            } else {
                0
            }) <= max_rank_of(m, roles),
        max_rank_of(m, roles) == 0 || exists|i: int|
            0 <= i < roles.len() && m.contains_key(roles[i]) && max_rank_of(m, roles) == m[roles[i]],
    decreases roles.len(),
{
    if roles.len() > 0 {
        let rest = roles.drop_last();
        lemma_max_rank_is_maximum(m, rest);
        assert forall|i: int|
            0 <= i < roles.len() implies (if m.contains_key(#[trigger] roles[i]) {
            m[roles[i]]
        } else {
            0
        }) <= max_rank_of(m, roles) by {
            if i < roles.len() - 1 {
                assert(rest[i] == roles[i]);
            }
        }
        if max_rank_of(m, roles) != max_rank_of(m, rest) {
            assert(roles[roles.len() - 1] == roles.last());
        } else if max_rank_of(m, rest) != 0 {
            let i = choose|i: int|
                0 <= i < rest.len() && m.contains_key(rest[i]) && max_rank_of(m, rest) == m[rest[i]];
            assert(roles[i] == rest[i]);
        }
    }
}

/// Law: whenever `platform_admin` is among the roles, the resolved rank is
/// [`PLATFORM_ADMIN_RANK`], the top of the hierarchy.
pub proof fn lemma_platform_admin_dominates(ranks: Map<Seq<char>, i64>, roles: Seq<Seq<char>>)
    requires
        valid_rank_map(ranks),
        roles.contains(PLATFORM_ADMIN_ROLE@),
    ensures
        max_rank_of(ranks, roles) == PLATFORM_ADMIN_RANK,
{
    lemma_max_rank_is_maximum(ranks, roles);
    let i = choose|i: int| 0 <= i < roles.len() && roles[i] == PLATFORM_ADMIN_ROLE@;
    assert(roles[i] == PLATFORM_ADMIN_ROLE@);
}

/// Law: no role other than `platform_admin` reaches the platform-admin rank,
/// so a caller without that role always resolves strictly below it.
pub proof fn lemma_non_admin_below_top(ranks: Map<Seq<char>, i64>, roles: Seq<Seq<char>>)
    requires
        valid_rank_map(ranks),
        !roles.contains(PLATFORM_ADMIN_ROLE@),
    ensures
        0 <= max_rank_of(ranks, roles) < PLATFORM_ADMIN_RANK,
    decreases roles.len(),
{
    if roles.len() > 0 {
        let rest = roles.drop_last();
        assert(!rest.contains(PLATFORM_ADMIN_ROLE@)) by {
            if rest.contains(PLATFORM_ADMIN_ROLE@) {
                let i = choose|i: int| 0 <= i < rest.len() && rest[i] == PLATFORM_ADMIN_ROLE@;
                assert(roles[i] == PLATFORM_ADMIN_ROLE@);
            }
        }
        lemma_non_admin_below_top(ranks, rest);
        assert(roles.last() != PLATFORM_ADMIN_ROLE@) by {
            assert(roles[roles.len() - 1] == roles.last());
        }
    }
}

} // verus!
