//! API authentication providers.
use vstd::prelude::*;

use crate::authz::principal_claims::JsonValue;
use crate::text::str_to_string;

verus! {

/// One hop of a principal's tenant chain, outermost first.
#[derive(Debug, Clone)]
pub struct TenantRef {
    pub schema: String,
    pub entity_id: String,
}

/// What the library reads of a request's verified token claims: the
/// subject, the roles, the custom claims, and the `tenant_chain` custom
/// claim as decoded (empty when absent or malformed).
#[derive(Debug)]
pub struct Claims {
    pub sub: String,
    pub roles: Vec<String>,
    pub custom: Vec<(String, JsonValue)>,
    pub tenant_chain: Vec<TenantRef>,
}

/// An auth provider that always grants a fixed set of roles, with an empty
/// tenant chain and no attributes. Useful for testing and for deployments
/// that do not need API authentication.
pub struct NoopAuthProvider {
    roles: Vec<String>,
}

impl NoopAuthProvider {
    /// The roles every request is granted.
    pub closed spec fn granted(self) -> Seq<Seq<char>> {
        self.roles@.map_values(|r: String| r@)
    }

    /// A provider that grants the given roles.
    pub fn new(roles: Vec<String>) -> (p: Self)
        ensures
            p.granted() == roles@.map_values(|r: String| r@),
    {
        NoopAuthProvider { roles }
    }

    /// A provider that grants the `admin` role.
    pub fn admin() -> (p: Self)
        ensures
            p.granted() == seq!["admin"@],
    {
        let mut roles: Vec<String> = Vec::new();
        roles.push(str_to_string("admin"));
        let p = NoopAuthProvider::new(roles);
        assert(p.granted() =~= seq!["admin"@]);
        p
    }

    /// The roles an authenticated request is given, in order.
    pub fn roles(&self) -> (r: Vec<String>)
        ensures
            r@.map_values(|s: String| s@) == self.granted(),
    {
        let mut r: Vec<String> = Vec::new();
        let mut i: usize = 0;
        while i < self.roles.len()
            invariant
                i <= self.roles@.len(),
                r@ == self.roles@.subrange(0, i as int),
            decreases self.roles@.len() - i,
        {
            r.push(self.roles[i].clone());
            i += 1;
            assert(r@ =~= self.roles@.subrange(0, i as int));
        }
        assert(r@ =~= self.roles@);
        r
    }
}

} // verus!
