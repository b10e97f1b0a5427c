//! Identity values that a read scope may match on.
use vstd::prelude::*;

use crate::text::{chars_of, is_ascii_alnum};

verus! {

/// A character allowed in a canonical identity.
pub open spec fn identity_char(c: char) -> bool {
    is_ascii_alnum(c) || c == '_' || c == ':' || c == '-'
}

/// Whether `value` is a canonical identity: non-empty, and only ASCII
/// letters, digits, `_`, `:` and `-`.
pub fn canonical_identity(value: &str) -> (b: bool)
    ensures
        b == (value@.len() > 0 && forall|i: int| 0 <= i < value@.len() ==> identity_char(#[trigger] value@[i])),
{
    let v = chars_of(value);
    if v.len() == 0 {
        return false;
    }
    let mut i: usize = 0;
    while i < v.len()
        invariant
            i <= v@.len(),
            v@ == value@,
            forall|k: int| 0 <= k < i ==> identity_char(#[trigger] v@[k]),
        decreases v@.len() - i,
    {
        let c = v[i];
        if !(('A' <= c && c <= 'Z') || ('a' <= c && c <= 'z') || ('0' <= c && c <= '9') || c == '_'
            || c == ':' || c == '-') {
            assert(!identity_char(v@[i as int]));
            return false;
        }
        i += 1;
    }
    true
}

} // verus!
