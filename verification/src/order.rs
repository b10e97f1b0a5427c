//! The order of `String` keys (lexicographic by character, which is the
//! order of their UTF-8 bytes), with the facts that make it a strict total
//! order.
use vstd::prelude::*;

verus! {

/// `a` sorts strictly before `b`.
pub open spec fn lex_lt(a: Seq<char>, b: Seq<char>) -> bool
    decreases a.len(),
{
    if b.len() == 0 {
        false
    } else if a.len() == 0 {
        true
    } else if a[0] != b[0] {
        a[0] < b[0]
    } else {
        lex_lt(a.drop_first(), b.drop_first())
    }
}

/// No key sorts before itself.
pub proof fn lemma_lex_irreflexive(a: Seq<char>)
    ensures
        !lex_lt(a, a),
    decreases a.len(),
{
    if a.len() > 0 {
        lemma_lex_irreflexive(a.drop_first());
    }
}

/// Of two keys, at most one sorts before the other.
pub proof fn lemma_lex_asymmetric(a: Seq<char>, b: Seq<char>)
    ensures
        !(lex_lt(a, b) && lex_lt(b, a)),
    decreases a.len(),
{
    if a.len() > 0 && b.len() > 0 && a[0] == b[0] {
        lemma_lex_asymmetric(a.drop_first(), b.drop_first());
    }
}

/// Sorting before is transitive.
pub proof fn lemma_lex_transitive(a: Seq<char>, b: Seq<char>, c: Seq<char>)
    requires
        lex_lt(a, b),
        lex_lt(b, c),
    ensures
        lex_lt(a, c),
    decreases a.len(),
{
    if a.len() > 0 && b.len() > 0 && c.len() > 0 && a[0] == b[0] && b[0] == c[0] {
        lemma_lex_transitive(a.drop_first(), b.drop_first(), c.drop_first());
    }
}

/// Of two different keys, one sorts before the other.
pub proof fn lemma_lex_total(a: Seq<char>, b: Seq<char>)
    requires
        a != b,
    ensures
        lex_lt(a, b) || lex_lt(b, a),
    decreases a.len(),
{
    if a.len() > 0 && b.len() > 0 && a[0] == b[0] {
        if a.drop_first() == b.drop_first() {
            assert(a =~= seq![a[0]] + a.drop_first());
            assert(b =~= seq![b[0]] + b.drop_first());
        }
        lemma_lex_total(a.drop_first(), b.drop_first());
    } else if a.len() == 0 && b.len() == 0 {
        assert(a =~= b);
    }
}

/// Whether `a` sorts strictly before `b`.
pub fn str_lt(a: &str, b: &str) -> (r: bool)
    ensures
        r == lex_lt(a@, b@),
{
    let av = crate::text::chars_of(a);
    let bv = crate::text::chars_of(b);
    let mut i: usize = 0;
    assert(a@.skip(0) =~= a@);
    assert(b@.skip(0) =~= b@);
    while i < av.len() && i < bv.len() && av[i] == bv[i]
        invariant
            i <= av@.len(),
            i <= bv@.len(),
            av@ == a@,
            bv@ == b@,
            lex_lt(a@, b@) == lex_lt(a@.skip(i as int), b@.skip(i as int)),
        decreases av@.len() - i,
    {
        let ghost sa = a@.skip(i as int);
        let ghost sb = b@.skip(i as int);
        assert(sa.drop_first() =~= a@.skip(i + 1));
        assert(sb.drop_first() =~= b@.skip(i + 1));
        i += 1;
    }
    let ghost sa = a@.skip(i as int);
    let ghost sb = b@.skip(i as int);
    if i == bv.len() {
        assert(sb.len() == 0);
        false
    } else if i == av.len() {
        assert(sa.len() == 0);
        true
    } else {
        assert(sa[0] == av@[i as int] && sb[0] == bv@[i as int]);
        av[i] < bv[i]
    }
}


// ---------------------------------------------------------------------------
// Sorted sequences of names
// ---------------------------------------------------------------------------

/// `x` inserted into the strictly ascending `s`, unless it is there.
pub open spec fn sorted_insert(s: Seq<Seq<char>>, x: Seq<char>) -> Seq<Seq<char>>
    decreases s.len(),
{
    if s.len() == 0 {
        seq![x]
    } else if s[0] == x {
        s
    } else if lex_lt(x, s[0]) {
        seq![x] + s
    } else {
        seq![s[0]] + sorted_insert(s.drop_first(), x)
    }
}

/// Strictly ascending.
pub open spec fn strictly_sorted(s: Seq<Seq<char>>) -> bool {
    forall|a: int, b: int| 0 <= a < b < s.len() ==> lex_lt(s[a], s[b])
}

proof fn lemma_sorted_insert_at(s: Seq<Seq<char>>, x: Seq<char>, i: int)
    requires
        strictly_sorted(s),
        0 <= i <= s.len(),
        forall|k: int| 0 <= k < i ==> lex_lt(s[k], x),
        i == s.len() || !lex_lt(s[i], x),
    ensures
        sorted_insert(s, x) == (if i < s.len() && s[i] == x {
            s
        } else {
            s.insert(i, x)
        }),
    decreases s.len(),
{
    if s.len() == 0 {
        assert(s.insert(0, x) =~= seq![x]);
    } else if i == 0 {
        if s[0] != x {
            lemma_lex_total(s[0], x);
            assert(s.insert(0, x) =~= seq![x] + s);
        }
    } else {
        lemma_lex_irreflexive(x);
        assert(s[0] != x);
        lemma_lex_asymmetric(s[0], x);
        let t = s.drop_first();
        assert forall|a: int, b: int| 0 <= a < b < t.len() implies lex_lt(t[a], t[b]) by {
            assert(t[a] == s[a + 1] && t[b] == s[b + 1]);
        }
        assert forall|k: int| 0 <= k < i - 1 implies lex_lt(t[k], x) by {
            assert(t[k] == s[k + 1]);
        }
        lemma_sorted_insert_at(t, x, i - 1);
        if i < s.len() && s[i] == x {
            assert(seq![s[0]] + t =~= s);
        } else {
            assert(seq![s[0]] + t.insert(i - 1, x) =~= s.insert(i, x));
        }
    }
}

/// Inserting keeps a sequence strictly ascending, and adds exactly `x`.
pub proof fn lemma_sorted_insert_props(s: Seq<Seq<char>>, x: Seq<char>)
    requires
        strictly_sorted(s),
    ensures
        strictly_sorted(sorted_insert(s, x)),
        forall|y: Seq<char>| sorted_insert(s, x).contains(y) <==> (s.contains(y) || y == x),
    decreases s.len(),
{
    let r = sorted_insert(s, x);
    if s.len() == 0 {
        assert(r =~= seq![x]);
        assert forall|y: Seq<char>| r.contains(y) <==> (s.contains(y) || y == x) by {
            if r.contains(y) {
                assert(r[0] == y);
            }
            if y == x {
                assert(r[0] == x);
            }
        }
    } else if s[0] == x {
        assert forall|y: Seq<char>| r.contains(y) <==> (s.contains(y) || y == x) by {
            if y == x {
                assert(s[0] == x);
            }
        }
    } else if lex_lt(x, s[0]) {
        assert(r == seq![x] + s);
        assert forall|a: int, b: int| 0 <= a < b < r.len() implies lex_lt(r[a], r[b]) by {
            if a == 0 {
                assert(r[b] == s[b - 1]);
                if b - 1 > 0 {
                    lemma_lex_transitive(x, s[0], s[b - 1]);
                }
            } else {
                assert(r[a] == s[a - 1] && r[b] == s[b - 1]);
            }
        }
        assert forall|y: Seq<char>| r.contains(y) <==> (s.contains(y) || y == x) by {
            if r.contains(y) {
                let k = choose|k: int| 0 <= k < r.len() && r[k] == y;
                if k > 0 {
                    assert(s[k - 1] == y);
                }
            }
            if s.contains(y) {
                let k = choose|k: int| 0 <= k < s.len() && s[k] == y;
                assert(r[k + 1] == y);
            }
            if y == x {
                assert(r[0] == x);
            }
        }
    } else {
        lemma_lex_total(s[0], x);
        let t = s.drop_first();
        assert forall|a: int, b: int| 0 <= a < b < t.len() implies lex_lt(t[a], t[b]) by {
            assert(t[a] == s[a + 1] && t[b] == s[b + 1]);
        }
        lemma_sorted_insert_props(t, x);
        let rt = sorted_insert(t, x);
        assert(forall|y: Seq<char>| rt.contains(y) <==> (t.contains(y) || y == x));
        assert(r == seq![s[0]] + rt);
        assert forall|a: int, b: int| 0 <= a < b < r.len() implies lex_lt(r[a], r[b]) by {
            if a == 0 {
                assert(r[b] == rt[b - 1]);
                assert(rt.contains(rt[b - 1]));
                if rt[b - 1] == x {
                } else {
                    assert(t.contains(rt[b - 1]));
                    let k = choose|k: int| 0 <= k < t.len() && t[k] == rt[b - 1];
                    assert(s[k + 1] == t[k]);
                }
            } else {
                assert(r[a] == rt[a - 1] && r[b] == rt[b - 1]);
            }
        }
        assert forall|y: Seq<char>| r.contains(y) <==> (s.contains(y) || y == x) by {
            if r.contains(y) {
                let k = choose|k: int| 0 <= k < r.len() && r[k] == y;
                if k == 0 {
                    assert(s[0] == y);
                } else {
                    assert(rt[k - 1] == y);
                    assert(rt.contains(y));
                    if t.contains(y) {
                        let j = choose|j: int| 0 <= j < t.len() && t[j] == y;
                        assert(s[j + 1] == y);
                    }
                }
            }
            if s.contains(y) {
                let k = choose|k: int| 0 <= k < s.len() && s[k] == y;
                if k == 0 {
                    assert(r[0] == y);
                } else {
                    assert(t[k - 1] == y);
                    assert(t.contains(y));
                    assert(rt.contains(y));
                    let j = choose|j: int| 0 <= j < rt.len() && rt[j] == y;
                    assert(r[j + 1] == y);
                }
            }
            if y == x {
                assert(sorted_insert(t, x).contains(x) <==> (t.contains(x) || x == x));
                assert(rt.contains(x));
                let j = choose|j: int| 0 <= j < rt.len() && rt[j] == x;
                assert(r[j + 1] == x);
            }
        }
    }
}

/// Inserts `x` into the strictly ascending `s`, unless it is there.
pub fn insert_name(s: Vec<String>, x: String) -> (r: Vec<String>)
    requires
        strictly_sorted(s@.map_values(|n: String| n@)),
    ensures
        r@.map_values(|n: String| n@) == sorted_insert(s@.map_values(|n: String| n@), x@),
{
    let ghost sv = s@.map_values(|n: String| n@);
    let mut i: usize = 0;
    while i < s.len() && str_lt(s[i].as_str(), x.as_str())
        invariant
            i <= s@.len(),
            sv == s@.map_values(|n: String| n@),
            forall|k: int| 0 <= k < i ==> lex_lt(sv[k], x@),
        decreases s@.len() - i,
    {
        i += 1;
    }
    proof {
        lemma_sorted_insert_at(sv, x@, i as int);
    }
    if i < s.len() && s[i] == x {
        s
    } else {
        let mut r = s;
        r.insert(i, x);
        assert(r@.map_values(|n: String| n@) =~= sv.insert(i as int, x@));
        r
    }
}

} // verus!
