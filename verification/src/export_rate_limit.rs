//! Per-subject rate limiter for bulk export initiations.
//!
//! The live accounting is a `subject -> RateWindow` table; the admission
//! policy itself is the pure [`RateWindow::try_admit`] transition, and the table
//! only records the returned window when a request is admitted.
use vstd::prelude::*;

use crate::export_config::{admit_spec, RateWindow};

verus! {

/// Key identifying a rate-limit bucket: the authenticated subject, or a
/// single shared `anonymous` bucket for unauthenticated callers.
pub fn rate_limit_key(subject: Option<&str>) -> (r: String)
    ensures
        r@ == (match subject {
            Some(s) => s@,
            None => "anonymous"@,
        }),
{
    match subject {
        Some(s) => String::from_str(s),
        None => String::from_str("anonymous"),
    }
}

/// The per-subject window table of the export rate limiter.
#[derive(Debug)]
pub struct ExportRateLimiter {
    windows: Vec<(String, RateWindow)>,
}

pub open spec fn window_keys(s: Seq<(String, RateWindow)>) -> Seq<Seq<char>> {
    s.map_values(|e: (String, RateWindow)| e.0@)
}

/// The table denoted by a list of entries with distinct keys.
pub open spec fn window_map(s: Seq<(String, RateWindow)>) -> Map<Seq<char>, RateWindow> {
    Map::new(
        |k: Seq<char>| window_keys(s).contains(k),
        |k: Seq<char>| s[window_keys(s).index_of(k)].1,
    )
}

/// The admission decision for `key` against the stored table: an existing
/// window goes through [`RateWindow::try_admit`]; a subject with no window is
/// admitted (opening a window at `now_ms`) exactly when the limit is positive.
pub open spec fn table_admit(
    m: Map<Seq<char>, RateWindow>,
    key: Seq<char>,
    now_ms: u64,
    max_requests: u32,
    window_ms: u64,
) -> (bool, RateWindow) {
    if m.contains_key(key) {
        admit_spec(m[key], now_ms, max_requests, window_ms)
    } else {
        (max_requests > 0, RateWindow::opened_at_spec(now_ms))
    }
}

impl ExportRateLimiter {
    /// The table as a map from subject key to its window.
    pub closed spec fn view(&self) -> Map<Seq<char>, RateWindow> {
        window_map(self.windows@)
    }

    #[verifier::type_invariant]
    closed spec fn inv(self) -> bool {
        window_keys(self.windows@).no_duplicates()
    }

    /// An empty table.
    pub fn new() -> (r: Self)
        ensures
            r@ == Map::<Seq<char>, RateWindow>::empty(),
    {
        let r = ExportRateLimiter { windows: Vec::new() };
        assert(r@ =~= Map::<Seq<char>, RateWindow>::empty());
        r
    }

    /// Position of `key`'s window in the table, if any.
    fn find(&self, key: &String) -> (r: Option<usize>)
        ensures
            match r {
                Some(i) => i < self.windows@.len() && self.windows@[i as int].0@ == key@,
                None => !window_keys(self.windows@).contains(key@),
            },
    {
        let mut i: usize = 0;
        while i < self.windows.len()
            invariant
                i <= self.windows@.len(),
                forall|j: int| 0 <= j < i ==> self.windows@[j].0@ != key@,
            decreases self.windows@.len() - i,
        {
            if self.windows[i].0 == *key {
                return Some(i);
            }
            i += 1;
        }
        proof {
            if window_keys(self.windows@).contains(key@) {
                let j = choose|j: int|
                    0 <= j < window_keys(self.windows@).len() && window_keys(self.windows@)[j] == key@;
                assert(self.windows@[j].0@ == key@);
            }
        }
        None
    }

    /// Apply the admission policy to `key`, storing the returned window only
    /// when the request is admitted. Returns whether it was admitted; every
    /// other subject's window is left untouched.
    pub fn try_admit(&mut self, key: &str, now_ms: u64, max_requests: u32, window_ms: u64) -> (admitted:
        bool)
        ensures
            admitted == table_admit(old(self)@, key@, now_ms, max_requests, window_ms).0,
            admitted ==> final(self)@ == old(self)@.insert(
                key@,
                table_admit(old(self)@, key@, now_ms, max_requests, window_ms).1,
            ),
            !admitted ==> final(self)@ == old(self)@,
    {
        proof {
            use_type_invariant(&*self);
        }
        let key_string = String::from_str(key);
        let ghost old_windows = self.windows@;
        let ghost keys = window_keys(old_windows);
        match self.find(&key_string) {
            Some(i) => {
                proof {
                    assert(keys[i as int] == key@);
                    lemma_index_of_distinct(keys, i as int);
                    assert(self@.contains_key(key@));
                }
                let (admitted, next) = self.windows[i].1.try_admit(now_ms, max_requests, window_ms);
                if admitted {
                    let k = self.windows[i].0.clone();
                    let mut ws: Vec<(String, RateWindow)> = Vec::new();
                    std::mem::swap(&mut ws, &mut self.windows);
                    ws.set(i, (k, next));
                    proof {
                        lemma_window_map_set(old_windows, i as int, next);
                        assert(ws@ == old_windows.update(i as int, (old_windows[i as int].0, next)));
                        assert(window_keys(ws@) =~= keys);
                    }
                    self.windows = ws;
                }
                admitted
            },
            None => {
                if max_requests > 0 {
                    let mut ws: Vec<(String, RateWindow)> = Vec::new();
                    std::mem::swap(&mut ws, &mut self.windows);
                    ws.push((key_string, RateWindow::opened_at(now_ms)));
                    proof {
                        lemma_window_map_push(old_windows, key_string, RateWindow::opened_at_spec(now_ms));
                        assert(window_keys(ws@) =~= keys.push(key@));
                    }
                    self.windows = ws;
                    true
                } else {
                    false
                }
            },
        }
    }
}

proof fn lemma_index_of_distinct(keys: Seq<Seq<char>>, j: int)
    requires
        keys.no_duplicates(),
        0 <= j < keys.len(),
    ensures
        keys.index_of(keys[j]) == j,
{
    assert(keys.contains(keys[j]));
}

proof fn lemma_window_map_set(s: Seq<(String, RateWindow)>, i: int, w: RateWindow)
    requires
        window_keys(s).no_duplicates(),
        0 <= i < s.len(),
    ensures
        window_map(s.update(i, (s[i].0, w))) == window_map(s).insert(s[i].0@, w),
{
    let t = s.update(i, (s[i].0, w));
    let keys = window_keys(s);
    assert(window_keys(t) =~= keys);
    assert forall|k: Seq<char>| #[trigger] keys.contains(k) implies window_map(t)[k]
        == window_map(s).insert(s[i].0@, w)[k] by {
        let j = choose|j: int| 0 <= j < keys.len() && keys[j] == k;
        lemma_index_of_distinct(keys, j);
        assert(keys[i] == s[i].0@);
    }
    assert(keys.contains(s[i].0@)) by {
        assert(keys[i] == s[i].0@);
    }
    assert(window_map(t) =~= window_map(s).insert(s[i].0@, w));
}

proof fn lemma_window_map_push(s: Seq<(String, RateWindow)>, k: String, w: RateWindow)
    requires
        window_keys(s).no_duplicates(),
        !window_keys(s).contains(k@),
    ensures
        window_map(s.push((k, w))) == window_map(s).insert(k@, w),
        window_keys(s.push((k, w))).no_duplicates(),
{
    let t = s.push((k, w));
    let keys = window_keys(s);
    let nk = window_keys(t);
    assert(nk =~= keys.push(k@));
    assert(nk.no_duplicates()) by {
        assert forall|a: int, b: int| 0 <= a < nk.len() && 0 <= b < nk.len() && a != b implies nk[a] != nk[b] by {
            if a < keys.len() && b < keys.len() {
                assert(nk[a] == keys[a] && nk[b] == keys[b]);
            } else if a < keys.len() {
                assert(nk[a] == keys[a]);
            } else if b < keys.len() {
                assert(nk[b] == keys[b]);
            }
        }
    }
    assert forall|k2: Seq<char>| #[trigger] nk.contains(k2) implies window_map(t)[k2]
        == window_map(s).insert(k@, w)[k2] by {
        let j = choose|j: int| 0 <= j < nk.len() && nk[j] == k2;
        lemma_index_of_distinct(nk, j);
        if j < keys.len() {
            assert(keys[j] == k2);
            lemma_index_of_distinct(keys, j);
        }
    }
    assert forall|k2: Seq<char>| nk.contains(k2) <==> (keys.contains(k2) || k2 == k@) by {
        if nk.contains(k2) {
            let j = choose|j: int| 0 <= j < nk.len() && nk[j] == k2;
            if j < keys.len() {
                assert(keys[j] == k2);
            }
        }
        if keys.contains(k2) {
            let j = choose|j: int| 0 <= j < keys.len() && keys[j] == k2;
            assert(nk[j] == k2);
        }
        if k2 == k@ {
            assert(nk[keys.len() as int] == k2);
        }
    }
    assert(window_map(t) =~= window_map(s).insert(k@, w));
}

impl Default for ExportRateLimiter {
    fn default() -> (r: Self)
        ensures
            r@ == Map::<Seq<char>, RateWindow>::empty(),
    {
        ExportRateLimiter::new()
    }
}

} // verus!
