//! Operator-tunable export hardening knobs and their pure decision cores.
//!
//! Two server-side bounds sit on top of the fail-closed export path: a
//! configurable row cap (a schema's `@export(max_rows)` can only narrow the
//! server-wide ceiling) and a per-subject fixed-window rate limit.
use vstd::prelude::*;

verus! {

/// Default server-wide export row ceiling when `[schema_forge.export]` is absent.
pub const DEFAULT_MAX_ROWS: u64 = 100_000;

/// Default number of export initiations permitted per subject per window.
pub const DEFAULT_RATE_LIMIT_MAX_REQUESTS: u32 = 30;

/// Default length of the rate-limit window, in seconds.
pub const DEFAULT_RATE_LIMIT_WINDOW_SECS: u64 = 60;

/// `[schema_forge.export]` section of config.toml.
#[derive(Debug, Clone)]
pub struct ExportSettings {
    /// Server-wide row ceiling applied to every export.
    pub default_max_rows: u64,
    /// Per-subject/tenant bulk-export rate limit.
    pub rate_limit: ExportRateLimitSettings,
}

/// `[schema_forge.export.rate_limit]` section of config.toml.
#[derive(Debug, Clone)]
pub struct ExportRateLimitSettings {
    /// Maximum export initiations admitted per subject within one window.
    pub max_requests: u32,
    /// Length of the fixed window, in seconds.
    pub window_secs: u64,
}

/// Default for an absent `default_max_rows` key.
pub fn default_max_rows() -> (r: u64)
    ensures
        r == DEFAULT_MAX_ROWS,
{
    DEFAULT_MAX_ROWS
}

/// Default for an absent `max_requests` key.
pub fn default_rate_limit_max_requests() -> (r: u32)
    ensures
        r == DEFAULT_RATE_LIMIT_MAX_REQUESTS,
{
    DEFAULT_RATE_LIMIT_MAX_REQUESTS
}

/// Default for an absent `window_secs` key.
pub fn default_rate_limit_window_secs() -> (r: u64)
    ensures
        r == DEFAULT_RATE_LIMIT_WINDOW_SECS,
{
    DEFAULT_RATE_LIMIT_WINDOW_SECS
}

impl Default for ExportRateLimitSettings {
    fn default() -> (r: Self)
        ensures
            r.max_requests == DEFAULT_RATE_LIMIT_MAX_REQUESTS,
            r.window_secs == DEFAULT_RATE_LIMIT_WINDOW_SECS,
    {
        ExportRateLimitSettings {
            max_requests: DEFAULT_RATE_LIMIT_MAX_REQUESTS,
            window_secs: DEFAULT_RATE_LIMIT_WINDOW_SECS,
        }
    }
}

impl Default for ExportSettings {
    fn default() -> (r: Self)
        ensures
            r.default_max_rows == DEFAULT_MAX_ROWS,
            r.rate_limit.max_requests == DEFAULT_RATE_LIMIT_MAX_REQUESTS,
            r.rate_limit.window_secs == DEFAULT_RATE_LIMIT_WINDOW_SECS,
    {
        ExportSettings { default_max_rows: DEFAULT_MAX_ROWS, rate_limit: ExportRateLimitSettings::default() }
    }
}

/// Resolve the effective row cap for one export: the minimum of the schema's
/// declared cap and the server-wide ceiling, so a schema can narrow the
/// ceiling but never widen it.
pub fn resolve_max_rows(entity_max_rows: u64, server_default: u64) -> (r: u64)
    ensures
        r <= entity_max_rows,
        r <= server_default,
        r == entity_max_rows || r == server_default,
{
    if entity_max_rows <= server_default {
        entity_max_rows
    } else {
        server_default
    }
}

/// A single subject's fixed-window rate-limit accounting: the current
/// window's start (monotonic milliseconds) and the admissions counted in it.
#[derive(Debug, Clone, Copy, PartialEq, Eq, Structural)]
pub struct RateWindow {
    window_start_ms: u64,
    count: u32,
}

/// Milliseconds from `start` to `now_ms`, or `0` when `now_ms` is earlier.
pub open spec fn elapsed_ms(start: u64, now_ms: u64) -> int {
    if now_ms >= start {
        now_ms - start
    } else {
        0
    }
}

/// The outcome of one admission decision.
pub open spec fn admit_spec(w: RateWindow, now_ms: u64, max_requests: u32, window_ms: u64) -> (
    bool,
    RateWindow,
) {
    if max_requests == 0 {
        (false, w)
    } else if elapsed_ms(w.start(), now_ms) >= window_ms {
        (true, RateWindow::opened_at_spec(now_ms))
    } else if w.admitted() < max_requests {
        (true, w.bumped())
    } else {
        (false, w)
    }
}

impl RateWindow {
    /// The window [`RateWindow::opened_at`] returns.
    pub closed spec fn opened_at_spec(now_ms: u64) -> RateWindow {
        RateWindow { window_start_ms: now_ms, count: 1 }
    }

    /// Start of the current window, in milliseconds.
    pub closed spec fn start(self) -> u64 {
        self.window_start_ms
    }

    /// Admissions counted in the current window.
    pub closed spec fn admitted(self) -> u32 {
        self.count
    }

    /// The same window with one more admission counted.
    pub closed spec fn bumped(self) -> RateWindow {
        RateWindow { window_start_ms: self.window_start_ms, count: (self.count + 1) as u32 }
    }

    /// A window is its start and its count.
    pub broadcast proof fn lemma_window_parts(a: RateWindow, b: RateWindow)
        ensures
            #![trigger a.start(), b.start()]
            (a.start() == b.start() && a.admitted() == b.admitted()) <==> a == b,
    {
    }

    /// What a freshly opened window holds.
    pub broadcast proof fn lemma_opened_at(now_ms: u64)
        ensures
            #[trigger] RateWindow::opened_at_spec(now_ms).start() == now_ms,
            RateWindow::opened_at_spec(now_ms).admitted() == 1,
    {
    }

    /// What a bumped window holds.
    pub broadcast proof fn lemma_bumped(w: RateWindow)
        ensures
            #[trigger] w.bumped().start() == w.start(),
            w.admitted() < u32::MAX ==> w.bumped().admitted() == w.admitted() + 1,
    {
    }

    /// Open a fresh window at `now_ms` with one admission already counted.
    pub fn opened_at(now_ms: u64) -> (w: Self)
        ensures
            w == Self::opened_at_spec(now_ms),
            w.start() == now_ms,
            w.admitted() == 1,
    {
        RateWindow { window_start_ms: now_ms, count: 1 }
    }

    /// Decide whether a request at `now_ms` is admitted under a limit of
    /// `max_requests` per `window_ms`, returning the updated window.
    ///
    /// A `max_requests` of `0` admits nobody; at or past the window's end a
    /// new window opens and the request is admitted; otherwise the request is
    /// admitted only while the count is below the limit.
    pub fn try_admit(self, now_ms: u64, max_requests: u32, window_ms: u64) -> (r: (bool, RateWindow))
        ensures
            r == admit_spec(self, now_ms, max_requests, window_ms),
    {
        if max_requests == 0 {
            return (false, self);
        }
        let elapsed = now_ms.saturating_sub(self.window_start_ms);
        if elapsed >= window_ms {
            return (true, RateWindow::opened_at(now_ms));
        }
        if self.count < max_requests {
            return (true, RateWindow { window_start_ms: self.window_start_ms, count: self.count + 1 });
        }
        (false, self)
    }
}

/// Number of requests admitted, and the final window, when the request times
/// `times` are presented in order to `w`.
pub open spec fn admit_run(w: RateWindow, times: Seq<u64>, max_requests: u32, window_ms: u64) -> (
    nat,
    RateWindow,
)
    decreases times.len(),
{
    if times.len() == 0 {
        (0, w)
    } else {
        let (n, last) = admit_run(w, times.drop_last(), max_requests, window_ms);
        let (ok, next) = admit_spec(last, times.last(), max_requests, window_ms);
        (if ok {
            n + 1
        } else {
            n
        }, next)
    }
}

pub broadcast group group_rate_window {
    RateWindow::lemma_window_parts,
    RateWindow::lemma_opened_at,
    RateWindow::lemma_bumped,
}

/// Law: a refused request leaves the window exactly as it was, and a zero
/// limit refuses every request.
pub proof fn lemma_refusal_keeps_window(w: RateWindow, now_ms: u64, max_requests: u32, window_ms: u64)
    ensures
        !admit_spec(w, now_ms, max_requests, window_ms).0 ==> admit_spec(
            w,
            now_ms,
            max_requests,
            window_ms,
        ).1 == w,
        max_requests == 0 ==> !admit_spec(w, now_ms, max_requests, window_ms).0,
{
}

/// Law: within one window the limit holds. When every request time lies
/// inside the current window `[start, start + window_ms)`, the requests that
/// are admitted, together with those already counted, never exceed
/// `max_requests`.
pub proof fn lemma_window_bounds_admissions(
    w: RateWindow,
    times: Seq<u64>,
    max_requests: u32,
    window_ms: u64,
)
    requires
        w.admitted() <= max_requests,
        forall|i: int|
            0 <= i < times.len() ==> w.start() <= #[trigger] times[i] && times[i] - w.start()
                < window_ms,
    ensures
        admit_run(w, times, max_requests, window_ms).1.start() == w.start(),
        admit_run(w, times, max_requests, window_ms).1.admitted() == w.admitted() + admit_run(
            w,
            times,
            max_requests,
            window_ms,
        ).0,
        w.admitted() + admit_run(w, times, max_requests, window_ms).0 <= max_requests,
    decreases times.len(),
{
    broadcast use group_rate_window;
    if times.len() > 0 {
        let rest = times.drop_last();
        assert forall|i: int|
            0 <= i < rest.len() implies w.start() <= #[trigger] rest[i] && rest[i] - w.start()
            < window_ms by {
            assert(rest[i] == times[i]);
        }
        lemma_window_bounds_admissions(w, rest, max_requests, window_ms);
        assert(times.last() == times[times.len() - 1]);
    }
}

} // verus!
