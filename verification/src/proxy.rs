//! Routing decisions of the proxy in front of per-session services: target
//! addresses, the memory service's location, how failures map to status
//! codes, when to retry a connection, and which browser origins may call
//! the API.

use vstd::prelude::*;
use crate::agent_service::Session;
use crate::text::{strings_view, chars_of, decimal, decimal_string, lit, signed_decimal, signed_decimal_string};

verus! {

broadcast use vstd::string::group_string_axioms;

// ---------------------------------------------------------------------------
// Target addresses
// ---------------------------------------------------------------------------

/// `?query` when the query is not empty, else nothing.
pub open spec fn query_suffix(query: Seq<char>) -> Seq<char> {
    if query.len() == 0 {
        Seq::empty()
    } else {
        "?"@ + query
    }
}

/// The address a request for `path` (with `query`) is forwarded to on a
/// local service port.
pub open spec fn port_target(port: u16, path: Seq<char>, query: Seq<char>) -> Seq<char> {
    "http://localhost:"@ + decimal(port as nat) + "/"@ + path + query_suffix(query)
}

/// The forwarding address for `path` and `query` on local port `port`.
pub fn port_target_uri(port: u16, path: &str, query: &str) -> (r: String)
    ensures
        r@ == port_target(port, path@, query@),
{
    let mut r = lit("http://localhost:");
    let d = decimal_string(port as u64);
    r.append(d.as_str());
    r.append("/");
    r.append(path);
    if query.unicode_len() > 0 {
        r.append("?");
        r.append(query);
    }
    r
}

/// `s` without its trailing slashes.
pub open spec fn without_trailing_slashes(s: Seq<char>) -> Seq<char>
    decreases s.len(),
{
    if s.len() > 0 && s.last() == '/' {
        without_trailing_slashes(s.drop_last())
    } else {
        s
    }
}

/// The address a request for `path` (with `query`) is forwarded to below a
/// base URL.
pub open spec fn url_target(base: Seq<char>, path: Seq<char>, query: Seq<char>) -> Seq<char> {
    without_trailing_slashes(base) + "/"@ + path + query_suffix(query)
}

/// `s` without its trailing slashes.
pub fn trim_trailing_slashes(s: &str) -> (r: String)
    ensures
        r@ == without_trailing_slashes(s@),
{
    let v = chars_of(s);
    let mut n: usize = v.len();
    assert(v@.subrange(0, n as int) =~= v@);
    while n > 0 && v[n - 1] == '/'
        invariant
            n <= v@.len(),
            without_trailing_slashes(v@) == without_trailing_slashes(v@.subrange(0, n as int)),
        decreases n,
    {
        assert(v@.subrange(0, n as int).drop_last() =~= v@.subrange(0, n - 1));
        n = n - 1;
    }
    let mut r = String::new();
    let mut i: usize = 0;
    while i < n
        invariant
            i <= n <= v@.len(),
            r@ == v@.subrange(0, i as int),
        decreases n - i,
    {
        crate::text::push_char(&mut r, v[i]);
        i = i + 1;
        assert(r@ =~= v@.subrange(0, i as int));
    }
    r
}

/// The forwarding address for `path` and `query` below `base`.
pub fn url_target_uri(base: &str, path: &str, query: &str) -> (r: String)
    ensures
        r@ == url_target(base@, path@, query@),
{
    let mut r = trim_trailing_slashes(base);
    r.append("/");
    r.append(path);
    if query.unicode_len() > 0 {
        r.append("?");
        r.append(query);
    }
    r
}

/// The status a failed forward is answered with: 503 for a connection
/// that could not be made while the service may still be starting, 502
/// otherwise.
pub fn forward_failure_status(is_connect_error: bool, connect_errors_as_unavailable: bool) -> (r: u16)
    ensures
        r == (if is_connect_error && connect_errors_as_unavailable {
            503u16
        } else {
            502u16
        }),
{
    if is_connect_error && connect_errors_as_unavailable {
        503
    } else {
        502
    }
}

// ---------------------------------------------------------------------------
// Memory service
// ---------------------------------------------------------------------------

/// Mmry (memory service) configuration for the API layer.
#[derive(Debug, Clone)]
pub struct MmryState {
    /// Whether mmry integration is enabled.
    pub enabled: bool,
    /// Whether we're in single-user mode (proxy to the local service).
    pub single_user: bool,
    /// URL of the local mmry service (for single-user mode).
    pub local_service_url: String,
}

impl Default for MmryState {
    fn default() -> (r: Self)
        ensures
            !r.enabled,
            r.single_user,
            r.local_service_url@ == "http://localhost:8081"@,
    {
        MmryState { enabled: false, single_user: true, local_service_url: lit("http://localhost:8081") }
    }
}

/// Where a session's memory requests go: nowhere (404) when the
/// integration is off; the local service in single-user mode; otherwise the
/// session's own memory port, 404 when it has none.
pub open spec fn mmry_target_of(m: MmryState, s: Session) -> Result<Seq<char>, u16> {
    if !m.enabled {
        Err(404)
    } else if m.single_user {
        Ok(m.local_service_url@)
    } else {
        match s.mmry_port {
            Some(p) => Ok("http://localhost:"@ + signed_decimal(p as int)),
            None => Err(404),
        }
    }
}

/// The memory service address for a session (see `mmry_target_of`).
pub fn mmry_target(mmry: &MmryState, session: &Session) -> (r: Result<String, u16>)
    ensures
        match mmry_target_of(*mmry, *session) {
            Ok(u) => r matches Ok(x) && x@ == u,
            Err(c) => r == Err::<String, u16>(c),
        },
{
    if !mmry.enabled {
        return Err(404);
    }
    if mmry.single_user {
        Ok(mmry.local_service_url.clone())
    } else {
        match session.mmry_port {
            Some(p) => {
                let mut u = lit("http://localhost:");
                let d = signed_decimal_string(p);
                u.append(d.as_str());
                Ok(u)
            },
            None => Err(404),
        }
    }
}

/// The memory service path of one memory.
pub fn mmry_memory_path(memory_id: &str) -> (r: String)
    ensures
        r@ == "v1/memories/"@ + memory_id@,
{
    let mut r = lit("v1/memories/");
    r.append(memory_id);
    r
}

// ---------------------------------------------------------------------------
// Connection retries
// ---------------------------------------------------------------------------

/// How long to keep retrying a connection to a service that may still be
/// starting.
#[derive(Debug, Clone, Copy)]
pub struct RetryPolicy {
    /// Give up once this much time has passed since the first attempt.
    pub timeout_ms: u64,
    /// Retry only failures to connect; any other failure ends at once.
    pub connect_errors_only: bool,
}

/// The policy for reaching a session's terminal: a minute, any failure.
pub fn terminal_retry_policy() -> (r: RetryPolicy)
    ensures
        r.timeout_ms == 60000,
        !r.connect_errors_only,
{
    RetryPolicy { timeout_ms: 60000, connect_errors_only: false }
}

/// The policy for reaching an agent's event stream: twenty seconds,
/// connection failures only.
pub fn event_stream_retry_policy() -> (r: RetryPolicy)
    ensures
        r.timeout_ms == 20000,
        r.connect_errors_only,
{
    RetryPolicy { timeout_ms: 20000, connect_errors_only: true }
}

/// What to do after a failed attempt.
#[derive(Debug, Clone, Copy, PartialEq, Eq, Structural)]
pub enum RetryStep {
    /// Stop and report the failure.
    GiveUp,
    /// Wait this many milliseconds, then try again.
    Wait(u64),
}

/// The step after failed attempt number `attempt` (counting from 1),
/// `elapsed_ms` after the first: give up when the failure is not retried
/// or the time is up, else wait 100 ms per attempt so far, at most two
/// seconds.
pub open spec fn retry_step(p: RetryPolicy, attempt: u32, elapsed_ms: u64, is_connect_error: bool) -> RetryStep {
    if (p.connect_errors_only && !is_connect_error) || elapsed_ms >= p.timeout_ms {
        RetryStep::GiveUp
    } else {
        RetryStep::Wait(((if attempt < 20 { attempt as int } else { 20 }) * 100) as u64)
    }
}

/// The step after a failed connection attempt (see `retry_step`).
pub fn next_retry(policy: RetryPolicy, attempt: u32, elapsed_ms: u64, is_connect_error: bool) -> (r: RetryStep)
    ensures
        r == retry_step(policy, attempt, elapsed_ms, is_connect_error),
{
    if (policy.connect_errors_only && !is_connect_error) || elapsed_ms >= policy.timeout_ms {
        RetryStep::GiveUp
    } else {
        let n: u64 = if attempt < 20 { attempt as u64 } else { 20 };
        RetryStep::Wait(n * 100)
    }
}

// ---------------------------------------------------------------------------
// Cross-origin requests
// ---------------------------------------------------------------------------

/// A byte allowed in an HTTP header value: visible ASCII, space, tab, or
/// any byte of a multi-byte character (what `http::HeaderValue::from_str`
/// accepts).
pub open spec fn header_byte_ok(b: u8) -> bool {
    (b >= 32 && b != 127) || b == 9
}

/// Text usable as an HTTP header value.
pub open spec fn header_value_ok(s: Seq<char>) -> bool {
    forall|i: int| 0 <= i < vstd::utf8::encode_utf8(s).len() ==> header_byte_ok(
        #[trigger] vstd::utf8::encode_utf8(s)[i],
    )
}

/// Whether `s` is usable as an HTTP header value.
pub fn is_header_value(s: &str) -> (r: bool)
    ensures
        r == header_value_ok(s@),
{
    let bytes = s.as_bytes();
    let mut i: usize = 0;
    while i < bytes.len()
        invariant
            i <= bytes@.len(),
            bytes@ == vstd::utf8::encode_utf8(s@),
            forall|k: int| 0 <= k < i ==> header_byte_ok(#[trigger] bytes@[k]),
        decreases bytes.len() - i,
    {
        let b = bytes[i];
        if !((b >= 32 && b != 127) || b == 9) {
            return false;
        }
        i = i + 1;
    }
    true
}

/// The local origins a development server always accepts.
pub open spec fn dev_extra_origins() -> Seq<Seq<char>> {
    seq![
        "http://localhost:3000"@,
        "http://localhost:3001"@,
        "http://127.0.0.1:3000"@,
        "http://127.0.0.1:3001"@,
    ]
}

/// The origins a development server accepts when none are configured.
pub open spec fn dev_default_origins() -> Seq<Seq<char>> {
    seq![
        "http://localhost:3000"@,
        "http://localhost:3001"@,
        "http://localhost:8080"@,
        "http://127.0.0.1:3000"@,
        "http://127.0.0.1:3001"@,
        "http://127.0.0.1:8080"@,
    ]
}

/// The configured origins usable as header values, in order.
pub open spec fn usable_origins(c: Seq<Seq<char>>) -> Seq<Seq<char>>
    decreases c.len(),
{
    if c.len() == 0 {
        c
    } else if header_value_ok(c.last()) {
        usable_origins(c.drop_last()).push(c.last())
    } else {
        usable_origins(c.drop_last())
    }
}

/// `o` with each of `extra` appended unless already present.
pub open spec fn with_missing(o: Seq<Seq<char>>, extra: Seq<Seq<char>>) -> Seq<Seq<char>>
    decreases extra.len(),
{
    if extra.len() == 0 {
        o
    } else {
        let w = with_missing(o, extra.drop_last());
        if w.contains(extra.last()) {
            w
        } else {
            w.push(extra.last())
        }
    }
}

/// The origins browsers may call the API from (credentials allowed), or
/// `None` when every cross-origin request is refused. With origins
/// configured: the usable ones, plus the local development origins in
/// development mode; refused when that leaves none. Without: the default
/// local origins in development mode, refused in production.
pub open spec fn allowed_origins(configured: Seq<Seq<char>>, dev_mode: bool) -> Option<Seq<Seq<char>>> {
    if configured.len() == 0 {
        if dev_mode {
            Some(dev_default_origins())
        } else {
            None
        }
    } else {
        let o = if dev_mode {
            with_missing(usable_origins(configured), dev_extra_origins())
        } else {
            usable_origins(configured)
        };
        if o.len() == 0 {
            None
        } else {
            Some(o)
        }
    }
}

/// Which origins may make cross-origin requests.
#[derive(Debug, Clone)]
pub enum CorsPolicy {
    /// No cross-origin request is allowed.
    DenyAll,
    /// These origins may call with credentials.
    Allow(Vec<String>),
}

fn contains_string(v: &Vec<String>, s: &str) -> (r: bool)
    ensures
        r == strings_view(v@).contains(s@),
{
    let t = lit(s);
    let mut i: usize = 0;
    while i < v.len()
        invariant
            i <= v@.len(),
            t@ == s@,
            forall|k: int| 0 <= k < i ==> v@[k]@ != s@,
        decreases v.len() - i,
    {
        if v[i] == t {
            assert(strings_view(v@)[i as int] == s@);
            return true;
        }
        i = i + 1;
    }
    false
}

fn push_missing(o: &mut Vec<String>, s: &str)
    ensures
        strings_view(final(o)@) == (if strings_view(old(o)@).contains(s@) {
            strings_view(old(o)@)
        } else {
            strings_view(old(o)@).push(s@)
        }),
{
    if !contains_string(o, s) {
        o.push(lit(s));
        assert(strings_view(o@) =~= strings_view(old(o)@).push(s@));
    }
}

/// The cross-origin policy for the configured origins (see
/// `allowed_origins`).
pub fn cors_policy(configured: &Vec<String>, dev_mode: bool) -> (r: CorsPolicy)
    ensures
        match allowed_origins(strings_view(configured@), dev_mode) {
            None => r is DenyAll,
            Some(o) => r matches CorsPolicy::Allow(v) && strings_view(v@) == o,
        },
{
    if configured.len() == 0 {
        if dev_mode {
            let v = vec![
                lit("http://localhost:3000"),
                lit("http://localhost:3001"),
                lit("http://localhost:8080"),
                lit("http://127.0.0.1:3000"),
                lit("http://127.0.0.1:3001"),
                lit("http://127.0.0.1:8080"),
            ];
            assert(strings_view(v@) =~= dev_default_origins());
            return CorsPolicy::Allow(v);
        } else {
            return CorsPolicy::DenyAll;
        }
    }
    let ghost c = strings_view(configured@);
    let mut o: Vec<String> = Vec::new();
    let mut i: usize = 0;
    while i < configured.len()
        invariant
            i <= configured@.len(),
            c == strings_view(configured@),
            strings_view(o@) == usable_origins(c.subrange(0, i as int)),
        decreases configured.len() - i,
    {
        assert(c.subrange(0, i + 1).drop_last() =~= c.subrange(0, i as int));
        assert(c.subrange(0, i + 1).last() == configured@[i as int]@);
        if is_header_value(configured[i].as_str()) {
            o.push(configured[i].clone());
            assert(strings_view(o@) =~= usable_origins(c.subrange(0, i as int)).push(configured@[i as int]@));
        }
        i = i + 1;
    }
    assert(c.subrange(0, i as int) =~= c);
    if dev_mode {
        let ghost u = strings_view(o@);
        let ghost e = dev_extra_origins();
        push_missing(&mut o, "http://localhost:3000");
        assert(e.subrange(0, 1).drop_last() =~= e.subrange(0, 0));
        assert(with_missing(u, e.subrange(0, 0)) == u);
        assert(e.subrange(0, 1).last() == e[0]);
        assert(strings_view(o@) == with_missing(u, e.subrange(0, 1)));
        push_missing(&mut o, "http://localhost:3001");
        assert(e.subrange(0, 2).drop_last() =~= e.subrange(0, 1));
        assert(e.subrange(0, 2).last() == e[1]);
        assert(strings_view(o@) == with_missing(u, e.subrange(0, 2)));
        push_missing(&mut o, "http://127.0.0.1:3000");
        assert(e.subrange(0, 3).drop_last() =~= e.subrange(0, 2));
        assert(e.subrange(0, 3).last() == e[2]);
        assert(strings_view(o@) == with_missing(u, e.subrange(0, 3)));
        push_missing(&mut o, "http://127.0.0.1:3001");
        assert(e.subrange(0, 4).drop_last() =~= e.subrange(0, 3));
        assert(e.subrange(0, 4).last() == e[3]);
        assert(e.subrange(0, 4) =~= e);
        assert(strings_view(o@) == with_missing(u, e));
    }
    if o.len() == 0 {
        CorsPolicy::DenyAll
    } else {
        CorsPolicy::Allow(o)
    }
}

/// A retry never waits less than 100 ms (from the first attempt on) nor
/// more than two seconds, and waits no less after a later attempt.
pub proof fn law_retry_backoff(p: RetryPolicy, a: u32, b: u32, ea: u64, eb: u64, ca: bool, cb: bool)
    requires
        1 <= a <= b,
    ensures
        retry_step(p, a, ea, ca) matches RetryStep::Wait(ms) ==> 100 <= ms <= 2000,
        retry_step(p, a, ea, ca) is Wait && retry_step(p, b, eb, cb) is Wait ==> retry_step(p, a, ea, ca)->0
            <= retry_step(p, b, eb, cb)->0,
{
}

proof fn lemma_usable_origins(c: Seq<Seq<char>>)
    ensures
        forall|i: int|
            0 <= i < usable_origins(c).len() ==> c.contains(#[trigger] usable_origins(c)[i])
                && header_value_ok(usable_origins(c)[i]),
    decreases c.len(),
{
    if c.len() > 0 {
        lemma_usable_origins(c.drop_last());
        let prev = usable_origins(c.drop_last());
        assert forall|i: int| 0 <= i < usable_origins(c).len() implies c.contains(
            #[trigger] usable_origins(c)[i],
        ) && header_value_ok(usable_origins(c)[i]) by {
            if i < prev.len() {
                assert(usable_origins(c)[i] == prev[i]);
                let k = choose|k: int| 0 <= k < c.drop_last().len() && c.drop_last()[k] == prev[i];
                assert(c[k] == prev[i]);
            } else {
                assert(usable_origins(c)[i] == c.last());
                assert(c[c.len() - 1] == c.last());
            }
        }
    }
}

/// In production the API accepts cross-origin calls only from configured
/// origins, and only from those that are valid header values.
pub proof fn law_production_origins_configured(configured: Seq<Seq<char>>)
    ensures
        allowed_origins(configured, false) matches Some(o) ==> forall|i: int|
            0 <= i < o.len() ==> configured.contains(#[trigger] o[i]) && header_value_ok(o[i]),
{
    lemma_usable_origins(configured);
}

} // verus!
