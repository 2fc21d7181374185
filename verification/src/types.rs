//! Lifecycle and health states of a managed server, and the small pure
//! rules attached to them.
use vstd::prelude::*;
use crate::mcp::protocol::{McpPrompt, McpResource, McpTool};
use crate::text::{
    all_digits, decimal, decimal_injective, decimal_reads_back, digits_value, push_decimal, push_padded,
    push_str, zero_pad, zero_pad_reads_back,
};

verus! {

/// A point in time, carried through unchanged (`std::time::Instant`).
#[verifier::external_type_specification]
#[verifier::external_body]
pub struct ExInstant(std::time::Instant);

/// `Instant` is `Copy`; its `clone` returns the same instant.
pub assume_specification [<std::time::Instant as Clone>::clone](i: &std::time::Instant) -> (r: std::time::Instant)
    ensures
        r == *i,
;

/// Command sent to a running supervisor.
#[derive(Clone, Copy, PartialEq, Eq, Structural, Debug)]
pub enum SupervisorCommand {
    /// Stop the managed server and exit the supervisor loop.
    Shutdown,
    /// Stop the managed server, reset the failure count, and start it again.
    Restart,
}

/// The lifecycle state of a managed MCP server process.
#[derive(Clone, Debug)]
pub enum ProcessState {
    /// The server is not running.
    Stopped,
    /// The server is starting up.
    Starting,
    /// The server is running normally.
    Running,
    /// The server is waiting before the next restart attempt.
    Backoff { attempt: u32, until: std::time::Instant },
    /// The server exhausted its restart attempts and will not be restarted.
    Fatal,
    /// The server is being stopped.
    Stopping,
}


/// Result of the periodic MCP ping check of a server.
#[derive(Clone, Debug)]
pub enum HealthStatus {
    /// No check has completed since the process started.
    Unknown,
    /// The last ping was answered.
    Healthy { latency_ms: u64, last_checked: std::time::Instant },
    /// Some consecutive pings went unanswered.
    Degraded { consecutive_misses: u32, last_success: Option<std::time::Instant> },
    /// Too many consecutive pings went unanswered.
    Failed { consecutive_misses: u32 },
}

impl Default for HealthStatus {
    /// Health after a (re)start: unknown.
    fn default() -> (h: HealthStatus)
        ensures
            h is Unknown,
    {
        HealthStatus::Unknown
    }
}

/// Consecutive misses from which a server counts as degraded.
pub const DEGRADED_AFTER_MISSES: u32 = 2;

/// Consecutive misses from which a server counts as failed.
pub const FAILED_AFTER_MISSES: u32 = 7;

/// Health after `misses` consecutive unanswered pings, starting from
/// `current`: failed from seven misses on, degraded from two (keeping the
/// time of the last answered ping), unchanged below that.
pub open spec fn health_after_misses(misses: u32, current: HealthStatus) -> HealthStatus {
    if misses >= FAILED_AFTER_MISSES {
        HealthStatus::Failed { consecutive_misses: misses }
    } else if misses >= DEGRADED_AFTER_MISSES {
        HealthStatus::Degraded {
            consecutive_misses: misses,
            last_success: match current {
                HealthStatus::Healthy { last_checked, .. } => Some(last_checked),
                HealthStatus::Degraded { last_success, .. } => last_success,
                _ => None,
            },
        }
    } else {
        current
    }
}

/// Compute the health after a failed ping, given the number of consecutive
/// misses so far (including this one) and the current health.
pub fn compute_health_status(consecutive_misses: u32, current: &HealthStatus) -> (h: HealthStatus)
    ensures
        h == health_after_misses(consecutive_misses, *current),
{
    if consecutive_misses >= FAILED_AFTER_MISSES {
        HealthStatus::Failed { consecutive_misses }
    } else if consecutive_misses >= DEGRADED_AFTER_MISSES {
        let last_success = match current {
            HealthStatus::Healthy { last_checked, .. } => Some(*last_checked),
            HealthStatus::Degraded { last_success, .. } => *last_success,
            _ => None,
        };
        HealthStatus::Degraded { consecutive_misses, last_success }
    } else {
        match current {
            HealthStatus::Unknown => HealthStatus::Unknown,
            HealthStatus::Healthy { latency_ms, last_checked } => HealthStatus::Healthy {
                latency_ms: *latency_ms,
                last_checked: *last_checked,
            },
            HealthStatus::Degraded { consecutive_misses, last_success } => HealthStatus::Degraded {
                consecutive_misses: *consecutive_misses,
                last_success: *last_success,
            },
            HealthStatus::Failed { consecutive_misses } => HealthStatus::Failed {
                consecutive_misses: *consecutive_misses,
            },
        }
    }
}

/// The display text of a health status.
pub open spec fn health_text(h: HealthStatus) -> Seq<char> {
    match h {
        HealthStatus::Unknown => "unknown"@,
        HealthStatus::Healthy { .. } => "healthy"@,
        HealthStatus::Degraded { consecutive_misses, .. } => "degraded ("@ + decimal(
            consecutive_misses as nat,
        ) + " missed)"@,
        HealthStatus::Failed { consecutive_misses } => "failed ("@ + decimal(consecutive_misses as nat)
            + " missed)"@,
    }
}

impl HealthStatus {
    /// The display text: `unknown`, `healthy`, `degraded (N missed)` or
    /// `failed (N missed)`.
    pub fn to_display_string(&self) -> (s: String)
        ensures
            s@ == health_text(*self),
    {
        match self {
            HealthStatus::Unknown => String::from_str("unknown"),
            HealthStatus::Healthy { .. } => String::from_str("healthy"),
            HealthStatus::Degraded { consecutive_misses, .. } => {
                let mut s = String::from_str("degraded (");
                push_decimal(&mut s, *consecutive_misses as u64);
                push_str(&mut s, " missed)");
                s
            },
            HealthStatus::Failed { consecutive_misses } => {
                let mut s = String::from_str("failed (");
                push_decimal(&mut s, *consecutive_misses as u64);
                push_str(&mut s, " missed)");
                s
            },
        }
    }
}

/// `HH:MM:SS` for a duration of `secs` seconds; hours are not wrapped at 24.
pub open spec fn uptime_text(secs: nat) -> Seq<char> {
    zero_pad(decimal(secs / 3600), 2) + ":"@ + zero_pad(decimal((secs % 3600) / 60), 2) + ":"@
        + zero_pad(decimal(secs % 60), 2)
}

/// Format an uptime of `secs` seconds as `HH:MM:SS`.
pub fn format_uptime(secs: u64) -> (s: String)
    ensures
        s@ == uptime_text(secs as nat),
{
    let mut s = String::new();
    push_padded(&mut s, secs / 3600, 2);
    push_str(&mut s, ":");
    push_padded(&mut s, (secs % 3600) / 60, 2);
    push_str(&mut s, ":");
    push_padded(&mut s, secs % 60, 2);
    s
}

/// The display text of a lifecycle state.
pub open spec fn process_state_text(p: ProcessState) -> Seq<char> {
    match p {
        ProcessState::Stopped => "stopped"@,
        ProcessState::Starting => "starting"@,
        ProcessState::Running => "running"@,
        ProcessState::Backoff { attempt, .. } => "backoff ("@ + decimal(attempt as nat) + ")"@,
        ProcessState::Fatal => "fatal"@,
        ProcessState::Stopping => "stopping"@,
    }
}

/// Two lifecycle states that are shown alike: the same state, and for a
/// backoff the same attempt number.
pub open spec fn same_shown_state(p: ProcessState, q: ProcessState) -> bool {
    match (p, q) {
        (ProcessState::Stopped, ProcessState::Stopped) => true,
        (ProcessState::Starting, ProcessState::Starting) => true,
        (ProcessState::Running, ProcessState::Running) => true,
        (ProcessState::Backoff { attempt: a, .. }, ProcessState::Backoff { attempt: b, .. }) => a == b,
        (ProcessState::Fatal, ProcessState::Fatal) => true,
        (ProcessState::Stopping, ProcessState::Stopping) => true,
        _ => false,
    }
}

/// Each lifecycle state is shown by its own word (a backoff with its
/// attempt number in parentheses), and states that differ are never shown
/// by the same text.
pub proof fn state_texts_name_their_states(p: ProcessState, q: ProcessState, attempt: u32, until: std::time::Instant)
    ensures
        process_state_text(ProcessState::Stopped) == "stopped"@,
        process_state_text(ProcessState::Starting) == "starting"@,
        process_state_text(ProcessState::Running) == "running"@,
        process_state_text(ProcessState::Fatal) == "fatal"@,
        process_state_text(ProcessState::Stopping) == "stopping"@,
        process_state_text(ProcessState::Backoff { attempt, until }).take(9) == "backoff ("@,
        process_state_text(p) == process_state_text(q) ==> same_shown_state(p, q),
{
    reveal_strlit("stopped");
    reveal_strlit("starting");
    reveal_strlit("running");
    reveal_strlit("fatal");
    reveal_strlit("stopping");
    reveal_strlit("backoff (");
    reveal_strlit(")");
    let bt = process_state_text(ProcessState::Backoff { attempt, until });
    decimal_reads_back(attempt as nat);
    assert(bt.take(9) =~= "backoff ("@);
    if process_state_text(p) == process_state_text(q) {
        let tp = process_state_text(p);
        let tq = process_state_text(q);
        match (p, q) {
            (ProcessState::Backoff { attempt: a, .. }, ProcessState::Backoff { attempt: b, .. }) => {
                decimal_reads_back(a as nat);
                decimal_reads_back(b as nat);
                let da = decimal(a as nat);
                let db = decimal(b as nat);
                assert("backoff ("@.len() == 9 && ")"@.len() == 1);
                assert(tp == "backoff ("@ + da + ")"@);
                assert(tq == "backoff ("@ + db + ")"@);
                assert(tp.len() == 10 + da.len() && tq.len() == 10 + db.len());
                assert(da.len() == db.len());
                assert(tp.subrange(9, 9 + da.len() as int) =~= da);
                assert(tq.subrange(9, 9 + db.len() as int) =~= db);
                decimal_injective(a as nat, b as nat);
            },
            (ProcessState::Backoff { attempt: a, .. }, _) => {
                decimal_reads_back(a as nat);
                assert(tp.len() >= 11);
            },
            (_, ProcessState::Backoff { attempt: b, .. }) => {
                decimal_reads_back(b as nat);
                assert(tq.len() >= 11);
            },
            _ => {
                if !same_shown_state(p, q) {
                    assert(tp[0] != tq[0] || tp[1] != tq[1] || tp[2] != tq[2] || tp.len() != tq.len());
                }
            },
        }
    }
}

/// The uptime text reads back as the uptime: it is `HH:MM:SS`, the
/// minutes and seconds fields being two digits below 60 and the hours field
/// at least two digits, and `HH * 3600 + MM * 60 + SS` is the number of
/// seconds.
pub proof fn uptime_text_reads_back(secs: nat)
    ensures
        ({
            let t = uptime_text(secs);
            let n = t.len() as int;
            &&& n >= 8
            &&& t[n - 3] == ':' && t[n - 6] == ':'
            &&& all_digits(t.take(n - 6)) && all_digits(t.subrange(n - 5, n - 3)) && all_digits(t.subrange(n - 2, n))
            &&& digits_value(t.subrange(n - 5, n - 3)) < 60
            &&& digits_value(t.subrange(n - 2, n)) < 60
            &&& digits_value(t.take(n - 6)) * 3600 + digits_value(t.subrange(n - 5, n - 3)) * 60 + digits_value(
                t.subrange(n - 2, n),
            ) == secs
        }),
{
    reveal_strlit(":");
    let h = secs / 3600;
    let m = (secs % 3600) / 60;
    let x = secs % 60;
    assert(m < 60 && x < 60);
    decimal_reads_back(h);
    decimal_reads_back(m);
    decimal_reads_back(x);
    zero_pad_reads_back(decimal(h), 2);
    zero_pad_reads_back(decimal(m), 2);
    zero_pad_reads_back(decimal(x), 2);
    let a = zero_pad(decimal(h), 2);
    let b = zero_pad(decimal(m), 2);
    let c = zero_pad(decimal(x), 2);
    let t = uptime_text(secs);
    assert(t == a + ":"@ + b + ":"@ + c);
    let n = t.len() as int;
    assert(b.len() == 2 && c.len() == 2 && a.len() >= 2);
    assert(t.take(n - 6) =~= a);
    assert(t.subrange(n - 5, n - 3) =~= b);
    assert(t.subrange(n - 2, n) =~= c);
    assert(t[n - 3] == ':' && t[n - 6] == ':');
    assert(secs == h * 3600 + m * 60 + x) by (nonlinear_arith)
        requires
            h == secs / 3600,
            m == (secs % 3600) / 60,
            x == secs % 60,
    {
    }
}

/// Two health states that are shown alike: the same state, and for a
/// degraded or failed server the same number of missed pings.
pub open spec fn same_shown_health(p: HealthStatus, q: HealthStatus) -> bool {
    match (p, q) {
        (HealthStatus::Unknown, HealthStatus::Unknown) => true,
        (HealthStatus::Healthy { .. }, HealthStatus::Healthy { .. }) => true,
        (
            HealthStatus::Degraded { consecutive_misses: a, .. },
            HealthStatus::Degraded { consecutive_misses: b, .. },
        ) => a == b,
        (HealthStatus::Failed { consecutive_misses: a }, HealthStatus::Failed { consecutive_misses: b }) => a
            == b,
        _ => false,
    }
}

/// The misses count shown by a `degraded (N missed)` or `failed (N missed)`
/// text that starts with a prefix of `k` characters: the digits between the
/// prefix and the closing ` missed)`.
pub open spec fn shown_misses(t: Seq<char>, k: int) -> Seq<char> {
    t.subrange(k, t.len() - 8)
}

proof fn misses_text_reads_back(prefix: Seq<char>, n: nat)
    ensures
        ({
            let t = prefix + decimal(n) + " missed)"@;
            &&& t.take(prefix.len() as int) == prefix
            &&& t.len() == prefix.len() + decimal(n).len() + 8
            &&& t.skip(t.len() - 8) == " missed)"@
            &&& shown_misses(t, prefix.len() as int) == decimal(n)
            &&& all_digits(shown_misses(t, prefix.len() as int))
            &&& digits_value(shown_misses(t, prefix.len() as int)) == n
        }),
{
    reveal_strlit(" missed)");
    decimal_reads_back(n);
    let t = prefix + decimal(n) + " missed)"@;
    assert(t.take(prefix.len() as int) =~= prefix);
    assert(t.skip(t.len() - 8) =~= " missed)"@);
    assert(shown_misses(t, prefix.len() as int) =~= decimal(n));
}

/// Each health state is shown by its own word; a degraded or failed server
/// is shown with the number of missed pings in parentheses, and that number
/// reads back as the count.  Health states that differ are never shown by
/// the same text.
pub proof fn health_texts_name_their_states(
    p: HealthStatus,
    q: HealthStatus,
    latency_ms: u64,
    last_checked: std::time::Instant,
    misses: u32,
    last_success: Option<std::time::Instant>,
)
    ensures
        health_text(HealthStatus::Unknown) == "unknown"@,
        health_text(HealthStatus::Healthy { latency_ms, last_checked }) == "healthy"@,
        ({
            let t = health_text(HealthStatus::Degraded { consecutive_misses: misses, last_success });
            &&& t.take(10) == "degraded ("@
            &&& t.skip(t.len() - 8) == " missed)"@
            &&& all_digits(shown_misses(t, 10))
            &&& digits_value(shown_misses(t, 10)) == misses
        }),
        ({
            let t = health_text(HealthStatus::Failed { consecutive_misses: misses });
            &&& t.take(8) == "failed ("@
            &&& t.skip(t.len() - 8) == " missed)"@
            &&& all_digits(shown_misses(t, 8))
            &&& digits_value(shown_misses(t, 8)) == misses
        }),
        health_text(p) == health_text(q) ==> same_shown_health(p, q),
{
    reveal_strlit("unknown");
    reveal_strlit("healthy");
    reveal_strlit("degraded (");
    reveal_strlit("failed (");
    reveal_strlit(" missed)");
    misses_text_reads_back("degraded ("@, misses as nat);
    misses_text_reads_back("failed ("@, misses as nat);
    if health_text(p) == health_text(q) {
        let tp = health_text(p);
        let tq = health_text(q);
        match (p, q) {
            (
                HealthStatus::Degraded { consecutive_misses: a, .. },
                HealthStatus::Degraded { consecutive_misses: b, .. },
            ) => {
                misses_text_reads_back("degraded ("@, a as nat);
                misses_text_reads_back("degraded ("@, b as nat);
                decimal_injective(a as nat, b as nat);
            },
            (HealthStatus::Failed { consecutive_misses: a }, HealthStatus::Failed { consecutive_misses: b }) => {
                misses_text_reads_back("failed ("@, a as nat);
                misses_text_reads_back("failed ("@, b as nat);
                decimal_injective(a as nat, b as nat);
            },
            (HealthStatus::Degraded { consecutive_misses: a, .. }, _) => {
                misses_text_reads_back("degraded ("@, a as nat);
                assert(tp[0] == 'd');
            },
            (HealthStatus::Failed { consecutive_misses: a }, _) => {
                misses_text_reads_back("failed ("@, a as nat);
                assert(tp[0] == 'f');
            },
            (_, HealthStatus::Degraded { consecutive_misses: b, .. }) => {
                misses_text_reads_back("degraded ("@, b as nat);
                assert(tq[0] == 'd');
            },
            (_, HealthStatus::Failed { consecutive_misses: b }) => {
                misses_text_reads_back("failed ("@, b as nat);
                assert(tq[0] == 'f');
            },
            _ => {
                if !same_shown_health(p, q) {
                    assert(tp[0] != tq[0]);
                }
            },
        }
    }
}

impl ProcessState {
    /// The display text: `stopped`, `starting`, `running`, `backoff (N)`,
    /// `fatal` or `stopping`.
    pub fn to_display_string(&self) -> (s: String)
        ensures
            s@ == process_state_text(*self),
    {
        match self {
            ProcessState::Stopped => String::from_str("stopped"),
            ProcessState::Starting => String::from_str("starting"),
            ProcessState::Running => String::from_str("running"),
            ProcessState::Backoff { attempt, .. } => {
                let mut s = String::from_str("backoff (");
                push_decimal(&mut s, *attempt as u64);
                push_str(&mut s, ")");
                s
            },
            ProcessState::Fatal => String::from_str("fatal"),
            ProcessState::Stopping => String::from_str("stopping"),
        }
    }

    /// Whether the server is still in a transient start-up state
    /// (`Stopped` or `Starting`), as opposed to having settled.
    pub fn is_settling(&self) -> (b: bool)
        ensures
            b == (*self is Stopped || *self is Starting),
    {
        match self {
            ProcessState::Stopped => true,
            ProcessState::Starting => true,
            _ => false,
        }
    }
}

/// The capabilities an MCP server declared, as introspection found them.
#[derive(Clone, Debug)]
pub struct McpCapabilities {
    pub tools: Vec<McpTool>,
    pub resources: Vec<McpResource>,
    pub prompts: Vec<McpPrompt>,
    /// When introspection completed, if it has.
    pub introspected_at: Option<std::time::Instant>,
}

impl Default for McpCapabilities {
    /// No capabilities, not introspected.
    fn default() -> (c: McpCapabilities)
        ensures
            c.tools@.len() == 0,
            c.resources@.len() == 0,
            c.prompts@.len() == 0,
            c.introspected_at is None,
    {
        McpCapabilities { tools: Vec::new(), resources: Vec::new(), prompts: Vec::new(), introspected_at: None }
    }
}

/// What observers see of a managed server.
#[derive(Clone, Debug)]
pub struct ServerSnapshot {
    pub process_state: ProcessState,
    pub health: HealthStatus,
    pub pid: Option<u32>,
    /// When the running process started.
    pub uptime_since: Option<std::time::Instant>,
    /// How many times the server was started again.
    pub restart_count: u32,
    pub transport: String,
    pub capabilities: McpCapabilities,
}

impl Default for ServerSnapshot {
    /// A stopped server of the default transport, health unknown, never
    /// restarted, without capabilities.
    fn default() -> (s: ServerSnapshot)
        ensures
            s.process_state is Stopped,
            s.health is Unknown,
            s.pid is None,
            s.uptime_since is None,
            s.restart_count == 0,
            s.transport@ == "stdio"@,
            s.capabilities.tools@.len() == 0,
            s.capabilities.resources@.len() == 0,
            s.capabilities.prompts@.len() == 0,
            s.capabilities.introspected_at is None,
    {
        ServerSnapshot {
            process_state: ProcessState::Stopped,
            health: HealthStatus::Unknown,
            pid: None,
            uptime_since: None,
            restart_count: 0,
            transport: String::from_str("stdio"),
            capabilities: McpCapabilities::default(),
        }
    }
}

/// The exponent of the backoff delay for restart attempt `attempt`: the
/// attempt number, capped at ten so that `2^exponent` cannot overflow.
pub fn backoff_exponent(attempt: u32) -> (e: u32)
    ensures
        e == if attempt < 10 { attempt } else { 10 },
{
    if attempt < 10 { attempt } else { 10 }
}

/// `2^min(attempt, 10)`, the factor applied to the base backoff delay.
pub fn backoff_multiplier(attempt: u32) -> (m: u32)
    ensures
        m == vstd::arithmetic::power2::pow2(backoff_exponent_spec(attempt) as nat),
        1 <= m <= 1024,
{
    let e = backoff_exponent(attempt);
    let mut m: u32 = 1;
    let mut i: u32 = 0;
    proof {
        vstd::arithmetic::power2::lemma2_to64();
    }
    while i < e
        invariant
            i <= e <= 10,
            m == vstd::arithmetic::power2::pow2(i as nat),
            1 <= m <= vstd::arithmetic::power2::pow2(10),
        decreases e - i,
    {
        proof {
            vstd::arithmetic::power2::lemma_pow2_unfold((i + 1) as nat);
            vstd::arithmetic::power2::lemma_pow2_strictly_increases(i as nat, 10);
            vstd::arithmetic::power2::lemma2_to64();
        }
        m = m * 2;
        i = i + 1;
    }
    proof {
        vstd::arithmetic::power2::lemma2_to64();
    }
    m
}

/// The capped backoff exponent.
pub open spec fn backoff_exponent_spec(attempt: u32) -> u32 {
    if attempt < 10 { attempt } else { 10 }
}

/// Each further restart attempt doubles the backoff multiplier until it
/// reaches its cap of `2^10`, where it stays.
pub proof fn backoff_doubles_until_cap(attempt: u32)
    requires
        attempt < u32::MAX,
    ensures
        attempt < 10 ==> vstd::arithmetic::power2::pow2(backoff_exponent_spec((attempt + 1) as u32) as nat)
            == 2 * vstd::arithmetic::power2::pow2(backoff_exponent_spec(attempt) as nat),
        attempt >= 10 ==> vstd::arithmetic::power2::pow2(backoff_exponent_spec((attempt + 1) as u32) as nat)
            == vstd::arithmetic::power2::pow2(backoff_exponent_spec(attempt) as nat),
        vstd::arithmetic::power2::pow2(backoff_exponent_spec(attempt) as nat) <= 1024,
{
    vstd::arithmetic::power2::lemma2_to64();
    if attempt < 10 {
        vstd::arithmetic::power2::lemma_pow2_unfold((attempt + 1) as nat);
        vstd::arithmetic::power2::lemma_pow2_strictly_increases(attempt as nat, 10);
    }
}

} // verus!
