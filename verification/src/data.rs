//! Core data model: targets, credentials, command specifications, outcomes
//! and per-target results.

use vstd::prelude::*;

verus! {

/// One remote host to run the command against, addressed as `host:port`.
pub struct Target {
    pub host: String,
    pub port: u16,
}

impl View for Target {
    type V = (Seq<char>, u16);

    open spec fn view(&self) -> (Seq<char>, u16) {
        (self.host@, self.port)
    }
}

impl Target {
    pub fn new(host: String, port: u16) -> (t: Target)
        ensures
            t.host@ == host@,
            t.port == port,
    {
        Target { host, port }
    }

    /// A copy with the same host and port.
    pub fn duplicate(&self) -> (t: Target)
        ensures
            t@ == self@,
    {
        Target { host: self.host.clone(), port: self.port }
    }
}

/// One way to authenticate, tried in the order the policy lists them.
pub enum AuthMethod {
    Key { path: String, passphrase: Option<String> },
    Password { secret: String },
}

/// Username plus the ordered list of authentication methods to attempt.
/// Shared read-only by every connection attempt of a run.
pub struct CredentialPolicy {
    pub username: String,
    pub methods: Vec<AuthMethod>,
}

/// The command to run on each host and its per-host execution timeout,
/// measured from command dispatch.
pub struct CommandSpec {
    pub command: String,
    pub per_host_timeout_ms: u64,
}

/// Engine configuration: concurrency cap and the connect-phase timeout.
pub struct EngineConfig {
    pub concurrency_limit: usize,
    pub connect_timeout_ms: u64,
    pub command_timeout_ms: u64,
}

impl EngineConfig {
    /// A configuration is usable when the concurrency cap is positive.
    pub open spec fn wf(self) -> bool {
        self.concurrency_limit >= 1
    }
}

/// The default cap on simultaneously open sessions; fixed, independent of
/// the number of targets.
pub const DEFAULT_CONCURRENCY_LIMIT: usize = 16;

/// The default connect-phase timeout, in milliseconds.
pub const DEFAULT_CONNECT_TIMEOUT_MS: u64 = 10_000;

/// The default per-host command timeout, in milliseconds.
pub const DEFAULT_COMMAND_TIMEOUT_MS: u64 = 60_000;

impl Default for EngineConfig {
    fn default() -> (c: EngineConfig)
        ensures
            c.concurrency_limit == DEFAULT_CONCURRENCY_LIMIT,
            c.connect_timeout_ms == DEFAULT_CONNECT_TIMEOUT_MS,
            c.command_timeout_ms == DEFAULT_COMMAND_TIMEOUT_MS,
            c.wf(),
    {
        EngineConfig {
            concurrency_limit: DEFAULT_CONCURRENCY_LIMIT,
            connect_timeout_ms: DEFAULT_CONNECT_TIMEOUT_MS,
            command_timeout_ms: DEFAULT_COMMAND_TIMEOUT_MS,
        }
    }
}

/// Why a connection attempt failed at the transport layer.
#[derive(PartialEq, Eq, Structural, Clone, Copy, Debug)]
pub enum ConnectReason {
    Unreachable,
    Refused,
    Timeout,
    Dropped,
}

/// The tagged result of attempting one target.
#[derive(PartialEq, Eq, Structural, Clone, Copy, Debug)]
pub enum Outcome {
    Success,
    ConnectFailed { reason: ConnectReason },
    AuthFailed,
    TimedOut,
    CommandFailed { exit_code: i32 },
    Cancelled,
}

/// The words used to tag an outcome in live output and in the report.
pub open spec fn spec_outcome_label(o: Outcome) -> Seq<char> {
    match o {
        Outcome::Success => "success"@,
        Outcome::ConnectFailed { reason } => "connect failed"@,
        Outcome::AuthFailed => "auth failed"@,
        Outcome::TimedOut => "timed out"@,
        Outcome::CommandFailed { exit_code } => "command failed"@,
        Outcome::Cancelled => "cancelled"@,
    }
}

impl Outcome {
    /// The kind of this outcome, in words, for tagging failures inline.
    pub fn label(&self) -> (r: String)
        ensures
            r@ == spec_outcome_label(*self),
    {
        match self {
            Outcome::Success => "success".to_owned(),
            Outcome::ConnectFailed { .. } => "connect failed".to_owned(),
            Outcome::AuthFailed => "auth failed".to_owned(),
            Outcome::TimedOut => "timed out".to_owned(),
            Outcome::CommandFailed { .. } => "command failed".to_owned(),
            Outcome::Cancelled => "cancelled".to_owned(),
        }
    }
}

/// One target's result: written once by the worker that owned the target,
/// then handed immutably to the aggregator.
pub struct TaskResult {
    pub target: Target,
    pub outcome: Outcome,
    pub stdout: Vec<u8>,
    pub stderr: Vec<u8>,
    pub exit_code: Option<i32>,
    pub duration_ms: u64,
}

impl TaskResult {
    /// The result recorded for a target that was cancelled before it started.
    pub fn cancelled(target: Target) -> (r: TaskResult)
        ensures
            r.target@ == target@,
            r.outcome == Outcome::Cancelled,
            r.stdout@ == Seq::<u8>::empty(),
            r.stderr@ == Seq::<u8>::empty(),
            r.exit_code is None,
            r.duration_ms == 0,
    {
        TaskResult {
            target,
            outcome: Outcome::Cancelled,
            stdout: Vec::new(),
            stderr: Vec::new(),
            exit_code: None,
            duration_ms: 0,
        }
    }
}

/// Addition on millisecond clocks that sticks at the largest representable
/// value instead of wrapping.
pub open spec fn sat_add(a: u64, b: u64) -> u64 {
    if a + b > u64::MAX {
        u64::MAX
    } else {
        (a + b) as u64
    }
}

/// Executable saturating addition, exact against `sat_add`.
pub fn sat_add_ms(a: u64, b: u64) -> (r: u64)
    ensures
        r == sat_add(a, b),
{
    if b > u64::MAX - a {
        u64::MAX
    } else {
        a + b
    }
}

} // verus!
