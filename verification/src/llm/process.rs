//! The lifecycle of the llama-server child process: when it has to be
//! started, with which arguments, how the wait for its health check proceeds,
//! and how a crash is noticed. The application owns the child process and
//! performs the spawning, polling, HTTP checks and sleeping.
use vstd::prelude::*;

use std::path::PathBuf;

use crate::config::Settings;
use crate::text::{chars_of, decimal, decimal_string, push_str, string_from_chars};

verus! {

/// Where the language model server is in its lifecycle.
#[derive(Clone, Debug)]
pub enum LlmStatus {
    Stopped,
    Starting,
    Ready,
    Crashed { message: String },
}

/// An `LlmStatus` by value, with the crash message as characters.
pub enum StatusView {
    Stopped,
    Starting,
    Ready,
    Crashed(Seq<char>),
}

impl View for LlmStatus {
    type V = StatusView;

    open spec fn view(&self) -> StatusView {
        match self {
            LlmStatus::Stopped => StatusView::Stopped,
            LlmStatus::Starting => StatusView::Starting,
            LlmStatus::Ready => StatusView::Ready,
            LlmStatus::Crashed { message } => StatusView::Crashed(message@),
        }
    }
}

impl LlmStatus {
    /// A copy of the status.
    pub fn duplicate(&self) -> (r: LlmStatus)
        ensures
            r@ == self@,
    {
        match self {
            LlmStatus::Stopped => LlmStatus::Stopped,
            LlmStatus::Starting => LlmStatus::Starting,
            LlmStatus::Ready => LlmStatus::Ready,
            LlmStatus::Crashed { message } => LlmStatus::Crashed { message: message.clone() },
        }
    }
}

/// How to get a running server.
#[derive(Clone, Copy, Debug, PartialEq, Eq, Structural)]
pub enum StartAction {
    /// The server is ready on this port.
    Reuse(u16),
    /// A server is starting on this port: wait for its health check.
    AwaitHealth(u16),
    /// Start a server.
    Spawn,
}

/// What the library knows of the server process: the port it was started on
/// and its status. The child process handle itself is the application's.
pub struct LlmProcess {
    pub port: u16,
    pub status: LlmStatus,
}

impl Default for LlmProcess {
    fn default() -> (r: LlmProcess)
        ensures
            r.port == 0,
            r.status@ == StatusView::Stopped,
    {
        LlmProcess { port: 0, status: LlmStatus::Stopped }
    }
}

/// The text of a crash noticed by polling a ready server.
pub open spec fn unexpected_exit_message(exit_status: Seq<char>) -> Seq<char> {
    "llama-server exited unexpectedly ("@ + exit_status + ")"@
}

/// The text of an exit while waiting for the server to become healthy.
pub open spec fn startup_exit_message(exit_status: Seq<char>) -> Seq<char> {
    "llama-server exited during startup ("@ + exit_status + ")"@
}

/// Polling a server with status `status` that has (`Some`) or has not
/// (`None`) exited: the new status and the crash reported, if any. Only a
/// ready server can be found crashed; a stopped or starting one never is.
pub open spec fn polled(status: StatusView, exit_status: Option<Seq<char>>) -> (
    StatusView,
    Option<Seq<char>>,
) {
    match status {
        StatusView::Ready => match exit_status {
            Some(e) => (
                StatusView::Crashed(unexpected_exit_message(e)),
                Some(unexpected_exit_message(e)),
            ),
            None => (status, None),
        },
        _ => (status, None),
    }
}

fn wrap_exit(prefix: &str, exit_status: &str) -> (r: String)
    ensures
        r@ == prefix@ + exit_status@ + ")"@,
{
    let mut v = chars_of(prefix);
    push_str(&mut v, exit_status);
    push_str(&mut v, ")");
    string_from_chars(&v)
}

impl LlmProcess {
    /// Whether the server was last known to be ready.
    pub fn is_ready(&self) -> (r: bool)
        ensures
            r == (self.status@ == StatusView::Ready),
    {
        match self.status {
            LlmStatus::Ready => true,
            _ => false,
        }
    }

    /// What a request for a running server has to do: use the server on
    /// its port when it is ready and its process still runs, wait for its
    /// health check when it is starting and its process still runs, and
    /// otherwise start one.
    pub fn start_action(&self, child_running: bool) -> (r: StartAction)
        ensures
            r == if !child_running {
                StartAction::Spawn
            } else {
                match self.status@ {
                    StatusView::Ready => StartAction::Reuse(self.port),
                    StatusView::Starting => StartAction::AwaitHealth(self.port),
                    _ => StartAction::Spawn,
                }
            },
    {
        if !child_running {
            return StartAction::Spawn;
        }
        match self.status {
            LlmStatus::Ready => StartAction::Reuse(self.port),
            LlmStatus::Starting => StartAction::AwaitHealth(self.port),
            _ => StartAction::Spawn,
        }
    }

    /// Records that the server is being started on `port`.
    pub fn begin_start(&mut self, port: u16)
        ensures
            final(self).port == port,
            final(self).status@ == StatusView::Starting,
    {
        self.port = port;
        self.status = LlmStatus::Starting;
    }

    /// Records that the server answered its health check.
    pub fn mark_ready(&mut self)
        ensures
            final(self).port == old(self).port,
            final(self).status@ == StatusView::Ready,
    {
        self.status = LlmStatus::Ready;
    }

    /// Records that the server was shut down.
    pub fn mark_stopped(&mut self)
        ensures
            final(self).port == old(self).port,
            final(self).status@ == StatusView::Stopped,
    {
        self.status = LlmStatus::Stopped;
    }

    /// Records a failure to start, with its message.
    pub fn mark_crashed(&mut self, message: String)
        ensures
            final(self).port == old(self).port,
            final(self).status@ == StatusView::Crashed(message@),
    {
        self.status = LlmStatus::Crashed { message };
    }

    /// A crash of a ready server, noticed by polling: `exit_status` is the
    /// description of the child's exit when it has exited. A server that is
    /// not ready is never reported (stopping it ourselves is no crash).
    pub fn poll_crashed(&mut self, exit_status: Option<String>) -> (r: Option<String>)
        ensures
            final(self).port == old(self).port,
            (final(self).status@, match r {
                Some(m) => Some(m@),
                None => None,
            }) == polled(
                old(self).status@,
                match exit_status {
                    Some(e) => Some(e@),
                    None => None,
                },
            ),
    {
        if !self.is_ready() {
            return None;
        }
        match exit_status {
            Some(e) => {
                let message = wrap_exit("llama-server exited unexpectedly (", e.as_str());
                self.status = LlmStatus::Crashed { message: message.clone() };
                Some(message)
            },
            None => None,
        }
    }
}

// ---------------------------------------------------------------------------
// Starting the server
// ---------------------------------------------------------------------------

/// The two paths a launch needs.
pub struct LaunchPlan<'a> {
    pub server_path: &'a PathBuf,
    pub model_path: &'a PathBuf,
}

/// The paths to launch with, or the complaint about the first one missing
/// (the server's path is checked before the model's).
pub fn launch_plan(settings: &Settings) -> (r: Result<LaunchPlan<'_>, String>)
    ensures
        match r {
            Ok(plan) => settings.llama_server_path == Some(*plan.server_path)
                && settings.model_path == Some(*plan.model_path),
            Err(e) => if settings.llama_server_path is None {
                e@ == "llama-server path not configured in Settings"@
            } else {
                settings.model_path is None && e@
                    == "model (.gguf) path not configured in Settings"@
            },
        },
{
    let server_path = match &settings.llama_server_path {
        Some(p) => p,
        None => return Err("llama-server path not configured in Settings".to_owned()),
    };
    let model_path = match &settings.model_path {
        Some(p) => p,
        None => return Err("model (.gguf) path not configured in Settings".to_owned()),
    };
    Ok(LaunchPlan { server_path, model_path })
}

/// The arguments that follow `--model <path>` on the server's command line.
pub open spec fn server_flags_spec(port: u16, context_size: u32) -> Seq<Seq<char>> {
    seq![
        "--port"@,
        decimal(port as nat),
        "--host"@,
        "127.0.0.1"@,
        "-c"@,
        decimal(context_size as nat),
        "--jinja"@,
    ]
}

/// The arguments that follow `--model <path>`: the port, the loopback host,
/// the context size and the Jinja chat template switch.
pub fn server_flags(port: u16, context_size: u32) -> (r: Vec<String>)
    ensures
        r@.map_values(|s: String| s@) == server_flags_spec(port, context_size),
{
    let mut r: Vec<String> = Vec::new();
    r.push("--port".to_owned());
    r.push(decimal_string(port as u64));
    r.push("--host".to_owned());
    r.push("127.0.0.1".to_owned());
    r.push("-c".to_owned());
    r.push(decimal_string(context_size as u64));
    r.push("--jinja".to_owned());
    assert(r@.map_values(|s: String| s@) =~= server_flags_spec(port, context_size));
    r
}

/// The port to start on: the preferred one when it is free, else the one the
/// system assigned, else the preferred one anyway.
pub fn choose_port(preferred: u16, preferred_free: bool, assigned: Option<u16>) -> (r: u16)
    ensures
        r == if preferred_free {
            preferred
        } else {
            match assigned {
                Some(p) => p,
                None => preferred,
            }
        },
{
    if preferred_free {
        preferred
    } else {
        match assigned {
            Some(p) => p,
            None => preferred,
        }
    }
}

// ---------------------------------------------------------------------------
// Waiting for the health check
// ---------------------------------------------------------------------------

/// The first pause between health checks, in milliseconds.
pub const HEALTH_FIRST_DELAY_MS: u64 = 200;

/// The longest pause between health checks, in milliseconds.
pub const HEALTH_MAX_DELAY_MS: u64 = 2000;

/// How long the server gets to become healthy, in seconds.
pub const HEALTH_TIMEOUT_SECS: u64 = 30;

/// The pause after one of `delay` milliseconds: doubled, at most 2 s.
pub open spec fn next_delay(delay: int) -> int {
    if 2 * delay < HEALTH_MAX_DELAY_MS {
        2 * delay
    } else {
        HEALTH_MAX_DELAY_MS as int
    }
}

/// The pause before the health check after `k` failed ones.
pub open spec fn delay_after(k: nat) -> int
    decreases k,
{
    if k == 0 {
        HEALTH_FIRST_DELAY_MS as int
    } else {
        next_delay(delay_after((k - 1) as nat))
    }
}

/// What to do after one look at the starting server.
pub enum HealthStep {
    /// It answered its health check.
    Healthy,
    /// It cannot become healthy; the message says why.
    Failed(String),
    /// Sleep this many milliseconds, then look again.
    Sleep(u64),
}

/// The wait for a starting server to answer its health check.
pub struct HealthWait {
    delay_ms: u64,
    checks: Ghost<nat>,
}

impl HealthWait {
    /// The pause that the next `Sleep` will ask for.
    pub closed spec fn delay(&self) -> int {
        self.delay_ms as int
    }

    /// How many times the wait has gone to sleep.
    pub closed spec fn sleeps(&self) -> nat {
        self.checks@
    }

    pub fn new() -> (r: HealthWait)
        ensures
            r.delay() == HEALTH_FIRST_DELAY_MS,
            r.sleeps() == 0,
            r.delay() == delay_after(r.sleeps()),
    {
        HealthWait { delay_ms: HEALTH_FIRST_DELAY_MS, checks: Ghost(0) }
    }

    /// One look at the starting server: `exit_status` describes its exit if
    /// the process has exited, `healthy` is whether the health check answered
    /// with success, `past_deadline` whether the time allowed has run out.
    /// An exit is reported first, then success, then the timeout; otherwise
    /// the caller sleeps, and the next pause is doubled up to 2 s. A failure
    /// is also recorded in `process`.
    pub fn step(
        &mut self,
        process: &mut LlmProcess,
        exit_status: Option<String>,
        healthy: bool,
        past_deadline: bool,
    ) -> (r: HealthStep)
        requires
            old(self).delay() == delay_after(old(self).sleeps()),
        ensures
            final(self).delay() == delay_after(final(self).sleeps()),
            final(process).port == old(process).port,
            match exit_status {
                Some(e) => match r {
                    HealthStep::Failed(m) => m@ == startup_exit_message(e@) && final(process).status@
                        == StatusView::Crashed(m@),
                    _ => false,
                },
                None => if healthy {
                    r is Healthy && final(process).status@ == old(process).status@
                } else if past_deadline {
                    match r {
                        HealthStep::Failed(m) => m@ == "timed out waiting for llama-server /health"@
                            && final(process).status@ == StatusView::Crashed(m@),
                        _ => false,
                    }
                } else {
                    &&& r == HealthStep::Sleep(old(self).delay() as u64)
                    &&& final(self).sleeps() == old(self).sleeps() + 1
                    &&& final(process).status@ == old(process).status@
                },
            },
    {
        match exit_status {
            Some(e) => {
                let message = wrap_exit("llama-server exited during startup (", e.as_str());
                process.mark_crashed(message.clone());
                return HealthStep::Failed(message);
            },
            None => {},
        }
        if healthy {
            return HealthStep::Healthy;
        }
        if past_deadline {
            let message = "timed out waiting for llama-server /health".to_owned();
            process.mark_crashed(message.clone());
            return HealthStep::Failed(message);
        }
        let pause = self.delay_ms;
        proof {
            lemma_delay_bounds(self.checks@);
        }
        self.delay_ms = if pause * 2 < HEALTH_MAX_DELAY_MS {
            pause * 2
        } else {
            HEALTH_MAX_DELAY_MS
        };
        self.checks = Ghost(self.checks@ + 1);
        HealthStep::Sleep(pause)
    }
}

/// Every pause between health checks is between 200 ms and 2 s.
pub proof fn lemma_delay_bounds(k: nat)
    ensures
        HEALTH_FIRST_DELAY_MS <= delay_after(k) <= HEALTH_MAX_DELAY_MS,
    decreases k,
{
    if k > 0 {
        lemma_delay_bounds((k - 1) as nat);
    }
}

/// The pause doubles from 200 ms (400, 800, 1600) until it reaches 2 s,
/// after the fourth sleep, and stays there.
pub proof fn lemma_delay_reaches_max(k: nat)
    ensures
        k == 0 ==> delay_after(k) == 200,
        k == 1 ==> delay_after(k) == 400,
        k == 2 ==> delay_after(k) == 800,
        k == 3 ==> delay_after(k) == 1600,
        k >= 4 ==> delay_after(k) == HEALTH_MAX_DELAY_MS,
    decreases k,
{
    if k > 0 {
        lemma_delay_reaches_max((k - 1) as nat);
    }
}

/// A process that is not ready (stopped by us, starting, or already known
/// to have crashed) is never reported as crashed, whatever its exit status.
pub proof fn law_only_ready_server_crashes(status: StatusView, exit_status: Option<Seq<char>>)
    requires
        status != StatusView::Ready,
    ensures
        polled(status, exit_status) == (status, None::<Seq<char>>),
{
}

/// A crash is reported once: after a poll reports one, the next poll
/// reports nothing, whatever it observes.
pub proof fn law_crash_reported_once(
    status: StatusView,
    first: Option<Seq<char>>,
    second: Option<Seq<char>>,
)
    requires
        polled(status, first).1 is Some,
    ensures
        polled(polled(status, first).0, second).1 is None,
{
}

} // verus!
