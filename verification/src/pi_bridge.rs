//! The Pi bridge's decisions: the agent's command line, request IDs, and
//! the HTTP answer to a command for each way waiting for the agent's reply
//! can end.
//!
//! Running the agent, the channels and the HTTP and WebSocket server are
//! the caller's part. JSON payloads are held as JSON text.

use vstd::prelude::*;
use crate::text::{decimal, decimal_string, lit, strings_view};

verus! {

broadcast use vstd::string::group_string_axioms;

/// The agent's arguments: RPC mode; `--continue` to resume the previous
/// session; then the provider and the model when given.
pub open spec fn pi_argv(
    continue_session: bool,
    provider: Option<Seq<char>>,
    model: Option<Seq<char>>,
) -> Seq<Seq<char>> {
    let base = seq!["--mode"@, "rpc"@];
    let c = if continue_session {
        base.push("--continue"@)
    } else {
        base
    };
    let p = match provider {
        Some(v) => c.push("--provider"@).push(v),
        None => c,
    };
    match model {
        Some(m) => p.push("--model"@).push(m),
        None => p,
    }
}

/// The agent's command-line arguments (see `pi_argv`).
pub fn pi_args(continue_session: bool, provider: &Option<String>, model: &Option<String>) -> (r:
    Vec<String>)
    ensures
        strings_view(r@) == pi_argv(
            continue_session,
            crate::agent_rpc::opt_view(*provider),
            crate::agent_rpc::opt_view(*model),
        ),
{
    let mut r: Vec<String> = Vec::new();
    r.push(lit("--mode"));
    r.push(lit("rpc"));
    if continue_session {
        r.push(lit("--continue"));
    }
    match provider {
        Some(p) => {
            r.push(lit("--provider"));
            r.push(p.clone());
        },
        None => {},
    }
    match model {
        Some(m) => {
            r.push(lit("--model"));
            r.push(m.clone());
        },
        None => {},
    }
    assert(strings_view(r@) =~= pi_argv(
        continue_session,
        crate::agent_rpc::opt_view(*provider),
        crate::agent_rpc::opt_view(*model),
    ));
    r
}

/// Hands out request IDs `bridge-req-1`, `bridge-req-2`, and so on.
pub struct RequestCounter {
    issued: u64,
}

impl RequestCounter {
    /// How many IDs were handed out.
    pub closed spec fn count(&self) -> nat {
        self.issued as nat
    }

    /// A counter that has handed out nothing.
    pub fn new() -> (r: Self)
        ensures
            r.count() == 0,
    {
        RequestCounter { issued: 0 }
    }

    /// The next request ID: `bridge-req-` and the count after this one.
    pub fn next_request_id(&mut self) -> (r: String)
        requires
            old(self).count() < u64::MAX,
        ensures
            final(self).count() == old(self).count() + 1,
            r@ == "bridge-req-"@ + decimal(final(self).count()),
    {
        self.issued = self.issued + 1;
        let mut r = lit("bridge-req-");
        let d = decimal_string(self.issued);
        r.append(d.as_str());
        r
    }
}

/// The answer to an HTTP command.
#[derive(Debug, Clone)]
pub struct CommandResponse {
    pub success: bool,
    pub data: Option<String>,
    pub error: Option<String>,
}

/// The agent's reply to a command, as far as the bridge reads it: its
/// success flag when it is a boolean, its data, and its error when it is a
/// string.
#[derive(Debug, Clone)]
pub struct PiReply {
    pub success: Option<bool>,
    pub data: Option<String>,
    pub error: Option<String>,
}

/// How waiting for the agent's reply ended.
#[derive(Debug, Clone)]
pub enum WaitOutcome {
    Replied(PiReply),
    /// The reply channel closed without a reply.
    ChannelClosed,
    /// No reply came within the wait.
    TimedOut,
}

/// A failed answer with the message.
pub open spec fn failed_with(r: CommandResponse, message: Seq<char>) -> bool {
    &&& !r.success
    &&& r.data is None
    &&& r.error matches Some(e) && e@ == message
}

/// The answer to a command while the agent is not running: 503, "Pi
/// process not running".
pub fn not_running_answer() -> (r: (u16, CommandResponse))
    ensures
        r.0 == 503,
        failed_with(r.1, "Pi process not running"@),
{
    (503, CommandResponse { success: false, data: None, error: Some(lit("Pi process not running")) })
}

/// The answer when the command could not be written out as JSON: 400.
pub fn serialize_failure_answer(detail: &str) -> (r: (u16, CommandResponse))
    ensures
        r.0 == 400,
        failed_with(r.1, "Failed to serialize command: "@ + detail@),
{
    let mut m = lit("Failed to serialize command: ");
    m.append(detail);
    (400, CommandResponse { success: false, data: None, error: Some(m) })
}

/// The answer when the command could not be handed to the agent: 500.
pub fn send_failure_answer(detail: &str) -> (r: (u16, CommandResponse))
    ensures
        r.0 == 500,
        failed_with(r.1, "Failed to send command: "@ + detail@),
{
    let mut m = lit("Failed to send command: ");
    m.append(detail);
    (500, CommandResponse { success: false, data: None, error: Some(m) })
}

/// The answer once waiting ended: a reply is passed on with status 200 (a
/// reply without a boolean success flag counts as failed); a closed
/// channel gives 500, "Response channel closed"; a timeout gives 504,
/// "Timeout waiting for Pi response".
pub fn command_answer(outcome: WaitOutcome) -> (r: (u16, CommandResponse))
    ensures
        match outcome {
            WaitOutcome::Replied(p) => r.0 == 200 && r.1.success == (p.success == Some(true))
                && r.1.data == p.data && r.1.error == p.error,
            WaitOutcome::ChannelClosed => r.0 == 500 && failed_with(r.1, "Response channel closed"@),
            WaitOutcome::TimedOut => r.0 == 504 && failed_with(
                r.1,
                "Timeout waiting for Pi response"@,
            ),
        },
{
    match outcome {
        WaitOutcome::Replied(p) => {
            let success = match p.success {
                Some(b) => b,
                None => false,
            };
            (200, CommandResponse { success, data: p.data, error: p.error })
        },
        WaitOutcome::ChannelClosed => (
            500,
            CommandResponse {
                success: false,
                data: None,
                error: Some(lit("Response channel closed")),
            },
        ),
        WaitOutcome::TimedOut => (
            504,
            CommandResponse {
                success: false,
                data: None,
                error: Some(lit("Timeout waiting for Pi response")),
            },
        ),
    }
}

/// Health check answer.
#[derive(Debug, Clone)]
pub struct BridgeHealth {
    pub status: String,
    pub pi_running: bool,
}

/// The health answer: status "ok" and whether the agent runs.
pub fn bridge_health(pi_running: bool) -> (r: BridgeHealth)
    ensures
        r.status@ == "ok"@,
        r.pi_running == pi_running,
{
    BridgeHealth { status: lit("ok"), pi_running }
}

/// Request IDs never repeat: the IDs handed out at two different counts
/// differ, so no two pending commands share an ID.
pub proof fn law_request_ids_unique(a: nat, b: nat)
    requires
        a != b,
    ensures
        "bridge-req-"@ + decimal(a) != "bridge-req-"@ + decimal(b),
{
    crate::text::lemma_decimal_injective(a, b);
    let p = "bridge-req-"@;
    if p + decimal(a) == p + decimal(b) {
        assert((p + decimal(a)).subrange(p.len() as int, (p + decimal(a)).len() as int) =~= decimal(a));
        assert((p + decimal(b)).subrange(p.len() as int, (p + decimal(b)).len() as int) =~= decimal(b));
    }
}

} // verus!
