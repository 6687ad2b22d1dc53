//! Agents: opencode instances running in sub-directories of a session's
//! workspace. Data models, naming, port planning and command planning.

use vstd::prelude::*;
use vstd::string::*;
use crate::text::{
    char_to_uppercase, chars_of, decimal, decimal_string, digit, file_name, has_prefix,
    is_digit, is_lower, join_path, lines_chars, lines_of, lit, lower, lowercase_of, path_file_name,
    path_join, signed_decimal, signed_decimal_string, slice_chars, split_at_char, split_chars,
    string_of, strip_prefix, to_lowercase, trim, trim_chars, uppercase_of, ascii_lower,
};

verus! {

broadcast use vstd::string::group_string_axioms;

// ---------------------------------------------------------------------------
// Status
// ---------------------------------------------------------------------------

/// Agent status.
#[derive(Debug, Clone, Copy, PartialEq, Eq, Structural)]
pub enum AgentStatus {
    /// Agent is running (opencode serve is responding).
    Running,
    /// Agent is starting up.
    Starting,
    /// Agent is stopped (directory exists but opencode not running).
    Stopped,
    /// Agent failed to start or crashed.
    Failed,
}

/// The lowercase name of a status.
pub open spec fn status_name(s: AgentStatus) -> Seq<char> {
    match s {
        AgentStatus::Running => "running"@,
        AgentStatus::Starting => "starting"@,
        AgentStatus::Stopped => "stopped"@,
        AgentStatus::Failed => "failed"@,
    }
}

/// The status whose lowercase name is `l`, if any.
pub open spec fn status_from_name(l: Seq<char>) -> Option<AgentStatus> {
    if l == "running"@ {
        Some(AgentStatus::Running)
    } else if l == "starting"@ {
        Some(AgentStatus::Starting)
    } else if l == "stopped"@ {
        Some(AgentStatus::Stopped)
    } else if l == "failed"@ {
        Some(AgentStatus::Failed)
    } else {
        None
    }
}

/// `s` with ASCII capitals turned into lowercase letters.
pub open spec fn ascii_lowercase(s: Seq<char>) -> Seq<char> {
    Seq::new(s.len(), |i: int| ascii_lower(s[i]))
}

/// Every character of `s` is ASCII.
pub open spec fn all_ascii(s: Seq<char>) -> bool {
    forall|i: int| 0 <= i < s.len() ==> (#[trigger] s[i] as u32) < 0x80
}

/// The status a string names, ignoring case.
pub open spec fn parsed_status(s: Seq<char>) -> Result<AgentStatus, Seq<char>> {
    match status_from_name(lowercase_of(s)) {
        Some(st) => Ok(st),
        None => Err("unknown agent status: "@ + s),
    }
}

impl AgentStatus {
    /// The lowercase name, as shown to users.
    pub fn display_string(&self) -> (r: String)
        ensures
            r@ == status_name(*self),
    {
        match self {
            AgentStatus::Running => lit("running"),
            AgentStatus::Starting => lit("starting"),
            AgentStatus::Stopped => lit("stopped"),
            AgentStatus::Failed => lit("failed"),
        }
    }

    /// Parse a status name, ignoring case.
    pub fn parse(s: &str) -> (r: Result<AgentStatus, String>)
        ensures
            match parsed_status(s@) {
                Ok(st) => r == Ok::<AgentStatus, String>(st),
                Err(m) => r matches Err(e) && e@ == m,
            },
            all_ascii(s@) ==> lowercase_of(s@) == ascii_lowercase(s@),
    {
        let l = to_lowercase(s);
        assert(all_ascii(s@) ==> l@ =~= ascii_lowercase(s@));
        if l == lit("running") {
            Ok(AgentStatus::Running)
        } else if l == lit("starting") {
            Ok(AgentStatus::Starting)
        } else if l == lit("stopped") {
            Ok(AgentStatus::Stopped)
        } else if l == lit("failed") {
            Ok(AgentStatus::Failed)
        } else {
            let mut m = lit("unknown agent status: ");
            m.append(s);
            Err(m)
        }
    }
}

/// Reading back the name of a status gives the status: names are ASCII
/// lowercase, so lowercasing leaves them unchanged.
pub proof fn law_status_name_round_trip(st: AgentStatus)
    ensures
        all_ascii(status_name(st)),
        status_from_name(ascii_lowercase(status_name(st))) == Some(st),
{
    reveal_strlit("running");
    reveal_strlit("starting");
    reveal_strlit("stopped");
    reveal_strlit("failed");
    let n = status_name(st);
    assert(ascii_lowercase(n) =~= n);
    assert("running"@.len() == 7);
    assert("starting"@.len() == 8);
    assert("stopped"@.len() == 7);
    assert("running"@[1] == 'u');
    assert("stopped"@[1] == 't');
    assert("running"@ != "starting"@);
    assert("running"@ != "stopped"@);
    assert("running"@ != "failed"@);
    assert("starting"@ != "stopped"@);
    assert("starting"@ != "failed"@);
    assert("stopped"@ != "failed"@);
}

impl std::str::FromStr for AgentStatus {
    type Err = String;

    fn from_str(s: &str) -> (r: Result<Self, Self::Err>)
        ensures
            match parsed_status(s@) {
                Ok(st) => r == Ok::<AgentStatus, String>(st),
                Err(m) => r matches Err(e) && e@ == m,
            },
    {
        AgentStatus::parse(s)
    }
}

// ---------------------------------------------------------------------------
// Colors and names
// ---------------------------------------------------------------------------

/// The palette agents are colored from.
pub open spec fn agent_colors() -> Seq<Seq<char>> {
    seq![
        "#3B82F6"@,
        "#10B981"@,
        "#F59E0B"@,
        "#EF4444"@,
        "#8B5CF6"@,
        "#EC4899"@,
        "#06B6D4"@,
        "#84CC16"@,
    ]
}

/// Sum of a byte sequence.
pub open spec fn byte_sum(b: Seq<u8>) -> nat
    decreases b.len(),
{
    if b.len() == 0 {
        0
    } else {
        byte_sum(b.drop_last()) + b.last() as nat
    }
}

/// The color of an agent: the palette entry at the sum of the UTF-8 bytes
/// of its name, modulo the palette size.
pub open spec fn color_of(name: Seq<char>) -> Seq<char> {
    agent_colors()[(byte_sum(vstd::utf8::encode_utf8(name)) % 8) as int]
}

/// Derive a color from an agent name (deterministic).
pub fn agent_color(name: &str) -> (r: String)
    ensures
        r@ == color_of(name@),
{
    let bytes = name.as_bytes();
    let mut acc: usize = 0;
    let mut i: usize = 0;
    while i < bytes.len()
        invariant
            i <= bytes@.len(),
            acc < 8,
            acc == byte_sum(bytes@.subrange(0, i as int)) % 8,
        decreases bytes.len() - i,
    {
        let b = bytes[i];
        assert(bytes@.subrange(0, i + 1).drop_last() =~= bytes@.subrange(0, i as int));
        acc = (acc + b as usize) % 8;
        i = i + 1;
    }
    assert(bytes@.subrange(0, i as int) =~= bytes@);
    let r = match acc {
        0 => lit("#3B82F6"),
        1 => lit("#10B981"),
        2 => lit("#F59E0B"),
        3 => lit("#EF4444"),
        4 => lit("#8B5CF6"),
        5 => lit("#EC4899"),
        6 => lit("#06B6D4"),
        _ => lit("#84CC16"),
    };
    r
}

/// A word with its first character in uppercase.
pub open spec fn capitalize(w: Seq<char>) -> Seq<char> {
    if w.len() == 0 {
        w
    } else {
        uppercase_of(w[0]) + w.drop_first()
    }
}

/// The words joined by `sep`, as `[String]::join` does.
pub open spec fn join_words(ws: Seq<Seq<char>>, sep: Seq<char>) -> Seq<char>
    decreases ws.len(),
{
    if ws.len() == 0 {
        Seq::empty()
    } else if ws.len() == 1 {
        ws[0]
    } else {
        join_words(ws.drop_last(), sep) + sep + ws.last()
    }
}

/// The display name of an agent id: its `-`-separated words capitalized and
/// joined by spaces ("doc-writer" becomes "Doc Writer").
pub open spec fn display_name(id: Seq<char>) -> Seq<char> {
    let parts = split_at_char(id, '-');
    join_words(Seq::new(parts.len(), |i: int| capitalize(parts[i])), " "@)
}

fn capitalize_word(w: &Vec<char>) -> (r: String)
    ensures
        r@ == capitalize(w@),
{
    if w.len() == 0 {
        return String::new();
    }
    let mut r = char_to_uppercase(w[0]);
    let rest = slice_chars(w, 1, w.len());
    let rs = string_of(&rest);
    r.append(rs.as_str());
    assert(rest@ =~= w@.drop_first());
    r
}

/// Format agent name from ID (e.g., "doc-writer" -> "Doc Writer").
pub fn format_agent_name(id: &str) -> (r: String)
    ensures
        r@ == display_name(id@),
{
    let v = chars_of(id);
    let parts = split_chars(&v, '-');
    let ghost sp = split_at_char(id@, '-');
    let ghost caps = Seq::new(sp.len(), |i: int| capitalize(sp[i]));
    proof {
        crate::text::lemma_split_nonempty(id@, '-');
    }
    let mut r = capitalize_word(&parts[0]);
    assert(caps.subrange(0, 1) =~= seq![caps[0]]);
    let mut i: usize = 1;
    while i < parts.len()
        invariant
            1 <= i <= parts@.len(),
            parts@.len() == sp.len(),
            caps == Seq::new(sp.len(), |i: int| capitalize(sp[i])),
            forall|k: int| 0 <= k < parts@.len() ==> (#[trigger] parts@[k])@ == sp[k],
            r@ == join_words(caps.subrange(0, i as int), " "@),
        decreases parts.len() - i,
    {
        let w = capitalize_word(&parts[i]);
        r.append(" ");
        r.append(w.as_str());
        proof {
            let s = caps.subrange(0, i + 1);
            assert(s.drop_last() =~= caps.subrange(0, i as int));
            assert(s.last() == caps[i as int]);
        }
        i = i + 1;
    }
    assert(caps.subrange(0, i as int) =~= caps);
    r
}

// ---------------------------------------------------------------------------
// Agent information
// ---------------------------------------------------------------------------

/// Information about an agent.
#[derive(Debug, Clone)]
pub struct AgentInfo {
    /// Agent ID (directory name, or "main" for workspace root).
    pub id: String,
    /// Human-readable name (derived from id).
    pub name: String,
    /// Directory path inside the container.
    pub directory: String,
    /// Internal port (inside container, None if stopped).
    pub port: Option<u16>,
    /// External port (mapped to host, for clients to connect to).
    pub external_port: Option<u16>,
    /// Current status.
    pub status: AgentStatus,
    /// Whether the directory has an AGENTS.md file.
    pub has_agents_md: bool,
    /// Whether the directory is a git repository.
    pub has_git: bool,
    /// Color for UI (derived from name hash).
    pub color: String,
    /// Optional runtime details from the agent engine (opencode).
    pub runtime: Option<AgentRuntimeInfo>,
}

/// Where agent directories live inside a container.
pub open spec fn container_workspace() -> Seq<char> {
    "/home/dev/workspace"@
}

impl AgentInfo {
    /// The main workspace agent, served on the session's opencode port.
    pub fn main(
        internal_port: u16,
        external_port: u16,
        status: AgentStatus,
        has_agents_md: bool,
        has_git: bool,
        runtime: Option<AgentRuntimeInfo>,
    ) -> (r: Self)
        ensures
            r.id@ == "main"@,
            r.name@ == "Main Workspace"@,
            r.directory@ == container_workspace(),
            r.port == Some(internal_port),
            r.external_port == Some(external_port),
            r.status == status,
            r.has_agents_md == has_agents_md,
            r.has_git == has_git,
            r.color@ == color_of("main"@),
            r.runtime == runtime,
    {
        AgentInfo {
            id: lit("main"),
            name: lit("Main Workspace"),
            directory: lit("/home/dev/workspace"),
            port: Some(internal_port),
            external_port: Some(external_port),
            status,
            has_agents_md,
            has_git,
            color: agent_color("main"),
            runtime,
        }
    }

    /// An agent in the workspace sub-directory `id`.
    pub fn sub_agent(
        id: String,
        internal_port: Option<u16>,
        external_port: Option<u16>,
        status: AgentStatus,
        has_agents_md: bool,
        has_git: bool,
        runtime: Option<AgentRuntimeInfo>,
    ) -> (r: Self)
        ensures
            r.id@ == id@,
            r.name@ == display_name(id@),
            r.directory@ == container_workspace() + "/"@ + id@,
            r.port == internal_port,
            r.external_port == external_port,
            r.status == status,
            r.has_agents_md == has_agents_md,
            r.has_git == has_git,
            r.color@ == color_of(id@),
            r.runtime == runtime,
    {
        let color = agent_color(id.as_str());
        let name = format_agent_name(id.as_str());
        let mut directory = lit("/home/dev/workspace/");
        directory.append(id.as_str());
        proof {
            reveal_strlit("/home/dev/workspace/");
            reveal_strlit("/home/dev/workspace");
            reveal_strlit("/");
        }
        assert(directory@ =~= container_workspace() + "/"@ + id@);
        AgentInfo {
            directory,
            id,
            name,
            port: internal_port,
            external_port,
            status,
            has_agents_md,
            has_git,
            color,
            runtime,
        }
    }
}

/// Runtime details reported by an agent's opencode server.
#[derive(Debug, Clone)]
pub struct AgentRuntimeInfo {
    pub directory: Option<String>,
    pub sessions: Option<Vec<OpenCodeSessionInfo>>,
    pub status_list: Option<Vec<OpenCodeSessionStatus>>,
    pub context: Option<OpenCodeContextInfo>,
}

/// An opencode session as listed by the agent.
#[derive(Debug, Clone)]
pub struct OpenCodeSessionInfo {
    pub id: String,
    pub title: String,
    pub time: OpenCodeSessionTime,
}

/// Creation and update times of an opencode session.
#[derive(Debug, Clone, Copy)]
pub struct OpenCodeSessionTime {
    pub created: i64,
    pub updated: i64,
}

/// Status of an opencode session.
#[derive(Debug, Clone)]
pub struct OpenCodeSessionStatus {
    pub status_type: String,
    pub attempt: Option<u32>,
    pub message: Option<String>,
}

/// Context-window usage of an agent's most recent session.
#[derive(Debug, Clone)]
pub struct OpenCodeContextInfo {
    pub session_id: String,
    pub session_title: String,
    pub model_id: String,
    pub provider_id: String,
    pub current_tokens: u64,
    pub total_tokens: OpenCodeTokenTotals,
    pub limit: OpenCodeTokenLimit,
    pub usage: u64,
}

/// Token totals over a session.
#[derive(Debug, Clone, Copy)]
pub struct OpenCodeTokenTotals {
    pub input: u64,
    pub output: u64,
    pub reasoning: u64,
    pub cache: OpenCodeTokenCache,
}

/// Cache token totals.
#[derive(Debug, Clone, Copy)]
pub struct OpenCodeTokenCache {
    pub read: u64,
    pub write: u64,
}

/// Token limits of a model.
#[derive(Debug, Clone, Copy)]
pub struct OpenCodeTokenLimit {
    pub context: u64,
    pub output: u64,
}

/// Request to start a new agent.
#[derive(Debug, Clone)]
pub struct StartAgentRequest {
    /// Directory name (relative to ~/workspace/).
    pub directory: String,
}

/// Request to create a new agent.
#[derive(Debug, Clone)]
pub struct CreateAgentRequest {
    /// Agent name (becomes directory name).
    pub name: String,
    /// Agent description (becomes AGENTS.md content).
    pub description: String,
    /// Optional scaffolding source for the agent directory.
    pub scaffold: Option<AgentScaffoldRequest>,
}

/// Scaffolding source for a new agent directory.
#[derive(Debug, Clone)]
pub enum AgentScaffoldRequest {
    /// Use the configured scaffold tool to create a project from a template.
    Template { template: String, github: bool, private: bool, description: Option<String> },
}

/// Execute a command in a session workspace.
#[derive(Debug, Clone)]
pub struct AgentExecRequest {
    /// Command to execute (binary or shell command when shell=true).
    pub command: String,
    /// Optional arguments for the command when shell=false.
    pub args: Vec<String>,
    /// Optional working directory (absolute or relative to workspace root).
    pub cwd: Option<String>,
    /// Run command via `bash -lc`.
    pub shell: bool,
    /// Run command without waiting for output.
    pub detach: bool,
}

/// Response when starting an agent.
#[derive(Debug, Clone)]
pub struct StartAgentResponse {
    pub id: String,
    /// Internal port (inside container).
    pub port: u16,
    /// External port (mapped to host, for clients to connect to).
    pub external_port: u16,
    pub status: AgentStatus,
}

/// Response when stopping an agent.
#[derive(Debug, Clone, Copy)]
pub struct StopAgentResponse {
    pub stopped: bool,
}

/// Response when creating a new agent.
#[derive(Debug, Clone)]
pub struct CreateAgentResponse {
    /// Agent ID (directory name).
    pub id: String,
    /// Directory path inside the container.
    pub directory: String,
    /// Color for UI (derived from name hash).
    pub color: String,
}

/// Response for a command execution.
#[derive(Debug, Clone)]
pub struct AgentExecResponse {
    pub output: Option<String>,
}

/// Every agent gets one of the eight palette colors, the same one each
/// time for the same name.
pub proof fn law_color_in_palette(name: Seq<char>)
    ensures
        agent_colors().contains(color_of(name)),
{
    let k = (byte_sum(vstd::utf8::encode_utf8(name)) % 8) as int;
    assert(0 <= k < 8);
    assert(agent_colors()[k] == color_of(name));
}

/// Removing one byte takes exactly that byte off the sum.
proof fn lemma_byte_sum_remove(b: Seq<u8>, k: int)
    requires
        0 <= k < b.len(),
    ensures
        byte_sum(b) == byte_sum(b.remove(k)) + b[k] as nat,
    decreases b.len(),
{
    if k == b.len() - 1 {
        assert(b.remove(k) =~= b.drop_last());
    } else {
        lemma_byte_sum_remove(b.drop_last(), k);
        assert(b.drop_last().remove(k) =~= b.remove(k).drop_last());
        assert(b.remove(k).last() == b.last());
    }
}

/// Byte sequences holding the same bytes have the same sum.
proof fn lemma_byte_sum_permutation(a: Seq<u8>, b: Seq<u8>)
    requires
        a.to_multiset() == b.to_multiset(),
    ensures
        byte_sum(a) == byte_sum(b),
    decreases a.len(),
{
    broadcast use vstd::seq_lib::group_to_multiset_ensures;

    if a.len() == 0 {
        assert(b.len() == b.to_multiset().len());
    } else {
        let x = a.last();
        assert(a.drop_last().push(x) =~= a);
        assert(a.to_multiset().count(x) > 0);
        assert(b.to_multiset().count(x) > 0);
        assert(b.contains(x));
        let k = choose|k: int| 0 <= k < b.len() && b[k] == x;
        lemma_byte_sum_remove(b, k);
        assert(b.remove(k).to_multiset() == b.to_multiset().remove(x));
        assert(a.drop_last().to_multiset() =~= a.to_multiset().remove(x));
        lemma_byte_sum_permutation(a.drop_last(), b.remove(k));
    }
}

/// Names whose UTF-8 bytes are the same bytes in another order share a
/// color.
pub proof fn law_color_permutation(a: Seq<char>, b: Seq<char>)
    requires
        vstd::utf8::encode_utf8(a).to_multiset() == vstd::utf8::encode_utf8(b).to_multiset(),
    ensures
        color_of(a) == color_of(b),
{
    lemma_byte_sum_permutation(vstd::utf8::encode_utf8(a), vstd::utf8::encode_utf8(b));
}

} // verus!
