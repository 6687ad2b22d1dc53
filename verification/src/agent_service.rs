//! Decisions of the agent service: directory names, workspace paths, port
//! allocation, and the commands run to start, stop and scaffold agents.
//!
//! The service talks to a container runtime, a session store and an agent
//! repository; those calls stay with the caller. What is decided from their
//! answers is computed here.

use vstd::prelude::*;
use vstd::string::*;
use crate::agent::{AgentExecRequest, AgentScaffoldRequest, AgentStatus, container_workspace};
use crate::text::{
    chars_of, decimal, decimal_string, digit, file_name, is_digit, is_lower, join_path,
    lines_chars, lines_of, lit, lower, path_file_name, path_join, signed_decimal,
    signed_decimal_string, slice_chars, string_of, strip_prefix, strings_view, trim, trim_chars, has_prefix,
};

verus! {

broadcast use vstd::string::group_string_axioms;

/// Main agent port (started by entrypoint).
pub const MAIN_AGENT_PORT: u16 = 41820;

/// Base port for sub-agents inside the container.
pub const INTERNAL_AGENT_BASE_PORT: u16 = 4001;

/// Errors of the agent service, with the message shown to clients.
#[derive(Debug)]
pub struct AgentError {
    pub message: String,
}

fn agent_error(m: String) -> (r: AgentError)
    ensures
        r.message@ == m@,
{
    AgentError { message: m }
}

/// How a session runs its workspace.
#[derive(Debug, Clone, Copy, PartialEq, Eq, Structural)]
pub enum RuntimeMode {
    /// Processes run directly on the host.
    Local,
    /// Processes run inside a container.
    Container,
}

/// The parts of a session record that agent management reads.
#[derive(Debug, Clone)]
pub struct Session {
    /// Session ID.
    pub id: String,
    /// Container ID, once the container exists.
    pub container_id: Option<String>,
    /// Host directory holding the session's files.
    pub workspace_path: String,
    /// External port of the main opencode server.
    pub opencode_port: i64,
    /// First external port of the sub-agent range, if any.
    pub agent_base_port: Option<i64>,
    /// Size of the sub-agent port range (10 when unset).
    pub max_agents: Option<i64>,
    /// How the session runs.
    pub runtime_mode: RuntimeMode,
    /// Directory with the session's persona, if any.
    pub persona_path: Option<String>,
    /// Port of the session's memory service, if enabled.
    pub mmry_port: Option<i64>,
}

/// Agent scaffolding configuration: the external command used to scaffold
/// new agent directories.
#[derive(Debug, Clone)]
pub struct ScaffoldConfig {
    /// Binary to use for scaffolding (e.g., "byt", "cookiecutter").
    pub binary: String,
    /// Subcommand to invoke (e.g., "new" for "byt new").
    pub subcommand: String,
    /// Argument introducing the template name (e.g., "--template").
    pub template_arg: String,
    /// Argument introducing the output directory.
    pub output_arg: String,
    /// Argument to create a GitHub repo.
    pub github_arg: Option<String>,
    /// Argument to make the repo private.
    pub private_arg: Option<String>,
    /// Argument introducing the description.
    pub description_arg: Option<String>,
}

impl Default for ScaffoldConfig {
    fn default() -> (r: Self)
        ensures
            r.binary@.len() == 0,
            r.subcommand@.len() == 0,
            r.template_arg@.len() == 0,
            r.output_arg@.len() == 0,
            r.github_arg is None,
            r.private_arg is None,
            r.description_arg is None,
    {
        ScaffoldConfig {
            binary: String::new(),
            subcommand: String::new(),
            template_arg: String::new(),
            output_arg: String::new(),
            github_arg: None,
            private_arg: None,
            description_arg: None,
        }
    }
}

/// Agent management service.
#[derive(Debug, Clone)]
pub struct AgentService {
    /// How new agent directories are scaffolded.
    pub scaffold_config: ScaffoldConfig,
}

// ---------------------------------------------------------------------------
// Directory names
// ---------------------------------------------------------------------------

/// Characters allowed in agent directory names.
pub open spec fn is_agent_char(c: char) -> bool {
    is_lower(c) || is_digit(c) || c == '-'
}

/// `s` with every character outside `is_agent_char` removed.
pub open spec fn agent_chars(s: Seq<char>) -> Seq<char>
    decreases s.len(),
{
    if s.len() == 0 {
        s
    } else if is_agent_char(s.last()) {
        agent_chars(s.drop_last()).push(s.last())
    } else {
        agent_chars(s.drop_last())
    }
}

/// `s` contains two consecutive hyphens.
pub open spec fn has_double_hyphen(s: Seq<char>) -> bool {
    exists|i: int| 0 <= i && i + 1 < s.len() && #[trigger] s[i] == '-' && s[i + 1] == '-'
}

/// The agent id a requested directory name yields, or the error message.
pub open spec fn agent_directory_result(d: Seq<char>) -> Result<Seq<char>, Seq<char>> {
    let s = agent_chars(d);
    if s.len() == 0 {
        Err("invalid agent directory name"@)
    } else if s[0] == '-' || s.last() == '-' {
        Err("agent directory cannot start or end with hyphen"@)
    } else if has_double_hyphen(s) {
        Err("agent directory cannot contain consecutive hyphens"@)
    } else {
        Ok(s)
    }
}

/// The result `r` carries what `expected` describes.
pub open spec fn string_result_is(r: Result<String, AgentError>, expected: Result<Seq<char>, Seq<char>>) -> bool {
    match expected {
        Ok(s) => r matches Ok(v) && v@ == s,
        Err(m) => r matches Err(e) && e.message@ == m,
    }
}

/// The workspace directory of a session on the host.
pub open spec fn session_workspace_root(workspace_path: Seq<char>) -> Seq<char> {
    path_join(workspace_path, "workspace"@)
}

/// The agent id named by the last component of `path`, when it is a valid
/// agent directory name as it stands.
pub open spec fn agent_id_from_path(path: Seq<char>) -> Option<Seq<char>> {
    match file_name(path) {
        Some(name) => if agent_directory_result(name) is Ok {
            Some(name)
        } else {
            None
        },
        None => None,
    }
}

impl AgentService {
    /// A service with the default scaffold configuration.
    pub fn new() -> (r: Self)
        ensures
            r.scaffold_config.binary@.len() == 0,
            r.scaffold_config.github_arg is None,
            r.scaffold_config.private_arg is None,
            r.scaffold_config.description_arg is None,
    {
        AgentService { scaffold_config: ScaffoldConfig::default() }
    }

    /// A service with a custom scaffold configuration.
    pub fn with_scaffold_config(scaffold_config: ScaffoldConfig) -> (r: Self)
        ensures
            r.scaffold_config == scaffold_config,
    {
        AgentService { scaffold_config }
    }

    /// Sanitize a requested agent directory name: keep lowercase letters,
    /// digits and hyphens, then refuse empty names, names starting or ending
    /// with a hyphen and names with consecutive hyphens.
    pub fn validate_agent_directory(&self, directory: &str) -> (r: Result<String, AgentError>)
        ensures
            string_result_is(r, agent_directory_result(directory@)),
    {
        let v = chars_of(directory);
        let mut kept: Vec<char> = Vec::new();
        let mut i: usize = 0;
        while i < v.len()
            invariant
                i <= v@.len(),
                kept@ == agent_chars(v@.subrange(0, i as int)),
            decreases v.len() - i,
        {
            let c = v[i];
            assert(v@.subrange(0, i + 1).drop_last() =~= v@.subrange(0, i as int));
            if lower(c) || digit(c) || c == '-' {
                kept.push(c);
            }
            i = i + 1;
        }
        assert(v@.subrange(0, i as int) =~= v@);
        assert(kept@ == agent_chars(directory@));
        if kept.len() == 0 {
            return Err(agent_error(lit("invalid agent directory name")));
        }
        if kept[0] == '-' || kept[kept.len() - 1] == '-' {
            return Err(agent_error(lit("agent directory cannot start or end with hyphen")));
        }
        let mut j: usize = 0;
        while j < kept.len()
            invariant
                j <= kept@.len(),
                kept@ == agent_chars(directory@),
                kept@.len() > 0,
                kept@[0] != '-',
                kept@.last() != '-',
                forall|k: int| 0 <= k < j && k + 1 < kept@.len() ==> !(#[trigger] kept@[k] == '-'
                    && kept@[k + 1] == '-'),
            decreases kept.len() - j,
        {
            if j + 1 < kept.len() && kept[j] == '-' && kept[j + 1] == '-' {
                return Err(agent_error(lit("agent directory cannot contain consecutive hyphens")));
            }
            j = j + 1;
        }
        Ok(string_of(&kept))
    }

    /// The workspace directory of a session whose files live at
    /// `workspace_path` (its `workspace` sub-directory).
    pub fn workspace_root(&self, workspace_path: &str) -> (r: String)
        ensures
            r@ == session_workspace_root(workspace_path@),
    {
        join_path(workspace_path, "workspace")
    }

    /// An absolute `path` as it is; a relative one under `workspace_root`.
    pub fn resolve_workspace_path(&self, workspace_root: &str, path: &str) -> (r: String)
        ensures
            r@ == path_join(workspace_root@, path@),
    {
        join_path(workspace_root, path)
    }

    /// The agent id a path names: its last component, when that is a valid
    /// agent directory name unchanged by sanitizing.
    pub fn extract_agent_id_from_path(&self, path: &str) -> (r: Option<String>)
        ensures
            match agent_id_from_path(path@) {
                Some(id) => r matches Some(s) && s@ == id,
                None => r is None,
            },
    {
        match path_file_name(path) {
            Some(name) => {
                let s = string_of(&name);
                if self.validate_agent_directory(s.as_str()).is_ok() {
                    Some(s)
                } else {
                    None
                }
            },
            None => None,
        }
    }
}

// ---------------------------------------------------------------------------
// Ports
// ---------------------------------------------------------------------------

/// The first offset `i` in `[from, max)` whose internal port `4001 + i` is
/// not among `used`.
pub open spec fn first_free_offset(used: Seq<u16>, from: int, max: int) -> Option<int>
    decreases max - from,
{
    if from >= max {
        None
    } else if used.contains((4001 + from) as u16) {
        first_free_offset(used, from + 1, max)
    } else {
        Some(from)
    }
}

/// The port range size of a session (10 when unset).
pub open spec fn max_agents_of(s: Session) -> int {
    match s.max_agents {
        Some(m) => m as int,
        None => 10,
    }
}

/// The ports `allocate_agent_ports` hands out, or the error message.
pub open spec fn port_allocation(s: Session, used: Seq<u16>) -> Result<(u16, u16), Seq<char>> {
    match s.agent_base_port {
        None => Err("session has no agent port range configured"@),
        Some(base) => match first_free_offset(used, 0, max_agents_of(s)) {
            Some(i) => Ok(((4001 + i) as u16, (base + i) as u16)),
            None => Err(
                "no available ports for sub-agents (max "@ + signed_decimal(max_agents_of(s))
                    + " reached)"@,
            ),
        },
    }
}

/// The internal and external port for a new sub-agent of `session`, given
/// the internal ports its running agents hold: the first offset in the
/// session's range whose internal port is free.
pub fn allocate_agent_ports(session: &Session, running_internal_ports: &Vec<u16>) -> (r: Result<
    (u16, u16),
    AgentError,
>)
    requires
        max_agents_of(*session) <= 61535,
        session.agent_base_port matches Some(b) ==> b + max_agents_of(*session) <= i64::MAX,
    ensures
        match port_allocation(*session, running_internal_ports@) {
            Ok(p) => r == Ok::<(u16, u16), AgentError>(p),
            Err(m) => r matches Err(e) && e.message@ == m,
        },
{
    let base = match session.agent_base_port {
        Some(b) => b,
        None => {
            return Err(agent_error(lit("session has no agent port range configured")));
        },
    };
    let max: i64 = match session.max_agents {
        Some(m) => m,
        None => 10,
    };
    let mut i: i64 = 0;
    while i < max
        invariant
            0 <= i,
            session.agent_base_port == Some(base),
            max <= 61535,
            max == max_agents_of(*session),
            base + max <= i64::MAX,
            i <= max || max < 0,
            first_free_offset(running_internal_ports@, 0, max as int) == first_free_offset(
                running_internal_ports@,
                i as int,
                max as int,
            ),
        decreases max - i,
    {
        let internal: u16 = 4001 + i as u16;
        let mut used = false;
        let mut k: usize = 0;
        while k < running_internal_ports.len()
            invariant
                k <= running_internal_ports@.len(),
                !used ==> forall|j: int| 0 <= j < k ==> running_internal_ports@[j] != internal,
                used ==> running_internal_ports@.contains(internal),
            decreases running_internal_ports.len() - k,
        {
            if running_internal_ports[k] == internal {
                used = true;
            }
            k = k + 1;
        }
        assert(internal == (4001 + i) as u16);
        if !used {
            let external = (base + i) as u16;
            return Ok((internal, external));
        }
        i = i + 1;
    }
    let mut m = lit("no available ports for sub-agents (max ");
    let d = signed_decimal_string(max);
    m.append(d.as_str());
    m.append(" reached)");
    Err(agent_error(m))
}

/// The external port through which an agent's health is checked: the
/// session's opencode port for the main agent, the matching offset into the
/// session's external range otherwise, and none without a range.
pub open spec fn health_port(s: Session, internal_port: u16) -> Option<u16> {
    if internal_port == 41820 {
        Some(s.opencode_port as u16)
    } else {
        match s.agent_base_port {
            Some(b) => Some(((b as u16) + (internal_port - 4001)) as u16),
            None => None,
        }
    }
}

/// The external port to probe for the agent on `internal_port` (see
/// `health_port`).
pub fn agent_health_port(session: &Session, internal_port: u16) -> (r: Option<u16>)
    requires
        internal_port == 41820 || session.agent_base_port is None || (internal_port >= 4001
            && (session.agent_base_port.unwrap() as u16) + (internal_port - 4001) <= 65535),
    ensures
        r == health_port(*session, internal_port),
{
    if internal_port == MAIN_AGENT_PORT {
        Some(session.opencode_port as u16)
    } else {
        match session.agent_base_port {
            Some(b) => {
                let offset = internal_port - INTERNAL_AGENT_BASE_PORT;
                Some((b as u16) + offset)
            },
            None => None,
        }
    }
}

/// The sub-agent in slot `i` of a session's range (internal port
/// 4001 + i) has its health probed on the external port that slot is given
/// when ports are allocated (base + i, kept to 16 bits); so sub-agents on
/// different internal ports are probed on different ports. (Only slots
/// whose probed port does not pass 65535 are covered, as the probe's port
/// arithmetic requires.)
pub proof fn law_health_port_of_slot(s: Session, i: u16, j: u16)
    requires
        s.agent_base_port is Some,
        4001 + i <= 65535,
        4001 + j <= 65535,
        4001 + i != 41820,
        4001 + j != 41820,
        (s.agent_base_port.unwrap() as u16) + i <= 65535,
        (s.agent_base_port.unwrap() as u16) + j <= 65535,
    ensures
        health_port(s, (4001 + i) as u16) == Some((s.agent_base_port.unwrap() + i) as u16),
        i != j ==> health_port(s, (4001 + i) as u16) != health_port(s, (4001 + j) as u16),
{
    let b = s.agent_base_port.unwrap();
    let bu = b as u16;
    assert((((4001 + i) as u16) - 4001) as u16 == i);
    assert((((4001 + j) as u16) - 4001) as u16 == j);
    assert(((b + i) as u16) == ((bu + i) as u16)) by (bit_vector)
        requires
            bu == b as u16,
    ;
}

// ---------------------------------------------------------------------------
// Discovery
// ---------------------------------------------------------------------------

/// The names a `find -printf '%f\n'` listing of the workspace yields: each
/// line trimmed, empty lines and hidden entries skipped.
pub open spec fn subdir_names(ls: Seq<Seq<char>>) -> Seq<Seq<char>>
    decreases ls.len(),
{
    if ls.len() == 0 {
        Seq::empty()
    } else {
        let prev = subdir_names(ls.drop_last());
        let t = trim(ls.last());
        if t.len() > 0 && t[0] != '.' {
            prev.push(t)
        } else {
            prev
        }
    }
}

/// The sub-directory names listed in `output` (see `subdir_names`).
pub fn parse_workspace_subdirs(output: &str) -> (r: Vec<String>)
    ensures
        r@.len() == subdir_names(lines_of(output@)).len(),
        forall|i: int| 0 <= i < r@.len() ==> (#[trigger] r@[i])@ == subdir_names(lines_of(output@))[i],
{
    let v = chars_of(output);
    let lines = lines_chars(&v);
    let ghost ls = lines_of(output@);
    let mut r: Vec<String> = Vec::new();
    let mut i: usize = 0;
    while i < lines.len()
        invariant
            i <= lines@.len(),
            lines@.len() == ls.len(),
            forall|k: int| 0 <= k < lines@.len() ==> (#[trigger] lines@[k])@ == ls[k],
            r@.len() == subdir_names(ls.subrange(0, i as int)).len(),
            forall|k: int| 0 <= k < r@.len() ==> (#[trigger] r@[k])@ == subdir_names(ls.subrange(0, i as int))[k],
        decreases lines.len() - i,
    {
        let t = trim_chars(&lines[i]);
        proof {
            let s = ls.subrange(0, i + 1);
            assert(s.drop_last() =~= ls.subrange(0, i as int));
            assert(s.last() == lines@[i as int]@);
        }
        if t.len() > 0 && t[0] != '.' {
            r.push(string_of(&t));
        }
        i = i + 1;
    }
    assert(ls.subrange(0, i as int) =~= ls);
    r
}

/// The agent id of an opencode server found running in `directory` during
/// rediscovery: the directory relative to the container workspace, when it
/// is neither empty nor the workspace itself.
pub open spec fn rediscovered_id(directory: Seq<char>) -> Option<Seq<char>> {
    let id = match strip_prefix(directory, "/home/dev/workspace/"@) {
        Some(rest) => rest,
        None => directory,
    };
    if id.len() > 0 && id != "workspace"@ {
        Some(id)
    } else {
        None
    }
}

/// The agent id for a server reporting `directory` (see `rediscovered_id`).
pub fn rediscovered_agent_id(directory: &str) -> (r: Option<String>)
    ensures
        match rediscovered_id(directory@) {
            Some(id) => r matches Some(s) && s@ == id,
            None => r is None,
        },
{
    let v = chars_of(directory);
    let p = chars_of("/home/dev/workspace/");
    let id: Vec<char> = if has_prefix(&v, &p) {
        slice_chars(&v, p.len(), v.len())
    } else {
        slice_chars(&v, 0, v.len())
    };
    assert(v@.subrange(0, v@.len() as int) =~= v@);
    let s = string_of(&id);
    if id.len() > 0 && !(s == lit("workspace")) {
        Some(s)
    } else {
        None
    }
}

/// The id shown for an agent found on `external_port` while scanning: the
/// workspace sub-directory its server reports when that is a valid agent
/// id, `unknown-<port>` otherwise.
pub open spec fn discovered_id(directory: Option<Seq<char>>, external_port: u16) -> Seq<char> {
    let found = match directory {
        Some(d) => match strip_prefix(d, "/home/dev/workspace/"@) {
            Some(name) => agent_id_from_path(name),
            None => None,
        },
        None => None,
    };
    match found {
        Some(id) => id,
        None => "unknown-"@ + decimal(external_port as nat),
    }
}

impl AgentService {
    /// The id for an agent found running on `external_port` (see
    /// `discovered_id`).
    pub fn discovered_agent_id(&self, directory: &Option<String>, external_port: u16) -> (r: String)
        ensures
            r@ == discovered_id(
                match directory {
                    Some(d) => Some(d@),
                    None => None,
                },
                external_port,
            ),
    {
        let found: Option<String> = match directory {
            Some(d) => {
                let v = chars_of(d.as_str());
                let p = chars_of("/home/dev/workspace/");
                if has_prefix(&v, &p) {
                    let rest = string_of(&slice_chars(&v, p.len(), v.len()));
                    self.extract_agent_id_from_path(rest.as_str())
                } else {
                    None
                }
            },
            None => None,
        };
        match found {
            Some(id) => id,
            None => {
                let mut m = lit("unknown-");
                let d = decimal_string(external_port as u64);
                m.append(d.as_str());
                m
            },
        }
    }
}

// ---------------------------------------------------------------------------
// Commands
// ---------------------------------------------------------------------------

/// A command to run inside a session's container.
#[derive(Debug, Clone)]
pub struct ExecPlan {
    /// Program and arguments.
    pub argv: Vec<String>,
    /// Run without waiting for output.
    pub detach: bool,
}

/// A command to run on the host for a local session.
#[derive(Debug, Clone)]
pub struct LocalExecPlan {
    /// Program to run.
    pub program: String,
    /// Its arguments.
    pub args: Vec<String>,
    /// Working directory, if any.
    pub cwd: Option<String>,
    /// Run without waiting for output.
    pub detach: bool,
}

/// The views of a list of strings.


/// The working directory a request asks for, resolved against `root`.
pub open spec fn resolved_cwd(req: AgentExecRequest, root: Seq<char>) -> Option<Seq<char>> {
    match req.cwd {
        Some(c) => Some(path_join(root, c@)),
        None => None,
    }
}

/// The argument vector for a container exec request, or the error message.
pub open spec fn container_exec_argv(req: AgentExecRequest) -> Result<Seq<Seq<char>>, Seq<char>> {
    let cwd = resolved_cwd(req, container_workspace());
    if req.shell {
        let command = match cwd {
            Some(c) => "cd "@ + c + " && "@ + req.command@,
            None => req.command@,
        };
        Ok(seq!["bash"@, "-lc"@, command])
    } else if cwd is Some {
        Err("cwd requires shell=true for container execution"@)
    } else {
        Ok(seq![req.command@] + strings_view(req.args@))
    }
}

fn copy_strings(v: &Vec<String>) -> (r: Vec<String>)
    ensures
        strings_view(r@) == strings_view(v@),
{
    let mut r: Vec<String> = Vec::new();
    let mut i: usize = 0;
    while i < v.len()
        invariant
            i <= v@.len(),
            r@.len() == i,
            forall|k: int| 0 <= k < i ==> (#[trigger] r@[k])@ == v@[k]@,
        decreases v.len() - i,
    {
        r.push(lit(v[i].as_str()));
        i = i + 1;
    }
    assert(strings_view(r@) =~= strings_view(v@));
    r
}

impl AgentService {
    /// Plan a command inside the container: through `bash -lc` (after a `cd`
    /// into the working directory, if one is asked for) when `shell` is set,
    /// directly otherwise, where a working directory cannot be honoured.
    pub fn plan_container_exec(&self, request: &AgentExecRequest) -> (r: Result<ExecPlan, AgentError>)
        ensures
            match container_exec_argv(*request) {
                Ok(argv) => r matches Ok(p) && strings_view(p.argv@) == argv && p.detach
                    == request.detach,
                Err(m) => r matches Err(e) && e.message@ == m,
            },
    {
        let cwd: Option<String> = match &request.cwd {
            Some(c) => Some(self.resolve_workspace_path("/home/dev/workspace", c.as_str())),
            None => None,
        };
        if request.shell {
            let command = match &cwd {
                Some(c) => {
                    let mut s = lit("cd ");
                    s.append(c.as_str());
                    s.append(" && ");
                    s.append(request.command.as_str());
                    s
                },
                None => request.command.clone(),
            };
            let argv = vec![lit("bash"), lit("-lc"), command];
            let ghost expected = container_exec_argv(*request);
            assert(strings_view(argv@) =~= expected->Ok_0);
            return Ok(ExecPlan { argv, detach: request.detach });
        }
        if cwd.is_some() {
            return Err(agent_error(lit("cwd requires shell=true for container execution")));
        }
        let rest = copy_strings(&request.args);
        let mut argv: Vec<String> = vec![lit(request.command.as_str())];
        let mut i: usize = 0;
        while i < rest.len()
            invariant
                i <= rest@.len(),
                argv@.len() == i + 1,
                argv@[0]@ == request.command@,
                forall|k: int| 0 <= k < i ==> (#[trigger] argv@[k + 1])@ == rest@[k]@,
            decreases rest.len() - i,
        {
            argv.push(lit(rest[i].as_str()));
            i = i + 1;
        }
        assert forall|j: int| 1 <= j < argv@.len() implies argv@[j]@ == rest@[j - 1]@ by {
            let k = j - 1;
            assert(argv@[k + 1]@ == rest@[k]@);
        }
        assert(strings_view(argv@) =~= seq![request.command@] + strings_view(rest@));
        Ok(ExecPlan { argv, detach: request.detach })
    }

    /// Plan a command on the host for a local session whose files live at
    /// `workspace_path`: `bash -lc <command>` when `shell` is set, the
    /// program with its arguments otherwise; a requested working directory
    /// is resolved against the session's workspace.
    pub fn plan_local_exec(&self, workspace_path: &str, request: &AgentExecRequest) -> (r: LocalExecPlan)
        ensures
            r.cwd matches Some(c) ==> resolved_cwd(*request, session_workspace_root(workspace_path@))
                == Some(c@),
            r.cwd is None ==> request.cwd is None,
            r.detach == request.detach,
            request.shell ==> r.program@ == "bash"@ && strings_view(r.args@) == seq![
                "-lc"@,
                request.command@,
            ],
            !request.shell ==> r.program@ == request.command@ && strings_view(r.args@)
                == strings_view(request.args@),
    {
        let root = self.workspace_root(workspace_path);
        let cwd: Option<String> = match &request.cwd {
            Some(c) => Some(self.resolve_workspace_path(root.as_str(), c.as_str())),
            None => None,
        };
        if request.shell {
            let args = vec![lit("-lc"), request.command.clone()];
            assert(strings_view(args@) =~= seq!["-lc"@, request.command@]);
            LocalExecPlan { program: lit("bash"), args, cwd, detach: request.detach }
        } else {
            LocalExecPlan {
                program: request.command.clone(),
                args: copy_strings(&request.args),
                cwd,
                detach: request.detach,
            }
        }
    }
}

/// The shell command that starts opencode for an agent.
pub open spec fn start_command(agent_id: Seq<char>, port: u16) -> Seq<char> {
    "cd "@ + container_workspace() + "/"@ + agent_id + " && opencode serve --port "@ + decimal(
        port as nat,
    ) + " --hostname 0.0.0.0 > /tmp/agent-"@ + agent_id + ".log 2>&1 &"@
}

/// The shell command that stops the opencode server on `port`.
pub open spec fn stop_command(port: u16) -> Seq<char> {
    "pkill -f 'opencode serve.*port "@ + decimal(port as nat) + "'"@
}

/// The command (for `bash -c` in the container) that starts an agent's
/// opencode server in the background, logging to `/tmp/agent-<id>.log`.
pub fn start_agent_command(agent_id: &str, internal_port: u16) -> (r: String)
    ensures
        r@ == start_command(agent_id@, internal_port),
{
    let mut s = lit("cd ");
    s.append("/home/dev/workspace");
    s.append("/");
    s.append(agent_id);
    s.append(" && opencode serve --port ");
    let d = decimal_string(internal_port as u64);
    s.append(d.as_str());
    s.append(" --hostname 0.0.0.0 > /tmp/agent-");
    s.append(agent_id);
    s.append(".log 2>&1 &");
    s
}

/// The command (for `bash -c` in the container) that stops an agent.
pub fn stop_agent_command(internal_port: u16) -> (r: String)
    ensures
        r@ == stop_command(internal_port),
{
    let mut s = lit("pkill -f 'opencode serve.*port ");
    let d = decimal_string(internal_port as u64);
    s.append(d.as_str());
    s.append("'");
    s
}

/// The AGENTS.md written into a new agent directory.
pub open spec fn agents_md(agent_id: Seq<char>, description: Seq<char>) -> Seq<char> {
    "# "@ + agent_id + "\n\n"@ + description + "\n"@
}

/// The contents of the AGENTS.md file of a new agent.
pub fn agents_md_content(agent_id: &str, description: &str) -> (r: String)
    ensures
        r@ == agents_md(agent_id@, description@),
{
    let mut s = lit("# ");
    s.append(agent_id);
    s.append("\n\n");
    s.append(description);
    s.append("\n");
    s
}

/// The scaffold tool's arguments for a template request:
/// `<subcommand> <id> <template_arg> <template> <output_arg> <root>`, then the
/// GitHub and private flags when both requested and configured, then the
/// description flag and text when both given and configured.
pub open spec fn scaffold_args(
    cfg: ScaffoldConfig,
    agent_id: Seq<char>,
    req: AgentScaffoldRequest,
    root: Seq<char>,
) -> Seq<Seq<char>> {
    match req {
        AgentScaffoldRequest::Template { template, github, private, description } => {
            let base = seq![
                cfg.subcommand@,
                agent_id,
                cfg.template_arg@,
                template@,
                cfg.output_arg@,
                root,
            ];
            let with_github = match cfg.github_arg {
                Some(a) => if github {
                    base.push(a@)
                } else {
                    base
                },
                None => base,
            };
            let with_private = match cfg.private_arg {
                Some(a) => if private {
                    with_github.push(a@)
                } else {
                    with_github
                },
                None => with_github,
            };
            match (description, cfg.description_arg) {
                (Some(d), Some(a)) => with_private.push(a@).push(d@),
                _ => with_private,
            }
        },
    }
}

impl AgentService {
    /// The arguments passed to the configured scaffold binary (see
    /// `scaffold_args`).
    pub fn scaffold_command_args(
        &self,
        agent_id: &str,
        scaffold: &AgentScaffoldRequest,
        workspace_root: &str,
    ) -> (r: Vec<String>)
        ensures
            strings_view(r@) == scaffold_args(
                self.scaffold_config,
                agent_id@,
                *scaffold,
                workspace_root@,
            ),
    {
        let cfg = &self.scaffold_config;
        match scaffold {
            AgentScaffoldRequest::Template { template, github, private, description } => {
                let mut args = vec![
                    cfg.subcommand.clone(),
                    lit(agent_id),
                    cfg.template_arg.clone(),
                    template.clone(),
                    cfg.output_arg.clone(),
                    lit(workspace_root),
                ];
                let ghost base = strings_view(args@);
                if *github {
                    match &cfg.github_arg {
                        Some(a) => args.push(a.clone()),
                        None => {},
                    }
                }
                if *private {
                    match &cfg.private_arg {
                        Some(a) => args.push(a.clone()),
                        None => {},
                    }
                }
                match (description, &cfg.description_arg) {
                    (Some(d), Some(a)) => {
                        args.push(a.clone());
                        args.push(d.clone());
                    },
                    _ => {},
                }
                assert(strings_view(args@) =~= scaffold_args(
                    self.scaffold_config,
                    agent_id@,
                    *scaffold,
                    workspace_root@,
                ));
                args
            },
        }
    }
}

// ---------------------------------------------------------------------------
// Listing agents
// ---------------------------------------------------------------------------

/// The workspace sub-directories not already listed as agents, in order.
pub open spec fn unlisted(subdirs: Seq<Seq<char>>, known: Seq<Seq<char>>) -> Seq<Seq<char>>
    decreases subdirs.len(),
{
    if subdirs.len() == 0 {
        Seq::empty()
    } else {
        let prev = unlisted(subdirs.drop_last(), known);
        if known.contains(subdirs.last()) {
            prev
        } else {
            prev.push(subdirs.last())
        }
    }
}

/// The sub-directories to look at for agents not yet known: those whose
/// names are not among the known agent IDs, in order.
pub fn unlisted_subdirs(subdirs: &Vec<String>, known_ids: &Vec<String>) -> (r: Vec<String>)
    ensures
        strings_view(r@) == unlisted(strings_view(subdirs@), strings_view(known_ids@)),
{
    let ghost kv = strings_view(known_ids@);
    let mut r: Vec<String> = Vec::new();
    let mut i: usize = 0;
    while i < subdirs.len()
        invariant
            i <= subdirs@.len(),
            kv == strings_view(known_ids@),
            strings_view(r@) == unlisted(strings_view(subdirs@).subrange(0, i as int), kv),
        decreases subdirs.len() - i,
    {
        let d = &subdirs[i];
        let ghost sv = strings_view(subdirs@);
        assert(sv.subrange(0, i + 1).drop_last() =~= sv.subrange(0, i as int));
        assert(sv.subrange(0, i + 1).last() == d@);
        let mut known = false;
        let mut k: usize = 0;
        while k < known_ids.len()
            invariant
                k <= known_ids@.len(),
                kv == strings_view(known_ids@),
                known <==> exists|j: int| 0 <= j < k && #[trigger] kv[j] == d@,
            decreases known_ids.len() - k,
        {
            if known_ids[k] == *d {
                assert(kv[k as int] == d@);
                known = true;
            }
            k = k + 1;
        }
        assert(known <==> kv.contains(d@));
        if !known {
            let ghost before = r@;
            r.push(d.clone());
            assert(strings_view(r@) =~= strings_view(before).push(d@));
        }
        i = i + 1;
    }
    assert(strings_view(subdirs@).subrange(0, i as int) =~= strings_view(subdirs@));
    r
}

/// The stopped agent listed for a workspace sub-directory that is not a
/// known agent: only one holding an `AGENTS.md` file or a git repository
/// is listed, with no ports and no runtime details.
pub fn directory_agent(subdir: String, has_agents_md: bool, has_git: bool) -> (r: Option<
    crate::agent::AgentInfo,
>)
    ensures
        !has_agents_md && !has_git ==> r is None,
        has_agents_md || has_git ==> (r matches Some(a) && a.id@ == subdir@
            && a.name@ == crate::agent::display_name(subdir@)
            && a.directory@ == container_workspace() + "/"@ + subdir@ && a.port is None
            && a.external_port is None && a.status == AgentStatus::Stopped
            && a.has_agents_md == has_agents_md && a.has_git == has_git
            && a.color@ == crate::agent::color_of(subdir@) && a.runtime is None),
{
    if !has_agents_md && !has_git {
        None
    } else {
        Some(
            crate::agent::AgentInfo::sub_agent(
                subdir,
                None,
                None,
                AgentStatus::Stopped,
                has_agents_md,
                has_git,
                None,
            ),
        )
    }
}

/// The agents that are present among `c`, in order.
pub open spec fn present_agents(c: Seq<Option<crate::agent::AgentInfo>>) -> Seq<crate::agent::AgentInfo>
    decreases c.len(),
{
    if c.len() == 0 {
        Seq::empty()
    } else {
        present_agents(c.drop_last()) + match c.last() {
            Some(a) => seq![a],
            None => Seq::empty(),
        }
    }
}

/// A session's agent listing: the main agent first, then the agents on
/// record, then the listed directories that qualify as agents, then the
/// agents found running on the scanned ports.
pub fn agent_list(
    main: crate::agent::AgentInfo,
    persisted: Vec<crate::agent::AgentInfo>,
    directories: Vec<Option<crate::agent::AgentInfo>>,
    discovered: Vec<crate::agent::AgentInfo>,
) -> (r: Vec<crate::agent::AgentInfo>)
    ensures
        r@ == seq![main] + persisted@ + present_agents(directories@) + discovered@,
{
    let mut out: Vec<crate::agent::AgentInfo> = Vec::new();
    out.push(main);
    let mut persisted = persisted;
    out.append(&mut persisted);
    let ghost head = out@;
    let mut rest = directories;
    let ghost all = rest@;
    let ghost mut k: int = 0;
    while rest.len() > 0
        invariant
            0 <= k <= all.len(),
            rest@ == all.subrange(k, all.len() as int),
            out@ == head + present_agents(all.take(k)),
        decreases rest.len(),
    {
        let c = rest.remove(0);
        proof {
            assert(c == all[k]);
            assert(all.take(k + 1).drop_last() =~= all.take(k));
            assert(all.take(k + 1).last() == all[k]);
        }
        match c {
            Some(a) => {
                out.push(a);
            },
            None => {},
        }
        proof {
            k = k + 1;
        }
        assert(out@ =~= head + present_agents(all.take(k)));
        assert(rest@ =~= all.subrange(k, all.len() as int));
    }
    assert(all.take(k) =~= all);
    let mut discovered = discovered;
    out.append(&mut discovered);
    out
}

/// A session's agent listing (see `agent_list`), led by the main agent:
/// served on internal port 41820 and the session's opencode port, with the
/// status, marker files and runtime details found for it.
pub fn listed_agents(
    session: &Session,
    main_status: AgentStatus,
    main_has_agents_md: bool,
    main_has_git: bool,
    main_runtime: Option<crate::agent::AgentRuntimeInfo>,
    persisted: Vec<crate::agent::AgentInfo>,
    directories: Vec<Option<crate::agent::AgentInfo>>,
    discovered: Vec<crate::agent::AgentInfo>,
) -> (r: Vec<crate::agent::AgentInfo>)
    ensures
        r@.len() == 1 + persisted@.len() + present_agents(directories@).len() + discovered@.len(),
        r@[0].id@ == "main"@,
        r@[0].name@ == "Main Workspace"@,
        r@[0].directory@ == container_workspace(),
        r@[0].port == Some(MAIN_AGENT_PORT),
        r@[0].external_port == Some(session.opencode_port as u16),
        r@[0].status == main_status,
        r@[0].has_agents_md == main_has_agents_md,
        r@[0].has_git == main_has_git,
        r@[0].color@ == crate::agent::color_of("main"@),
        r@[0].runtime == main_runtime,
        r@.drop_first() == persisted@ + present_agents(directories@) + discovered@,
{
    let main = crate::agent::AgentInfo::main(
        MAIN_AGENT_PORT,
        session.opencode_port as u16,
        main_status,
        main_has_agents_md,
        main_has_git,
        main_runtime,
    );
    let ghost m = main;
    let ghost rest = persisted@ + present_agents(directories@) + discovered@;
    let r = agent_list(main, persisted, directories, discovered);
    assert(r@ == seq![m] + rest);
    assert(r@.drop_first() =~= rest);
    assert(r@[0] == m);
    r
}

/// Whether an agent's runtime details are fetched for a listing: only when
/// they are asked for and the agent is running.
pub fn wants_runtime(include_context: bool, status: AgentStatus) -> (r: bool)
    ensures
        r == (include_context && status == AgentStatus::Running),
{
    include_context && match status {
        AgentStatus::Running => true,
        _ => false,
    }
}

// ---------------------------------------------------------------------------
// Context-window usage
// ---------------------------------------------------------------------------

/// A message of an agent's session as the context report reads it.
#[derive(Debug, Clone)]
pub struct SessionMessageInfo {
    pub role: String,
    pub model_id: Option<String>,
    pub provider_id: Option<String>,
    /// The message's token counts, when reported.
    pub tokens: Option<crate::agent::OpenCodeTokenTotals>,
}

/// The token counts of a message as five numbers: input, output,
/// reasoning, cache reads, cache writes.
pub open spec fn counts_of(t: crate::agent::OpenCodeTokenTotals) -> (int, int, int, int, int) {
    (t.input as int, t.output as int, t.reasoning as int, t.cache.read as int, t.cache.write as int)
}

/// Whether a message counts toward the context: it is the assistant's.
pub open spec fn is_assistant(m: SessionMessageInfo) -> bool {
    m.role@ == "assistant"@
}

/// The summed token counts of the assistant's messages.
pub open spec fn assistant_totals(ms: Seq<SessionMessageInfo>) -> (int, int, int, int, int)
    decreases ms.len(),
{
    if ms.len() == 0 {
        (0, 0, 0, 0, 0)
    } else {
        let p = assistant_totals(ms.drop_last());
        let m = ms.last();
        match m.tokens {
            Some(t) => if is_assistant(m) {
                let c = counts_of(t);
                (p.0 + c.0, p.1 + c.1, p.2 + c.2, p.3 + c.3, p.4 + c.4)
            } else {
                p
            },
            None => p,
        }
    }
}

/// The last of the assistant's messages, if any.
pub open spec fn last_assistant(ms: Seq<SessionMessageInfo>) -> Option<SessionMessageInfo>
    decreases ms.len(),
{
    if ms.len() == 0 {
        None
    } else if is_assistant(ms.last()) {
        Some(ms.last())
    } else {
        last_assistant(ms.drop_last())
    }
}

/// What the context report is built from: the token totals and the model
/// and provider of the last assistant message.
#[derive(Debug, Clone)]
pub struct ContextTotals {
    pub totals: crate::agent::OpenCodeTokenTotals,
    pub model_id: String,
    pub provider_id: String,
}

/// Sums the token counts of the assistant's messages and finds the model
/// and provider of the last one. Nothing is reported when the assistant
/// has not answered, or when its last message names no model or no
/// provider. Each summed count must fit in 64 bits.
pub fn context_totals(messages: &Vec<SessionMessageInfo>) -> (r: Option<ContextTotals>)
    requires
        ({
            let t = assistant_totals(messages@);
            t.0 <= u64::MAX && t.1 <= u64::MAX && t.2 <= u64::MAX && t.3 <= u64::MAX && t.4
                <= u64::MAX
        }),
    ensures
        match last_assistant(messages@) {
            Some(last) => match (last.model_id, last.provider_id) {
                (Some(m), Some(p)) => r matches Some(c) && c.model_id@ == m@ && c.provider_id@
                    == p@ && counts_of(c.totals) == assistant_totals(messages@),
                _ => r is None,
            },
            None => r is None,
        },
{
    let ghost all = assistant_totals(messages@);
    let mut input: u64 = 0;
    let mut output: u64 = 0;
    let mut reasoning: u64 = 0;
    let mut cache_read: u64 = 0;
    let mut cache_write: u64 = 0;
    let mut last: Option<usize> = None;
    let mut i: usize = 0;
    while i < messages.len()
        invariant
            i <= messages@.len(),
            all == assistant_totals(messages@),
            all.0 <= u64::MAX && all.1 <= u64::MAX && all.2 <= u64::MAX && all.3 <= u64::MAX
                && all.4 <= u64::MAX,
            (input as int, output as int, reasoning as int, cache_read as int, cache_write as int)
                == assistant_totals(messages@.subrange(0, i as int)),
            match last {
                Some(k) => k < i && last_assistant(messages@.subrange(0, i as int)) == Some(
                    messages@[k as int],
                ),
                None => last_assistant(messages@.subrange(0, i as int)) is None,
            },
        decreases messages.len() - i,
    {
        let m = &messages[i];
        let ghost pre = messages@.subrange(0, i as int);
        let ghost next = messages@.subrange(0, i + 1);
        assert(next.drop_last() =~= pre);
        assert(next.last() == *m);
        let assistant = m.role == lit("assistant");
        proof {
            lemma_totals_grow(messages@, i + 1, messages@.len() as int);
            assert(messages@.subrange(0, messages@.len() as int) =~= messages@);
        }
        if assistant {
            match m.tokens {
                Some(t) => {
                    input = input + t.input;
                    output = output + t.output;
                    reasoning = reasoning + t.reasoning;
                    cache_read = cache_read + t.cache.read;
                    cache_write = cache_write + t.cache.write;
                },
                None => {},
            }
            last = Some(i);
        }
        i = i + 1;
    }
    assert(messages@.subrange(0, i as int) =~= messages@);
    match last {
        Some(k) => {
            let m = &messages[k];
            match (&m.model_id, &m.provider_id) {
                (Some(model), Some(provider)) => {
                    let totals = crate::agent::OpenCodeTokenTotals {
                        input,
                        output,
                        reasoning,
                        cache: crate::agent::OpenCodeTokenCache { read: cache_read, write: cache_write },
                    };
                    Some(ContextTotals {
                        totals,
                        model_id: model.clone(),
                        provider_id: provider.clone(),
                    })
                },
                _ => None,
            }
        },
        None => None,
    }
}

/// The tokens currently in the context: all the counts together, which
/// must fit in 64 bits.
pub fn current_tokens(t: &crate::agent::OpenCodeTokenTotals) -> (r: u64)
    requires
        t.input + t.output + t.reasoning + t.cache.read + t.cache.write <= u64::MAX,
    ensures
        r == t.input + t.output + t.reasoning + t.cache.read + t.cache.write,
{
    t.input + t.output + t.reasoning + t.cache.read + t.cache.write
}

/// The summed counts never shrink as more messages are counted.
proof fn lemma_totals_grow(ms: Seq<SessionMessageInfo>, i: int, j: int)
    requires
        0 <= i <= j <= ms.len(),
    ensures
        ({
            let a = assistant_totals(ms.subrange(0, i));
            let b = assistant_totals(ms.subrange(0, j));
            a.0 <= b.0 && a.1 <= b.1 && a.2 <= b.2 && a.3 <= b.3 && a.4 <= b.4
        }),
    decreases j - i,
{
    if i < j {
        lemma_totals_grow(ms, i, j - 1);
        assert(ms.subrange(0, j).drop_last() =~= ms.subrange(0, j - 1));
    }
}

/// A provider as the agent lists it: its ID and its models' limits by
/// model ID.
#[derive(Debug, Clone)]
pub struct ProviderLimits {
    pub id: String,
    pub models: Vec<(String, crate::agent::OpenCodeTokenLimit)>,
}

/// The first provider with the ID, if any.
pub open spec fn provider_with(ps: Seq<ProviderLimits>, id: Seq<char>) -> Option<ProviderLimits>
    decreases ps.len(),
{
    if ps.len() == 0 {
        None
    } else if ps[0].id@ == id {
        Some(ps[0])
    } else {
        provider_with(ps.drop_first(), id)
    }
}

/// The limits listed for the model ID, the first entry that has it.
pub open spec fn model_limit(ms: Seq<(String, crate::agent::OpenCodeTokenLimit)>, id: Seq<char>) -> Option<
    crate::agent::OpenCodeTokenLimit,
>
    decreases ms.len(),
{
    if ms.len() == 0 {
        None
    } else if ms[0].0@ == id {
        Some(ms[0].1)
    } else {
        model_limit(ms.drop_first(), id)
    }
}

/// The token limits of a provider's model, when the provider lists it.
pub fn find_model_limit(providers: &Vec<ProviderLimits>, provider_id: &str, model_id: &str) -> (r:
    Option<crate::agent::OpenCodeTokenLimit>)
    ensures
        r == (match provider_with(providers@, provider_id@) {
            Some(p) => model_limit(p.models@, model_id@),
            None => None,
        }),
{
    let mut i: usize = 0;
    assert(providers@.subrange(0, providers@.len() as int) =~= providers@);
    while i < providers.len()
        invariant
            i <= providers@.len(),
            provider_with(providers@, provider_id@) == provider_with(
                providers@.subrange(i as int, providers@.len() as int),
                provider_id@,
            ),
        decreases providers.len() - i,
    {
        let ghost rest = providers@.subrange(i as int, providers@.len() as int);
        assert(rest[0] == providers@[i as int]);
        assert(rest.drop_first() =~= providers@.subrange(i + 1, providers@.len() as int));
        let p = &providers[i];
        if p.id == lit(provider_id) {
            assert(provider_with(providers@, provider_id@) == Some(*p));
            let ms = &p.models;
            let mut k: usize = 0;
            assert(ms@.subrange(0, ms@.len() as int) =~= ms@);
            while k < ms.len()
                invariant
                    k <= ms@.len(),
                    provider_with(providers@, provider_id@) == Some(*p),
                    p.models@ == ms@,
                    model_limit(ms@, model_id@) == model_limit(
                        ms@.subrange(k as int, ms@.len() as int),
                        model_id@,
                    ),
                decreases ms.len() - k,
            {
                let ghost mrest = ms@.subrange(k as int, ms@.len() as int);
                assert(mrest[0] == ms@[k as int]);
                assert(mrest.drop_first() =~= ms@.subrange(k + 1, ms@.len() as int));
                if ms[k].0 == lit(model_id) {
                    return Some(ms[k].1);
                }
                k = k + 1;
            }
            return None;
        }
        i = i + 1;
    }
    None
}


// ---------------------------------------------------------------------------
// Starting and stopping agents
// ---------------------------------------------------------------------------

/// What the stored record of an agent already known in a session says.
#[derive(Debug, Clone)]
pub struct KnownAgent {
    pub record_id: String,
    pub status: AgentStatus,
    pub internal_port: u16,
    pub external_port: u16,
}

/// What starting an agent does, given its stored record.
#[derive(Debug, Clone)]
pub enum StartAgentPlan {
    /// It is already running or starting: answer with it as it is.
    AlreadyRunning(crate::agent::StartAgentResponse),
    /// It is stopped (or failed): start it again on its ports, mark the
    /// record starting, and answer.
    Restart { record_id: String, response: crate::agent::StartAgentResponse },
    /// It is not known: allocate ports, start it and record it.
    StartNew,
}

/// How to start the agent `agent_id` (already validated) given its stored
/// record, if any.
pub fn start_agent_plan(agent_id: &str, existing: Option<KnownAgent>) -> (r: StartAgentPlan)
    ensures
        match existing {
            None => r is StartNew,
            Some(k) => if k.status == AgentStatus::Running || k.status == AgentStatus::Starting {
                r matches StartAgentPlan::AlreadyRunning(x) && x.id@ == agent_id@ && x.port == k.internal_port
                    && x.external_port == k.external_port && x.status == k.status
            } else {
                r matches StartAgentPlan::Restart { record_id, response } && record_id == k.record_id
                    && response.id@ == agent_id@ && response.port == k.internal_port && response.external_port
                    == k.external_port && response.status == AgentStatus::Starting
            },
        },
{
    match existing {
        None => StartAgentPlan::StartNew,
        Some(k) => {
            if k.status == AgentStatus::Running || k.status == AgentStatus::Starting {
                StartAgentPlan::AlreadyRunning(
                    crate::agent::StartAgentResponse {
                        id: lit(agent_id),
                        port: k.internal_port,
                        external_port: k.external_port,
                        status: k.status,
                    },
                )
            } else {
                StartAgentPlan::Restart {
                    record_id: k.record_id,
                    response: crate::agent::StartAgentResponse {
                        id: lit(agent_id),
                        port: k.internal_port,
                        external_port: k.external_port,
                        status: AgentStatus::Starting,
                    },
                }
            }
        },
    }
}

/// The ID of an agent's stored record: the session's ID, `:`, the agent's.
pub fn agent_record_id(session_id: &str, agent_id: &str) -> (r: String)
    ensures
        r@ == session_id@ + ":"@ + agent_id@,
{
    let mut r = lit(session_id);
    r.append(":");
    r.append(agent_id);
    r
}

/// What stopping an agent does, given its stored record.
#[derive(Debug, Clone)]
pub enum StopAgentPlan {
    /// The main agent cannot be stopped.
    Refuse(String),
    /// No such agent: answer that nothing was stopped.
    NotFound,
    /// Run the stop command in the container, mark the record stopped, and
    /// answer that it was stopped.
    Stop { record_id: String, command: String },
}

/// How to stop the agent `agent_id` given its stored record, if any.
pub fn stop_agent_plan(agent_id: &str, existing: Option<KnownAgent>) -> (r: StopAgentPlan)
    ensures
        agent_id@ == "main"@ ==> (r matches StopAgentPlan::Refuse(m) && m@ == "cannot stop main agent"@),
        agent_id@ != "main"@ ==> match existing {
            None => r is NotFound,
            Some(k) => r matches StopAgentPlan::Stop { record_id, command } && record_id == k.record_id
                && command@ == stop_command(k.internal_port),
        },
{
    if lit(agent_id) == lit("main") {
        return StopAgentPlan::Refuse(lit("cannot stop main agent"));
    }
    match existing {
        None => StopAgentPlan::NotFound,
        Some(k) => StopAgentPlan::Stop { record_id: k.record_id, command: stop_agent_command(k.internal_port) },
    }
}

// ---------------------------------------------------------------------------
// Rediscovery after a restart
// ---------------------------------------------------------------------------

/// The (internal, external) port pairs a rediscovery scan probes: slot `i`
/// of the session's range (10 slots when unset) pairs internal port
/// 4001 + i with external port base + i (kept to 16 bits); no slots for a
/// session without an agent range.
pub open spec fn rediscovery_slots(s: Session) -> Seq<(u16, u16)> {
    match s.agent_base_port {
        None => Seq::empty(),
        Some(b) => Seq::new(
            (if max_agents_of(s) > 0 { max_agents_of(s) } else { 0 }) as nat,
            |i: int| ((4001 + i) as u16, (b + i) as u16),
        ),
    }
}

/// The port pairs a rediscovery scan probes (see `rediscovery_slots`).
pub fn rediscovery_ports(session: &Session) -> (r: Vec<(u16, u16)>)
    requires
        session.agent_base_port is Some ==> max_agents_of(*session) <= 61535,
        session.agent_base_port matches Some(b) ==> b + max_agents_of(*session) - 1 <= i64::MAX,
    ensures
        r@ == rediscovery_slots(*session),
{
    let mut out: Vec<(u16, u16)> = Vec::new();
    let base = match session.agent_base_port {
        Some(b) => b,
        None => {
            assert(out@ =~= rediscovery_slots(*session));
            return out;
        },
    };
    let max: i64 = match session.max_agents {
        Some(m) => m,
        None => 10,
    };
    let mut i: i64 = 0;
    while i < max
        invariant
            0 <= i,
            session.agent_base_port == Some(base),
            max == max_agents_of(*session),
            max <= 61535,
            base + max - 1 <= i64::MAX,
            i <= max || max < 0,
            max < 0 ==> i == 0,
            out@.len() == i,
            forall|j: int| 0 <= j < i ==> #[trigger] out@[j] == ((4001 + j) as u16, (base + j) as u16),
        decreases max - i,
    {
        let internal: u16 = 4001 + i as u16;
        let external = (base + i) as u16;
        assert(internal == (4001 + i) as u16);
        out.push((internal, external));
        i = i + 1;
    }
    assert(out@ =~= rediscovery_slots(*session));
    out
}

/// What rediscovering a running agent does to its stored record.
#[derive(Debug, Clone)]
pub enum RediscoverAction {
    /// Record the agent, found running on these ports.
    Record {
        record_id: String,
        agent_id: String,
        name: String,
        directory: String,
        internal_port: u16,
        external_port: u16,
    },
    /// Its record says otherwise: mark it running.
    MarkRunning(String),
    /// Its record already says running.
    Nothing,
}

/// How rediscovering the agent `agent_id` of session `session_id`, found
/// running on the given ports, updates its stored record, if any: an
/// unknown agent is recorded, with its display name and workspace
/// directory; a known one not marked running is marked running.
pub fn rediscover_record_action(
    session_id: &str,
    agent_id: &str,
    internal_port: u16,
    external_port: u16,
    existing: Option<KnownAgent>,
) -> (r: RediscoverAction)
    ensures
        match existing {
            None => r matches RediscoverAction::Record {
                record_id,
                agent_id: a,
                name,
                directory,
                internal_port: ip,
                external_port: ep,
            } && record_id@ == session_id@ + ":"@ + agent_id@ && a@ == agent_id@ && name@
                == crate::agent::display_name(agent_id@) && directory@ == "/home/dev/workspace/"@ + agent_id@
                && ip == internal_port && ep == external_port,
            Some(k) => if k.status != AgentStatus::Running {
                r == RediscoverAction::MarkRunning(k.record_id)
            } else {
                r is Nothing
            },
        },
{
    match existing {
        None => {
            let mut directory = lit("/home/dev/workspace/");
            directory.append(agent_id);
            RediscoverAction::Record {
                record_id: agent_record_id(session_id, agent_id),
                agent_id: lit(agent_id),
                name: crate::agent::format_agent_name(agent_id),
                directory,
                internal_port,
                external_port,
            }
        },
        Some(k) => {
            if k.status != AgentStatus::Running {
                RediscoverAction::MarkRunning(k.record_id)
            } else {
                RediscoverAction::Nothing
            }
        },
    }
}

/// The external port of an agent: the session's opencode port for the main
/// agent; for another, the stored record's external port while the record
/// says it is running (or starting), and none when it is not running or not
/// found.
pub fn agent_external_port(session: &Session, agent_id: &str, existing: Option<KnownAgent>) -> (r: Option<u16>)
    ensures
        agent_id@ == "main"@ ==> r == Some(session.opencode_port as u16),
        agent_id@ != "main"@ ==> r == (match existing {
            Some(k) => if k.status == AgentStatus::Running || k.status == AgentStatus::Starting {
                Some(k.external_port)
            } else {
                None::<u16>
            },
            None => None::<u16>,
        }),
{
    if lit(agent_id) == lit("main") {
        Some(session.opencode_port as u16)
    } else {
        match existing {
            Some(k) => {
                if k.status == AgentStatus::Running || k.status == AgentStatus::Starting {
                    Some(k.external_port)
                } else {
                    None
                }
            },
            None => None,
        }
    }
}

/// The answer to creating an agent: its ID, its directory in the
/// container, and its color.
pub fn created_agent_response(agent_id: &str) -> (r: crate::agent::CreateAgentResponse)
    ensures
        r.id@ == agent_id@,
        r.directory@ == "/home/dev/workspace/"@ + agent_id@,
        r.color@ == crate::agent::color_of(agent_id@),
{
    let mut directory = lit("/home/dev/workspace/");
    directory.append(agent_id);
    crate::agent::CreateAgentResponse {
        id: lit(agent_id),
        directory,
        color: crate::agent::agent_color(agent_id),
    }
}

} // verus!
