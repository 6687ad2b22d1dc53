//! Types and decisions shared by the agent backends: the records exchanged
//! with opencode, the table of running sessions with its port allocation,
//! and what each backend derives from its configuration when it lists,
//! starts, reports on or locates a session.
//!
//! Spawning processes, creating containers and talking HTTP are the caller's
//! part; every choice made around them is here.

use vstd::prelude::*;
use crate::container::{
    copy_pairs, keys_distinct, pairs_view, set_pair, upsert, upsert_all, ContainerConfig, PortMapping,
};
use crate::history::{project_name, project_name_from_path, ChatSession, SessionInfo};
use crate::text::{
    chars_of, copy_opt, decimal, decimal_string, join_path, lemma_split_nonempty, lit, path_join,
    split_at_char, split_chars, string_of,
};

verus! {

broadcast use vstd::string::group_string_axioms;

// ---------------------------------------------------------------------------
// Records
// ---------------------------------------------------------------------------

/// A conversation (chat session) from opencode.
#[derive(Debug)]
pub struct Conversation {
    /// Unique conversation ID (e.g., "ses_xxx").
    pub id: String,
    /// Human-readable title.
    pub title: Option<String>,
    /// Parent conversation ID (for child/branched sessions).
    pub parent_id: Option<String>,
    /// Working directory for this conversation.
    pub workspace_path: String,
    /// Project name (derived from workspace path).
    pub project_name: String,
    /// Creation timestamp (milliseconds since epoch).
    pub created_at: i64,
    /// Last update timestamp (milliseconds since epoch).
    pub updated_at: i64,
    /// Whether this is currently active/running.
    pub is_active: bool,
    /// OpenCode version.
    pub version: Option<String>,
}

impl Clone for Conversation {
    fn clone(&self) -> (r: Self)
        ensures
            r == *self,
    {
        Conversation {
            id: self.id.clone(),
            title: copy_opt(&self.title),
            parent_id: copy_opt(&self.parent_id),
            workspace_path: self.workspace_path.clone(),
            project_name: self.project_name.clone(),
            created_at: self.created_at,
            updated_at: self.updated_at,
            is_active: self.is_active,
            version: copy_opt(&self.version),
        }
    }
}

/// Model information.
#[derive(Debug, Clone)]
pub struct MessageModel {
    pub provider_id: String,
    pub model_id: String,
}

/// Token usage statistics.
#[derive(Debug, Clone, Copy)]
pub struct TokenUsage {
    pub input: Option<i64>,
    pub output: Option<i64>,
    pub reasoning: Option<i64>,
    pub cache: Option<TokenCache>,
}

/// Token cache statistics.
#[derive(Debug, Clone, Copy)]
pub struct TokenCache {
    pub read: Option<i64>,
    pub write: Option<i64>,
}

/// Options for starting a session.
#[derive(Debug, Clone)]
pub struct StartSessionOpts {
    /// Model to use (provider/model format).
    pub model: Option<String>,
    /// Agent to use (passed to opencode via --agent flag).
    pub agent: Option<String>,
    /// Session ID to resume (if any).
    pub resume_session_id: Option<String>,
    /// Project ID for shared project sessions: the session then runs as the
    /// project's Linux user instead of the requesting user's.
    pub project_id: Option<String>,
    /// Additional environment variables, set in order (a later entry for
    /// the same name wins).
    pub env: Vec<(String, String)>,
}

impl Default for StartSessionOpts {
    fn default() -> (r: Self)
        ensures
            r.model is None,
            r.agent is None,
            r.resume_session_id is None,
            r.project_id is None,
            r.env@.len() == 0,
    {
        StartSessionOpts {
            model: None,
            agent: None,
            resume_session_id: None,
            project_id: None,
            env: Vec::new(),
        }
    }
}

/// Handle to a running session.
#[derive(Debug, Clone)]
pub struct SessionHandle {
    /// Platform session ID.
    pub session_id: String,
    /// OpenCode session ID (may differ from platform ID).
    pub opencode_session_id: Option<String>,
    /// Base URL for the opencode API.
    pub api_url: String,
    /// Port for the opencode API.
    pub opencode_port: u16,
    /// Port for ttyd terminal.
    pub ttyd_port: u16,
    /// Port for fileserver.
    pub fileserver_port: u16,
    /// Working directory.
    pub workdir: String,
    /// Whether this is a newly created session or resumed.
    pub is_new: bool,
}

/// Request to send a message.
#[derive(Debug, Clone)]
pub struct SendMessageRequest {
    /// Message content parts.
    pub parts: Vec<SendMessagePart>,
    /// Model override.
    pub model: Option<MessageModel>,
}

/// Part of a message to send.
#[derive(Debug, Clone)]
pub enum SendMessagePart {
    Text { text: String },
    File { mime: String, url: String, filename: Option<String> },
    Agent { name: String, id: Option<String> },
}

/// Health status of the backend.
#[derive(Debug, Clone)]
pub struct HealthStatus {
    /// Whether the backend is healthy.
    pub healthy: bool,
    /// Backend mode (local/container).
    pub mode: String,
    /// Version info.
    pub version: Option<String>,
    /// Additional details.
    pub details: Option<String>,
}

/// Server-sent event for streaming responses.
#[derive(Debug, Clone)]
pub struct AgentEvent {
    pub event_type: String,
    pub data: String,
}

/// Backend mode selector.
#[derive(Debug, Clone, Copy, PartialEq, Eq, Structural)]
pub enum BackendMode {
    /// opencode runs as a native process.
    Local,
    /// opencode runs in a Docker/Podman container.
    Container,
    /// Prefers local if available, falls back to container.
    Auto,
}

impl Default for BackendMode {
    fn default() -> (r: Self)
        ensures
            r == BackendMode::Container,
    {
        BackendMode::Container
    }
}

/// The name a backend mode is shown under.
pub open spec fn backend_mode_name(m: BackendMode) -> Seq<char> {
    match m {
        BackendMode::Local => "local"@,
        BackendMode::Container => "container"@,
        BackendMode::Auto => "auto"@,
    }
}

impl BackendMode {
    /// The mode's name: "local", "container" or "auto".
    pub fn display_string(&self) -> (r: String)
        ensures
            r@ == backend_mode_name(*self),
    {
        match self {
            BackendMode::Local => lit("local"),
            BackendMode::Container => lit("container"),
            BackendMode::Auto => lit("auto"),
        }
    }
}

// ---------------------------------------------------------------------------
// URLs and handles
// ---------------------------------------------------------------------------

/// The opencode API address of a session listening on `port`.
pub open spec fn localhost_url(port: u16) -> Seq<char> {
    "http://localhost:"@ + decimal(port as nat)
}

/// `http://localhost:{port}`.
pub fn localhost_url_of(port: u16) -> (r: String)
    ensures
        r@ == localhost_url(port),
{
    let mut r = lit("http://localhost:");
    let d = decimal_string(port as u64);
    r.append(d.as_str());
    r
}

/// The three ports a session listens on.
#[derive(Debug, Clone, Copy)]
pub struct SessionPorts {
    pub opencode_port: u16,
    pub ttyd_port: u16,
    pub fileserver_port: u16,
}

/// The handle the backends return for a session on `ports`.
pub fn session_handle(
    session_id: String,
    opencode_session_id: Option<String>,
    ports: SessionPorts,
    workdir: String,
    is_new: bool,
) -> (r: SessionHandle)
    ensures
        r.session_id == session_id,
        r.opencode_session_id == opencode_session_id,
        r.api_url@ == localhost_url(ports.opencode_port),
        r.opencode_port == ports.opencode_port,
        r.ttyd_port == ports.ttyd_port,
        r.fileserver_port == ports.fileserver_port,
        r.workdir == workdir,
        r.is_new == is_new,
{
    SessionHandle {
        session_id,
        opencode_session_id,
        api_url: localhost_url_of(ports.opencode_port),
        opencode_port: ports.opencode_port,
        ttyd_port: ports.ttyd_port,
        fileserver_port: ports.fileserver_port,
        workdir,
        is_new,
    }
}

// ---------------------------------------------------------------------------
// The table of running sessions
// ---------------------------------------------------------------------------

/// A session a backend has started and still tracks.
#[derive(Debug)]
pub struct TrackedSession {
    pub session_id: String,
    /// The container running it (container backend only).
    pub container_id: Option<String>,
    pub user_id: String,
    pub workdir: String,
    pub ports: SessionPorts,
}

impl Clone for TrackedSession {
    fn clone(&self) -> (r: Self)
        ensures
            r == *self,
    {
        TrackedSession {
            session_id: self.session_id.clone(),
            container_id: copy_opt(&self.container_id),
            user_id: self.user_id.clone(),
            workdir: self.workdir.clone(),
            ports: self.ports,
        }
    }
}

/// No session ID occurs twice.
pub open spec fn ids_distinct(s: Seq<TrackedSession>) -> bool {
    forall|i: int, j: int|
        0 <= i < s.len() && 0 <= j < s.len() && i != j ==> #[trigger] s[i].session_id@
            != #[trigger] s[j].session_id@
}

/// Some session in `s` has the ID `id`.
pub open spec fn has_session(s: Seq<TrackedSession>, id: Seq<char>) -> bool {
    exists|i: int| 0 <= i < s.len() && #[trigger] s[i].session_id@ == id
}

/// The sessions of `s` keyed by their IDs.
pub open spec fn session_map(s: Seq<TrackedSession>) -> Map<Seq<char>, TrackedSession> {
    Map::new(
        |k: Seq<char>| has_session(s, k),
        |k: Seq<char>| s[choose|i: int| 0 <= i < s.len() && #[trigger] s[i].session_id@ == k],
    )
}

proof fn lemma_map_at(s: Seq<TrackedSession>, j: int)
    requires
        ids_distinct(s),
        0 <= j < s.len(),
    ensures
        session_map(s).dom().contains(s[j].session_id@),
        session_map(s)[s[j].session_id@] == s[j],
{
    let k = s[j].session_id@;
    assert(has_session(s, k));
    let c = choose|i: int| 0 <= i < s.len() && #[trigger] s[i].session_id@ == k;
    assert(c == j);
}

proof fn lemma_map_update(s: Seq<TrackedSession>, i: int, x: TrackedSession)
    requires
        ids_distinct(s),
        0 <= i < s.len(),
        s[i].session_id@ == x.session_id@,
    ensures
        ids_distinct(s.update(i, x)),
        session_map(s.update(i, x)) =~= session_map(s).insert(x.session_id@, x),
{
    let t = s.update(i, x);
    assert forall|a: int, b: int|
        0 <= a < t.len() && 0 <= b < t.len() && a != b implies #[trigger] t[a].session_id@
        != #[trigger] t[b].session_id@ by {
        assert(t[a].session_id@ == s[a].session_id@);
        assert(t[b].session_id@ == s[b].session_id@);
    }
    let m = session_map(s).insert(x.session_id@, x);
    assert forall|k: Seq<char>| session_map(t).dom().contains(k) <==> m.dom().contains(k) by {
        if has_session(t, k) {
            let j = choose|j: int| 0 <= j < t.len() && #[trigger] t[j].session_id@ == k;
            assert(s[j].session_id@ == k);
        }
        if has_session(s, k) {
            let j = choose|j: int| 0 <= j < s.len() && #[trigger] s[j].session_id@ == k;
            assert(t[j].session_id@ == k);
        }
        if k == x.session_id@ {
            assert(t[i].session_id@ == k);
        }
    }
    assert forall|k: Seq<char>| #[trigger] session_map(t).dom().contains(k) implies session_map(t)[k]
        == m[k] by {
        let j = choose|j: int| 0 <= j < t.len() && #[trigger] t[j].session_id@ == k;
        lemma_map_at(t, j);
        if j != i {
            lemma_map_at(s, j);
        }
    }
}

proof fn lemma_map_push(s: Seq<TrackedSession>, x: TrackedSession)
    requires
        ids_distinct(s),
        !has_session(s, x.session_id@),
    ensures
        ids_distinct(s.push(x)),
        session_map(s.push(x)) =~= session_map(s).insert(x.session_id@, x),
{
    let t = s.push(x);
    assert forall|a: int, b: int|
        0 <= a < t.len() && 0 <= b < t.len() && a != b implies #[trigger] t[a].session_id@
        != #[trigger] t[b].session_id@ by {
        if a < s.len() && b < s.len() {
            assert(t[a] == s[a] && t[b] == s[b]);
        } else if a < s.len() {
            assert(t[a] == s[a]);
        } else {
            assert(t[b] == s[b]);
        }
    }
    let m = session_map(s).insert(x.session_id@, x);
    assert forall|k: Seq<char>| session_map(t).dom().contains(k) <==> m.dom().contains(k) by {
        if has_session(t, k) {
            let j = choose|j: int| 0 <= j < t.len() && #[trigger] t[j].session_id@ == k;
            if j < s.len() {
                assert(s[j].session_id@ == k);
            }
        }
        if has_session(s, k) {
            let j = choose|j: int| 0 <= j < s.len() && #[trigger] s[j].session_id@ == k;
            assert(t[j].session_id@ == k);
        }
        if k == x.session_id@ {
            assert(t[s.len() as int].session_id@ == k);
        }
    }
    assert forall|k: Seq<char>| #[trigger] session_map(t).dom().contains(k) implies session_map(t)[k]
        == m[k] by {
        let j = choose|j: int| 0 <= j < t.len() && #[trigger] t[j].session_id@ == k;
        lemma_map_at(t, j);
        if j < s.len() {
            assert(t[j] == s[j]);
            lemma_map_at(s, j);
        }
    }
}

proof fn lemma_map_remove(s: Seq<TrackedSession>, i: int)
    requires
        ids_distinct(s),
        0 <= i < s.len(),
    ensures
        ids_distinct(s.remove(i)),
        session_map(s.remove(i)) =~= session_map(s).remove(s[i].session_id@),
{
    let t = s.remove(i);
    let gone = s[i].session_id@;
    assert forall|a: int| 0 <= a < t.len() implies #[trigger] t[a] == s[if a < i {
        a
    } else {
        a + 1
    }] by {}
    assert forall|a: int, b: int|
        0 <= a < t.len() && 0 <= b < t.len() && a != b implies #[trigger] t[a].session_id@
        != #[trigger] t[b].session_id@ by {
        let sa = if a < i {
            a
        } else {
            a + 1
        };
        let sb = if b < i {
            b
        } else {
            b + 1
        };
        assert(t[a] == s[sa] && t[b] == s[sb]);
    }
    let m = session_map(s).remove(gone);
    assert forall|k: Seq<char>| session_map(t).dom().contains(k) <==> m.dom().contains(k) by {
        if has_session(t, k) {
            let j = choose|j: int| 0 <= j < t.len() && #[trigger] t[j].session_id@ == k;
            let sj = if j < i {
                j
            } else {
                j + 1
            };
            assert(t[j] == s[sj]);
            assert(s[sj].session_id@ == k);
        }
        if has_session(s, k) && k != gone {
            let j = choose|j: int| 0 <= j < s.len() && #[trigger] s[j].session_id@ == k;
            if j < i {
                assert(t[j] == s[j]);
                assert(t[j].session_id@ == k);
            } else {
                assert(j != i);
                assert(t[j - 1] == s[j]);
                assert(t[j - 1].session_id@ == k);
            }
        }
    }
    assert forall|k: Seq<char>| #[trigger] session_map(t).dom().contains(k) implies session_map(t)[k]
        == m[k] by {
        let j = choose|j: int| 0 <= j < t.len() && #[trigger] t[j].session_id@ == k;
        lemma_map_at(t, j);
        let sj = if j < i {
            j
        } else {
            j + 1
        };
        assert(t[j] == s[sj]);
        lemma_map_at(s, sj);
    }
}

/// The sessions a backend is running, keyed by session ID, and the next
/// port to hand out. Each session takes three consecutive ports.
pub struct SessionTable {
    sessions: Vec<TrackedSession>,
    next_port: u16,
}

impl View for SessionTable {
    type V = Map<Seq<char>, TrackedSession>;

    closed spec fn view(&self) -> Map<Seq<char>, TrackedSession> {
        session_map(self.sessions@)
    }
}

impl SessionTable {
    #[verifier::type_invariant]
    closed spec fn inv(&self) -> bool {
        ids_distinct(self.sessions@)
    }

    /// The first port of the next allocation.
    pub closed spec fn upcoming_port(&self) -> u16 {
        self.next_port
    }

    /// An empty table handing out ports from `base_port`.
    pub fn new(base_port: u16) -> (r: Self)
        ensures
            r@ == Map::<Seq<char>, TrackedSession>::empty(),
            r.upcoming_port() == base_port,
    {
        let r = SessionTable { sessions: Vec::new(), next_port: base_port };
        assert(r@ =~= Map::<Seq<char>, TrackedSession>::empty());
        r
    }

    /// The first port of the next allocation.
    pub fn next_port(&self) -> (r: u16)
        ensures
            r == self.upcoming_port(),
    {
        self.next_port
    }

    /// Hands out the next three ports: opencode, ttyd, fileserver.
    pub fn allocate_ports(&mut self) -> (r: SessionPorts)
        requires
            old(self).upcoming_port() <= 65532,
        ensures
            r.opencode_port == old(self).upcoming_port(),
            r.ttyd_port == old(self).upcoming_port() + 1,
            r.fileserver_port == old(self).upcoming_port() + 2,
            final(self).upcoming_port() == old(self).upcoming_port() + 3,
            final(self)@ == old(self)@,
    {
        proof {
            use_type_invariant(&*self);
        }
        let p = self.next_port;
        self.next_port = p + 3;
        SessionPorts { opencode_port: p, ttyd_port: p + 1, fileserver_port: p + 2 }
    }

    /// The session with the given ID, if tracked.
    pub fn get(&self, session_id: &str) -> (r: Option<TrackedSession>)
        ensures
            match r {
                Some(s) => self@.contains_key(session_id@) && s == self@[session_id@],
                None => !self@.contains_key(session_id@),
            },
    {
        proof {
            use_type_invariant(self);
        }
        let id = lit(session_id);
        let mut i: usize = 0;
        while i < self.sessions.len()
            invariant
                i <= self.sessions@.len(),
                ids_distinct(self.sessions@),
                id@ == session_id@,
                forall|j: int| 0 <= j < i ==> #[trigger] self.sessions@[j].session_id@ != session_id@,
            decreases self.sessions.len() - i,
        {
            if self.sessions[i].session_id == id {
                proof {
                    lemma_map_at(self.sessions@, i as int);
                }
                return Some(self.sessions[i].clone());
            }
            i = i + 1;
        }
        None
    }

    /// Whether a session with the given ID is tracked.
    pub fn contains(&self, session_id: &str) -> (r: bool)
        ensures
            r == self@.contains_key(session_id@),
    {
        self.get(session_id).is_some()
    }

    /// Tracks `session`, replacing any session with the same ID.
    pub fn insert(&mut self, session: TrackedSession)
        ensures
            final(self)@ == old(self)@.insert(session.session_id@, session),
            final(self).upcoming_port() == old(self).upcoming_port(),
    {
        proof {
            use_type_invariant(&*self);
        }
        let ghost s = self.sessions@;
        let mut i: usize = 0;
        while i < self.sessions.len()
            invariant
                i <= self.sessions@.len(),
                self.sessions@ == s,
                *self == *old(self),
                ids_distinct(s),
                forall|j: int| 0 <= j < i ==> #[trigger] s[j].session_id@ != session.session_id@,
            decreases self.sessions.len() - i,
        {
            if self.sessions[i].session_id == session.session_id {
                proof {
                    lemma_map_update(s, i as int, session);
                }
                let mut v = Vec::new();
                std::mem::swap(&mut v, &mut self.sessions);
                v.set(i, session);
                *self = SessionTable { sessions: v, next_port: self.next_port };
                return;
            }
            i = i + 1;
        }
        proof {
            lemma_map_push(s, session);
        }
        let mut v = Vec::new();
        std::mem::swap(&mut v, &mut self.sessions);
        v.push(session);
        *self = SessionTable { sessions: v, next_port: self.next_port };
    }

    /// Stops tracking the session with the given ID.
    pub fn remove(&mut self, session_id: &str)
        ensures
            final(self)@ == old(self)@.remove(session_id@),
            final(self).upcoming_port() == old(self).upcoming_port(),
    {
        proof {
            use_type_invariant(&*self);
        }
        let ghost s = self.sessions@;
        let id = lit(session_id);
        let mut i: usize = 0;
        while i < self.sessions.len()
            invariant
                i <= self.sessions@.len(),
                self.sessions@ == s,
                *self == *old(self),
                ids_distinct(s),
                id@ == session_id@,
                forall|j: int| 0 <= j < i ==> #[trigger] s[j].session_id@ != session_id@,
            decreases self.sessions.len() - i,
        {
            if self.sessions[i].session_id == id {
                proof {
                    lemma_map_remove(s, i as int);
                }
                let mut v = Vec::new();
                std::mem::swap(&mut v, &mut self.sessions);
                v.remove(i);
                *self = SessionTable { sessions: v, next_port: self.next_port };
                return;
            }
            i = i + 1;
        }
        assert(session_map(s).remove(session_id@) =~= session_map(s));
    }

    /// A tracked session of `user_id` (any one of them, when several are).
    pub fn find_for_user(&self, user_id: &str) -> (r: Option<TrackedSession>)
        ensures
            match r {
                Some(s) => s.user_id@ == user_id@ && self@.contains_key(s.session_id@)
                    && self@[s.session_id@] == s,
                None => forall|k: Seq<char>| #[trigger]
                    self@.contains_key(k) ==> self@[k].user_id@ != user_id@,
            },
    {
        proof {
            use_type_invariant(self);
        }
        let u = lit(user_id);
        let mut i: usize = 0;
        while i < self.sessions.len()
            invariant
                i <= self.sessions@.len(),
                ids_distinct(self.sessions@),
                u@ == user_id@,
                forall|j: int| 0 <= j < i ==> #[trigger] self.sessions@[j].user_id@ != user_id@,
            decreases self.sessions.len() - i,
        {
            if self.sessions[i].user_id == u {
                proof {
                    lemma_map_at(self.sessions@, i as int);
                }
                return Some(self.sessions[i].clone());
            }
            i = i + 1;
        }
        proof {
            assert forall|k: Seq<char>| #[trigger]
                self@.contains_key(k) implies self@[k].user_id@ != user_id@ by {
                let j = choose|j: int|
                    0 <= j < self.sessions@.len() && #[trigger] self.sessions@[j].session_id@ == k;
                lemma_map_at(self.sessions@, j);
            }
        }
        None
    }

    /// A tracked session of `user_id` working in `workdir` (any one of them,
    /// when several are).
    pub fn find_for_workdir(&self, user_id: &str, workdir: &str) -> (r: Option<TrackedSession>)
        ensures
            match r {
                Some(s) => s.user_id@ == user_id@ && s.workdir@ == workdir@ && self@.contains_key(
                    s.session_id@,
                ) && self@[s.session_id@] == s,
                None => forall|k: Seq<char>| #[trigger]
                    self@.contains_key(k) ==> !(self@[k].user_id@ == user_id@ && self@[k].workdir@
                        == workdir@),
            },
    {
        proof {
            use_type_invariant(self);
        }
        let u = lit(user_id);
        let w = lit(workdir);
        let mut i: usize = 0;
        while i < self.sessions.len()
            invariant
                i <= self.sessions@.len(),
                ids_distinct(self.sessions@),
                u@ == user_id@,
                w@ == workdir@,
                forall|j: int|
                    0 <= j < i ==> !(#[trigger] self.sessions@[j].user_id@ == user_id@
                        && self.sessions@[j].workdir@ == workdir@),
            decreases self.sessions.len() - i,
        {
            if self.sessions[i].user_id == u && self.sessions[i].workdir == w {
                proof {
                    lemma_map_at(self.sessions@, i as int);
                }
                return Some(self.sessions[i].clone());
            }
            i = i + 1;
        }
        proof {
            assert forall|k: Seq<char>| #[trigger] self@.contains_key(k) implies !(self@[k].user_id@
                == user_id@ && self@[k].workdir@ == workdir@) by {
                let j = choose|j: int|
                    0 <= j < self.sessions@.len() && #[trigger] self.sessions@[j].session_id@ == k;
                lemma_map_at(self.sessions@, j);
            }
        }
        None
    }

    /// The opencode API address of a tracked session.
    pub fn session_url(&self, session_id: &str) -> (r: Option<String>)
        ensures
            match r {
                Some(u) => self@.contains_key(session_id@) && u@ == localhost_url(
                    self@[session_id@].ports.opencode_port,
                ),
                None => !self@.contains_key(session_id@),
            },
    {
        match self.get(session_id) {
            Some(s) => Some(localhost_url_of(s.ports.opencode_port)),
            None => None,
        }
    }
}


// ---------------------------------------------------------------------------
// Conversations
// ---------------------------------------------------------------------------

/// `c` lists the chat session `s` read from disk, active or not.
pub open spec fn is_conversation_of(c: Conversation, s: ChatSession, active: bool) -> bool {
    &&& c.id@ == s.id@
    &&& c.title == s.title
    &&& c.parent_id == s.parent_id
    &&& c.workspace_path@ == s.workspace_path@
    &&& c.project_name@ == s.project_name@
    &&& c.created_at == s.created_at
    &&& c.updated_at == s.updated_at
    &&& c.is_active == active
    &&& c.version == s.version
}

/// The conversation for a chat session read from disk.
pub fn conversation_from_chat(s: &ChatSession, is_active: bool) -> (r: Conversation)
    ensures
        is_conversation_of(r, *s, is_active),
{
    Conversation {
        id: s.id.clone(),
        title: copy_opt(&s.title),
        parent_id: copy_opt(&s.parent_id),
        workspace_path: s.workspace_path.clone(),
        project_name: s.project_name.clone(),
        created_at: s.created_at,
        updated_at: s.updated_at,
        is_active,
        version: copy_opt(&s.version),
    }
}

/// The local backend's conversation list: every chat session read from
/// disk, in order, marked active exactly when the backend is running a
/// session with its ID.
pub fn local_conversations(sessions: &Vec<ChatSession>, running: &SessionTable) -> (r: Vec<
    Conversation,
>)
    ensures
        r@.len() == sessions@.len(),
        forall|i: int|
            0 <= i < r@.len() ==> is_conversation_of(
                #[trigger] r@[i],
                sessions@[i],
                running@.contains_key(sessions@[i].id@),
            ),
{
    let mut r: Vec<Conversation> = Vec::new();
    let mut i: usize = 0;
    while i < sessions.len()
        invariant
            i <= sessions@.len(),
            r@.len() == i,
            forall|j: int|
                0 <= j < i ==> is_conversation_of(
                    #[trigger] r@[j],
                    sessions@[j],
                    running@.contains_key(sessions@[j].id@),
                ),
        decreases sessions.len() - i,
    {
        let s = &sessions[i];
        let active = running.contains(s.id.as_str());
        r.push(conversation_from_chat(s, active));
        i = i + 1;
    }
    r
}

/// `c` lists the session `info` reported by the opencode API inside a
/// running container: its workspace is the session's directory (empty when
/// absent) and it counts as active.
pub open spec fn is_opencode_conversation(c: Conversation, info: SessionInfo) -> bool {
    let ws = match info.directory {
        Some(d) => d@,
        None => Seq::<char>::empty(),
    };
    &&& c.id@ == info.id@
    &&& c.title == info.title
    &&& c.parent_id == info.parent_id
    &&& c.workspace_path@ == ws
    &&& c.project_name@ == project_name(ws)
    &&& c.created_at == info.time.created
    &&& c.updated_at == info.time.updated
    &&& c.is_active
    &&& c.version == info.version
}

/// The conversation for a session reported by opencode in a container.
pub fn conversation_from_opencode(info: SessionInfo) -> (r: Conversation)
    ensures
        is_opencode_conversation(r, info),
{
    let workspace_path = match &info.directory {
        Some(d) => d.clone(),
        None => String::new(),
    };
    let project_name = project_name_from_path(workspace_path.as_str());
    Conversation {
        id: info.id,
        title: info.title,
        parent_id: info.parent_id,
        workspace_path,
        project_name,
        created_at: info.time.created,
        updated_at: info.time.updated,
        is_active: true,
        version: info.version,
    }
}

/// The container backend's conversation list: one conversation per session
/// opencode reports, in order.
pub fn opencode_conversations(infos: Vec<SessionInfo>) -> (r: Vec<Conversation>)
    ensures
        r@.len() == infos@.len(),
        forall|i: int| 0 <= i < r@.len() ==> is_opencode_conversation(#[trigger] r@[i], infos@[i]),
{
    let ghost all = infos@;
    let mut rest = infos;
    let mut rev: Vec<Conversation> = Vec::new();
    while rest.len() > 0
        invariant
            rest@.len() + rev@.len() == all.len(),
            forall|i: int| 0 <= i < rest@.len() ==> #[trigger] rest@[i] == all[i],
            forall|i: int|
                0 <= i < rev@.len() ==> is_opencode_conversation(
                    #[trigger] rev@[i],
                    all[all.len() - 1 - i],
                ),
        decreases rest.len(),
    {
        let info = rest.pop().unwrap();
        rev.push(conversation_from_opencode(info));
    }
    let mut r: Vec<Conversation> = Vec::new();
    while rev.len() > 0
        invariant
            rev@.len() + r@.len() == all.len(),
            forall|i: int|
                0 <= i < rev@.len() ==> is_opencode_conversation(
                    #[trigger] rev@[i],
                    all[all.len() - 1 - i],
                ),
            forall|i: int| 0 <= i < r@.len() ==> is_opencode_conversation(#[trigger] r@[i], all[i]),
        decreases rev.len(),
    {
        let c = rev.pop().unwrap();
        r.push(c);
    }
    r
}

/// The first conversation with the given ID, if any.
pub open spec fn conversation_with_id(s: Seq<Conversation>, id: Seq<char>) -> Option<Conversation>
    decreases s.len(),
{
    if s.len() == 0 {
        None
    } else if s[0].id@ == id {
        Some(s[0])
    } else {
        conversation_with_id(s.drop_first(), id)
    }
}

/// The conversation with the given ID among those listed.
pub fn find_conversation(conversations: &Vec<Conversation>, conversation_id: &str) -> (r: Option<
    Conversation,
>)
    ensures
        r == conversation_with_id(conversations@, conversation_id@),
{
    let id = lit(conversation_id);
    let mut i: usize = 0;
    assert(conversations@.subrange(0, conversations@.len() as int) =~= conversations@);
    while i < conversations.len()
        invariant
            i <= conversations@.len(),
            id@ == conversation_id@,
            conversation_with_id(conversations@, conversation_id@) == conversation_with_id(
                conversations@.subrange(i as int, conversations@.len() as int),
                conversation_id@,
            ),
        decreases conversations.len() - i,
    {
        let ghost rest = conversations@.subrange(i as int, conversations@.len() as int);
        assert(rest[0] == conversations@[i as int]);
        assert(rest.drop_first() =~= conversations@.subrange(i + 1, conversations@.len() as int));
        if conversations[i].id == id {
            return Some(conversations[i].clone());
        }
        i = i + 1;
    }
    None
}

// ---------------------------------------------------------------------------
// Messages
// ---------------------------------------------------------------------------

/// `o`'s text, when present.
pub open spec fn opt_view(o: Option<String>) -> Option<Seq<char>> {
    match o {
        Some(s) => Some(s@),
        None => None,
    }
}

/// `o`'s text, or the empty text when absent.
pub open spec fn text_or_empty(o: Option<String>) -> Seq<char> {
    match o {
        Some(s) => s@,
        None => Seq::<char>::empty(),
    }
}

fn string_or_empty(o: Option<String>) -> (r: String)
    ensures
        r@ == text_or_empty(o),
{
    match o {
        Some(s) => s,
        None => String::new(),
    }
}

/// The model a message names: present when either the provider or the
/// model is given, the missing one then empty.
pub fn message_model(provider_id: Option<String>, model_id: Option<String>) -> (r: Option<
    MessageModel,
>)
    ensures
        r is Some <==> (provider_id is Some || model_id is Some),
        r matches Some(m) ==> m.provider_id@ == text_or_empty(provider_id) && m.model_id@
            == text_or_empty(model_id),
{
    if provider_id.is_some() || model_id.is_some() {
        Some(
            MessageModel {
                provider_id: string_or_empty(provider_id),
                model_id: string_or_empty(model_id),
            },
        )
    } else {
        None
    }
}

/// The token usage a message stored on disk reports: present when either
/// count is given, without reasoning or cache figures.
pub fn stored_token_usage(input: Option<i64>, output: Option<i64>) -> (r: Option<TokenUsage>)
    ensures
        r is Some <==> (input is Some || output is Some),
        r matches Some(t) ==> t.input == input && t.output == output && t.reasoning is None
            && t.cache is None,
{
    if input.is_some() || output.is_some() {
        Some(TokenUsage { input, output, reasoning: None, cache: None })
    } else {
        None
    }
}

/// The kind of a message part, by its `type` field.
#[derive(Debug, Clone, Copy, PartialEq, Eq, Structural)]
pub enum PartKind {
    Text,
    Tool,
    StepStart,
    StepFinish,
    Unknown,
}

/// The part kind a `type` field names.
pub open spec fn part_kind_of(t: Seq<char>) -> PartKind {
    if t == "text"@ {
        PartKind::Text
    } else if t == "tool"@ {
        PartKind::Tool
    } else if t == "step-start"@ {
        PartKind::StepStart
    } else if t == "step-finish"@ {
        PartKind::StepFinish
    } else {
        PartKind::Unknown
    }
}

/// The kind of message part a `type` field names; anything unrecognised is
/// `Unknown`.
pub fn part_kind(part_type: &str) -> (r: PartKind)
    ensures
        r == part_kind_of(part_type@),
{
    let t = lit(part_type);
    if t == lit("text") {
        PartKind::Text
    } else if t == lit("tool") {
        PartKind::Tool
    } else if t == lit("step-start") {
        PartKind::StepStart
    } else if t == lit("step-finish") {
        PartKind::StepFinish
    } else {
        PartKind::Unknown
    }
}

/// A tool call's state; `input` and `metadata` are JSON text.
#[derive(Debug, Clone)]
pub struct ToolState {
    pub status: Option<String>,
    pub input: Option<String>,
    pub output: Option<String>,
    pub title: Option<String>,
    pub metadata: Option<String>,
}

/// A part of a message. A finished step's cost, a floating-point figure,
/// is not held here.
#[derive(Debug)]
pub enum MessagePart {
    Text { text: String },
    Tool { tool: String, call_id: Option<String>, state: Option<ToolState> },
    StepStart,
    StepFinish { reason: Option<String>, tokens: Option<TokenUsage> },
    Unknown,
}

/// A message in a conversation.
#[derive(Debug)]
pub struct Message {
    pub id: String,
    pub session_id: String,
    /// "user" or "assistant".
    pub role: String,
    pub parts: Vec<MessagePart>,
    pub created_at: i64,
    pub completed_at: Option<i64>,
    pub model: Option<MessageModel>,
    pub tokens: Option<TokenUsage>,
}

/// A message part as the agent server's message API returns it.
#[derive(Debug)]
pub struct OpenCodePart {
    pub part_type: String,
    pub text: Option<String>,
    pub tool: Option<String>,
    pub call_id: Option<String>,
    pub state: Option<ToolState>,
    pub reason: Option<String>,
    pub tokens: Option<TokenUsage>,
}

/// A message as the agent server's message API returns it.
#[derive(Debug)]
pub struct OpenCodeMessage {
    pub id: String,
    pub session_id: String,
    pub role: String,
    pub created: i64,
    pub completed: Option<i64>,
    pub model_id: Option<String>,
    pub provider_id: Option<String>,
    pub tokens: Option<TokenUsage>,
    pub parts: Vec<OpenCodePart>,
}

/// `p` is the part that `o` becomes: chosen by its type (see
/// `part_kind_of`), a missing text or tool name read as empty.
pub open spec fn is_part_of(p: MessagePart, o: OpenCodePart) -> bool {
    match part_kind_of(o.part_type@) {
        PartKind::Text => p matches MessagePart::Text { text } && text@ == text_or_empty(o.text),
        PartKind::Tool => p matches MessagePart::Tool { tool, call_id, state } && tool@ == text_or_empty(
            o.tool,
        ) && call_id == o.call_id && state == o.state,
        PartKind::StepStart => p is StepStart,
        PartKind::StepFinish => p matches MessagePart::StepFinish { reason, tokens } && reason == o.reason
            && tokens == o.tokens,
        PartKind::Unknown => p is Unknown,
    }
}

/// `r` is the message that `m` becomes: its fields carried over, each part
/// mapped by `is_part_of`, and the model named as `message_model` says.
pub open spec fn is_message_of(r: Message, m: OpenCodeMessage) -> bool {
    &&& r.id == m.id
    &&& r.session_id == m.session_id
    &&& r.role == m.role
    &&& r.created_at == m.created
    &&& r.completed_at == m.completed
    &&& r.tokens == m.tokens
    &&& r.parts@.len() == m.parts@.len()
    &&& forall|i: int| 0 <= i < m.parts@.len() ==> is_part_of(#[trigger] r.parts@[i], m.parts@[i])
    &&& (r.model is Some <==> (m.provider_id is Some || m.model_id is Some))
    &&& (r.model matches Some(x) ==> x.provider_id@ == text_or_empty(m.provider_id) && x.model_id@
        == text_or_empty(m.model_id))
}

/// The message part an API part becomes (see `is_part_of`).
pub fn message_part(o: OpenCodePart) -> (r: MessagePart)
    ensures
        is_part_of(r, o),
{
    let kind = part_kind(o.part_type.as_str());
    let OpenCodePart { part_type: _, text, tool, call_id, state, reason, tokens } = o;
    match kind {
        PartKind::Text => MessagePart::Text { text: string_or_empty(text) },
        PartKind::Tool => MessagePart::Tool { tool: string_or_empty(tool), call_id, state },
        PartKind::StepStart => MessagePart::StepStart,
        PartKind::StepFinish => MessagePart::StepFinish { reason, tokens },
        PartKind::Unknown => MessagePart::Unknown,
    }
}

/// The message an API message becomes (see `is_message_of`).
pub fn message_of(m: OpenCodeMessage) -> (r: Message)
    ensures
        is_message_of(r, m),
{
    let OpenCodeMessage { id, session_id, role, created, completed, model_id, provider_id, tokens, parts } =
        m;
    let mut rest = parts;
    let mut out: Vec<MessagePart> = Vec::new();
    let ghost all = rest@;
    while rest.len() > 0
        invariant
            out@.len() + rest@.len() == all.len(),
            rest@ == all.subrange(out@.len() as int, all.len() as int),
            forall|i: int| 0 <= i < out@.len() ==> is_part_of(#[trigger] out@[i], all[i]),
        decreases rest.len(),
    {
        let ghost k = out@.len();
        let o = rest.remove(0);
        assert(o == all[k as int]);
        let p = message_part(o);
        out.push(p);
        assert(rest@ =~= all.subrange(out@.len() as int, all.len() as int));
    }
    let model = message_model(provider_id, model_id);
    Message { id, session_id, role, parts: out, created_at: created, completed_at: completed, model, tokens }
}

/// The messages a conversation's API reply holds, in order (see
/// `is_message_of`).
pub fn messages_of(ms: Vec<OpenCodeMessage>) -> (r: Vec<Message>)
    ensures
        r@.len() == ms@.len(),
        forall|i: int| 0 <= i < ms@.len() ==> is_message_of(#[trigger] r@[i], ms@[i]),
{
    let mut rest = ms;
    let mut out: Vec<Message> = Vec::new();
    let ghost all = rest@;
    while rest.len() > 0
        invariant
            out@.len() + rest@.len() == all.len(),
            rest@ == all.subrange(out@.len() as int, all.len() as int),
            forall|i: int| 0 <= i < out@.len() ==> is_message_of(#[trigger] out@[i], all[i]),
        decreases rest.len(),
    {
        let ghost k = out@.len();
        let m = rest.remove(0);
        assert(m == all[k as int]);
        let x = message_of(m);
        out.push(x);
        assert(rest@ =~= all.subrange(out@.len() as int, all.len() as int));
    }
    out
}

// ---------------------------------------------------------------------------
// Session identifiers
// ---------------------------------------------------------------------------

/// A lower-case hexadecimal digit.
pub open spec fn is_lower_hex(c: char) -> bool {
    ('0' <= c && c <= '9') || ('a' <= c && c <= 'f')
}

/// The hyphenated lower-case text of a UUID: 36 characters, the first
/// eight of them hexadecimal digits followed by a hyphen.
pub open spec fn is_uuid_text(u: Seq<char>) -> bool {
    &&& u.len() == 36
    &&& u[8] == '-'
    &&& forall|i: int| 0 <= i < 8 ==> is_lower_hex(#[trigger] u[i])
}

/// `uuid::Uuid::new_v4` formatted by its `Display` impl: a random UUID in
/// hyphenated lower-case form. Only the shape of the text is stated; the
/// digits are random.
#[verifier::external_body]
pub(crate) fn new_uuid_text() -> (r: String)
    ensures
        is_uuid_text(r@),
{
    uuid::Uuid::new_v4().to_string()
}

/// The text before the first hyphen (all of it when there is none).
pub open spec fn before_hyphen(s: Seq<char>) -> Seq<char> {
    split_at_char(s, '-')[0]
}

/// The text of `s` before its first hyphen.
pub fn text_before_hyphen(s: &str) -> (r: String)
    ensures
        r@ == before_hyphen(s@),
{
    let v = chars_of(s);
    let parts = split_chars(&v, '-');
    proof {
        lemma_split_nonempty(s@, '-');
    }
    string_of(&parts[0])
}

/// The ID of a local session named after `token`: `local-` and the token's
/// text before its first hyphen.
pub open spec fn local_session_id_from(token: Seq<char>) -> Seq<char> {
    "local-"@ + before_hyphen(token)
}

/// The ID of a container session of `user_id` named after `token`:
/// `octo-`, the user and the token's text before its first hyphen.
pub open spec fn container_session_id_from(user_id: Seq<char>, token: Seq<char>) -> Seq<char> {
    "octo-"@ + user_id + "-"@ + before_hyphen(token)
}

/// A fresh ID for a local session, from a random UUID.
pub fn new_local_session_id() -> (r: String)
    ensures
        exists|u: Seq<char>| is_uuid_text(u) && r@ == local_session_id_from(u),
{
    let u = new_uuid_text();
    let mut r = lit("local-");
    let p = text_before_hyphen(u.as_str());
    r.append(p.as_str());
    r
}

/// A fresh ID (and container name) for a container session of `user_id`,
/// from a random UUID.
pub fn new_container_session_id(user_id: &str) -> (r: String)
    ensures
        exists|u: Seq<char>| is_uuid_text(u) && r@ == container_session_id_from(user_id@, u),
{
    let u = new_uuid_text();
    let mut r = lit("octo-");
    r.append(user_id);
    r.append("-");
    let p = text_before_hyphen(u.as_str());
    r.append(p.as_str());
    r
}

// ---------------------------------------------------------------------------
// Backend configuration
// ---------------------------------------------------------------------------

/// `dirs::data_local_dir`: the user's local data directory, when the
/// platform and environment name one. Nothing is stated of the result: it
/// depends on the environment the process runs in.
#[verifier::external_body]
fn data_local_dir() -> (r: Option<String>) {
    match dirs::data_local_dir() {
        Some(p) => Some(p.to_string_lossy().to_string()),
        None => None,
    }
}

/// The environment variables of `add` set in order on an empty list.
pub open spec fn env_of(add: Seq<(Seq<char>, Seq<char>)>) -> Seq<(Seq<char>, Seq<char>)> {
    upsert_all(Seq::empty(), add)
}

fn env_list(add: &Vec<(String, String)>) -> (r: Vec<(String, String)>)
    ensures
        keys_distinct(pairs_view(r@)),
        pairs_view(r@) == env_of(pairs_view(add@)),
{
    let mut r: Vec<(String, String)> = Vec::new();
    let ghost a = pairs_view(add@);
    assert(pairs_view(r@) =~= Seq::<(Seq<char>, Seq<char>)>::empty());
    let mut i: usize = 0;
    while i < add.len()
        invariant
            i <= add@.len(),
            a == pairs_view(add@),
            keys_distinct(pairs_view(r@)),
            pairs_view(r@) == upsert_all(Seq::empty(), a.subrange(0, i as int)),
        decreases add.len() - i,
    {
        set_pair(&mut r, add[i].0.clone(), add[i].1.clone());
        proof {
            assert(a.subrange(0, i + 1).drop_last() =~= a.subrange(0, i as int));
        }
        i = i + 1;
    }
    assert(a.subrange(0, i as int) =~= a);
    r
}

/// Configuration for the local agent backend.
#[derive(Debug, Clone)]
pub struct LocalBackendConfig {
    /// Base data directory for all users: each user gets
    /// `{data_dir}/{user_id}/.local/share/opencode/`.
    pub data_dir: String,
    /// Base port for allocating session ports.
    pub base_port: u16,
    /// Whether to use single-user mode (no user isolation).
    pub single_user: bool,
}

impl Default for LocalBackendConfig {
    /// Users under `octo/users` in the local data directory
    /// (`/var/lib/octo` when the platform names none), ports from 41820,
    /// single-user.
    fn default() -> (r: Self)
        ensures
            exists|base: Seq<char>| r.data_dir@ == path_join(base, "octo/users"@),
            r.base_port == 41820,
            r.single_user,
    {
        let base = match data_local_dir() {
            Some(d) => d,
            None => lit("/var/lib/octo"),
        };
        LocalBackendConfig {
            data_dir: join_path(base.as_str(), "octo/users"),
            base_port: 41820,
            single_user: true,
        }
    }
}

/// Where a user's opencode data lives for the local backend: in
/// single-user mode `opencode` under the local data directory (`.` when
/// there is none), otherwise `.local/share/opencode` under the user's
/// directory.
pub open spec fn local_opencode_dir(
    c: LocalBackendConfig,
    user_id: Seq<char>,
    local_data_dir: Option<Seq<char>>,
) -> Seq<char> {
    if c.single_user {
        path_join(
            match local_data_dir {
                Some(d) => d,
                None => "."@,
            },
            "opencode"@,
        )
    } else {
        path_join(path_join(c.data_dir@, user_id), ".local/share/opencode"@)
    }
}

/// The environment a local session starts with: the requested variables,
/// plus `XDG_DATA_HOME` pointing into the user's directory unless in
/// single-user mode.
pub open spec fn local_session_env(
    c: LocalBackendConfig,
    user_id: Seq<char>,
    requested: Seq<(Seq<char>, Seq<char>)>,
) -> Seq<(Seq<char>, Seq<char>)> {
    if c.single_user {
        env_of(requested)
    } else {
        upsert(
            env_of(requested),
            "XDG_DATA_HOME"@,
            path_join(path_join(c.data_dir@, user_id), ".local/share"@),
        )
    }
}

impl LocalBackendConfig {
    /// The user's opencode data directory, given the local data directory
    /// the platform names (if any).
    pub fn opencode_data_dir_in(&self, user_id: &str, local_data_dir: Option<String>) -> (r:
        String)
        ensures
            r@ == local_opencode_dir(*self, user_id@, opt_view(local_data_dir)),
    {
        if self.single_user {
            let base = match local_data_dir {
                Some(d) => d,
                None => lit("."),
            };
            join_path(base.as_str(), "opencode")
        } else {
            let user_dir = join_path(self.data_dir.as_str(), user_id);
            join_path(user_dir.as_str(), ".local/share/opencode")
        }
    }

    /// The user's opencode data directory, where chat history is read from.
    pub fn opencode_data_dir(&self, user_id: &str) -> (r: String)
        ensures
            exists|d: Option<Seq<char>>| r@ == local_opencode_dir(*self, user_id@, d),
            !self.single_user ==> r@ == local_opencode_dir(*self, user_id@, None),
    {
        let d = data_local_dir();
        let ghost w = opt_view(d);
        let r = self.opencode_data_dir_in(user_id, d);
        assert(r@ == local_opencode_dir(*self, user_id@, w));
        r
    }

    /// The environment for a new session of `user_id`.
    pub fn session_env(&self, user_id: &str, opts: &StartSessionOpts) -> (r: Vec<(String, String)>)
        ensures
            keys_distinct(pairs_view(r@)),
            pairs_view(r@) == local_session_env(*self, user_id@, pairs_view(opts.env@)),
    {
        let mut env = env_list(&opts.env);
        if !self.single_user {
            let user_dir = join_path(self.data_dir.as_str(), user_id);
            let data = join_path(user_dir.as_str(), ".local/share");
            set_pair(&mut env, lit("XDG_DATA_HOME"), data);
        }
        env
    }

    /// The health the local backend reports: healthy, naming the programs it
    /// runs.
    pub fn health(
        &self,
        version: &str,
        opencode_binary: &str,
        ttyd_binary: &str,
        fileserver_binary: &str,
    ) -> (r: HealthStatus)
        ensures
            r.healthy,
            r.mode@ == "local"@,
            r.version matches Some(v) && v@ == version@,
            r.details matches Some(d) && d@ == "opencode: "@ + opencode_binary@ + ", ttyd: "@
                + ttyd_binary@ + ", fileserver: "@ + fileserver_binary@,
    {
        let mut d = lit("opencode: ");
        d.append(opencode_binary);
        d.append(", ttyd: ");
        d.append(ttyd_binary);
        d.append(", fileserver: ");
        d.append(fileserver_binary);
        HealthStatus {
            healthy: true,
            mode: lit("local"),
            version: Some(lit(version)),
            details: Some(d),
        }
    }
}

/// Configuration for the container agent backend.
#[derive(Debug, Clone)]
pub struct ContainerBackendConfig {
    /// Default container image to use.
    pub image: String,
    /// Base port for allocating session ports.
    pub base_port: u16,
    /// Base directory for user data on the host.
    pub data_dir: String,
    /// Whether to use host network mode.
    pub host_network: bool,
    /// Environment variables to pass to all containers, set in order.
    pub env: Vec<(String, String)>,
}

impl Default for ContainerBackendConfig {
    fn default() -> (r: Self)
        ensures
            r.image@ == "octo-dev:latest"@,
            r.base_port == 41820,
            r.data_dir@ == "/var/lib/octo/users"@,
            !r.host_network,
            r.env@.len() == 0,
    {
        ContainerBackendConfig {
            image: lit("octo-dev:latest"),
            base_port: 41820,
            data_dir: lit("/var/lib/octo/users"),
            host_network: false,
            env: Vec::new(),
        }
    }
}

/// The container ports each session port is published to: opencode on
/// 41820, ttyd on 7681, the fileserver on 8080.
pub open spec fn published_ports(ports: SessionPorts, m: Seq<PortMapping>) -> bool {
    &&& m.len() == 3
    &&& m[0].host_port == ports.opencode_port && m[0].container_port == 41820
    &&& m[1].host_port == ports.ttyd_port && m[1].container_port == 7681
    &&& m[2].host_port == ports.fileserver_port && m[2].container_port == 8080
    &&& forall|i: int| 0 <= i < 3 ==> (#[trigger] m[i]).protocol@ == "tcp"@
}

impl ContainerBackendConfig {
    /// The host directory holding a user's data.
    pub fn user_host_dir(&self, user_id: &str) -> (r: String)
        ensures
            r@ == path_join(self.data_dir@, user_id@),
    {
        join_path(self.data_dir.as_str(), user_id)
    }

    /// Where a user's opencode data lives on the host.
    pub fn user_data_dir(&self, user_id: &str) -> (r: String)
        ensures
            r@ == path_join(path_join(self.data_dir@, user_id@), ".local/share/opencode"@),
    {
        let d = self.user_host_dir(user_id);
        join_path(d.as_str(), ".local/share/opencode")
    }

    /// The container a new session runs in: named and addressed by the
    /// session ID; the user's directory mounted as `/home/dev` and the
    /// workspace as `/workspace` (also the working directory); the
    /// backend's environment, then the requested one, then `XDG_DATA_HOME`
    /// inside the container; the session ports published unless the host
    /// network is used.
    pub fn session_container(
        &self,
        session_id: &str,
        user_dir: &str,
        workdir: &str,
        ports: SessionPorts,
        opts: &StartSessionOpts,
    ) -> (r: ContainerConfig)
        ensures
            r.well_formed(),
            r.image@ == self.image@,
            r.name matches Some(n) && n@ == session_id@,
            r.hostname matches Some(h) && h@ == session_id@,
            r.command@.len() == 0,
            pairs_view(r.env@) == upsert(
                upsert_all(env_of(pairs_view(self.env@)), pairs_view(opts.env@)),
                "XDG_DATA_HOME"@,
                "/home/dev/.local/share"@,
            ),
            r.volumes@.len() == 2,
            r.volumes@[0].0@ == user_dir@ && r.volumes@[0].1@ == "/home/dev"@,
            r.volumes@[1].0@ == workdir@ && r.volumes@[1].1@ == "/workspace"@,
            r.workdir matches Some(w) && w@ == "/workspace"@,
            r.labels@.len() == 0,
            self.host_network ==> r.ports@.len() == 0 && (r.network_mode matches Some(m) && m@
                == "host"@),
            !self.host_network ==> published_ports(ports, r.ports@) && r.network_mode is None,
    {
        let mut c = ContainerConfig::new(self.image.as_str());
        assert(pairs_view(c.env@) =~= Seq::<(Seq<char>, Seq<char>)>::empty());
        c = c.envs(copy_pairs(&self.env));
        c = c.envs(copy_pairs(&opts.env));
        c = c.env("XDG_DATA_HOME", "/home/dev/.local/share");
        c = c.name(session_id);
        c = c.hostname(session_id);
        c = c.volume(user_dir, "/home/dev");
        c = c.volume(workdir, "/workspace");
        c = c.workdir("/workspace");
        if self.host_network {
            c = c.network_mode("host");
        } else {
            c = c.port(ports.opencode_port, 41820);
            c = c.port(ports.ttyd_port, 7681);
            c = c.port(ports.fileserver_port, 8080);
        }
        c
    }

    /// The health the container backend reports: healthy with the image
    /// when the runtime answered, otherwise unhealthy with the runtime's
    /// error.
    pub fn health(&self, version: &str, runtime_error: Option<String>) -> (r: HealthStatus)
        ensures
            r.healthy == runtime_error is None,
            r.mode@ == "container"@,
            r.version matches Some(v) && v@ == version@,
            r.details matches Some(d) && d@ == match runtime_error {
                None => "image: "@ + self.image@,
                Some(e) => "runtime error: "@ + e@,
            },
    {
        let (healthy, details) = match runtime_error {
            None => {
                let mut d = lit("image: ");
                d.append(self.image.as_str());
                (true, d)
            },
            Some(e) => {
                let mut d = lit("runtime error: ");
                d.append(e.as_str());
                (false, d)
            },
        };
        HealthStatus {
            healthy,
            mode: lit("container"),
            version: Some(lit(version)),
            details: Some(details),
        }
    }
}


/// `h` hands out the tracked session `s` again, for `workdir`.
pub open spec fn is_reuse_handle(
    h: SessionHandle,
    s: TrackedSession,
    resume: Option<String>,
    workdir: Seq<char>,
) -> bool {
    &&& h.session_id@ == s.session_id@
    &&& h.opencode_session_id == resume
    &&& h.api_url@ == localhost_url(s.ports.opencode_port)
    &&& h.opencode_port == s.ports.opencode_port
    &&& h.ttyd_port == s.ports.ttyd_port
    &&& h.fileserver_port == s.ports.fileserver_port
    &&& h.workdir@ == workdir
    &&& !h.is_new
}

impl SessionTable {
    /// What the local backend answers a start request with when it already
    /// runs a session for the same user and working directory: that
    /// session, not new. `None` when there is none, and a new session must
    /// be started.
    pub fn reuse_local(&self, user_id: &str, workdir: &str, resume_session_id: Option<String>) -> (r:
        Option<SessionHandle>)
        ensures
            match r {
                Some(h) => exists|k: Seq<char>|
                    #![trigger self@[k]]
                    self@.contains_key(k) && self@[k].user_id@ == user_id@ && self@[k].workdir@
                        == workdir@ && is_reuse_handle(h, self@[k], resume_session_id, workdir@),
                None => forall|k: Seq<char>| #[trigger]
                    self@.contains_key(k) ==> !(self@[k].user_id@ == user_id@ && self@[k].workdir@
                        == workdir@),
            },
    {
        match self.find_for_workdir(user_id, workdir) {
            Some(s) => {
                let h = session_handle(s.session_id.clone(), resume_session_id, s.ports, lit(workdir), false);
                assert(is_reuse_handle(h, self@[s.session_id@], resume_session_id, workdir@));
                Some(h)
            },
            None => None,
        }
    }

    /// What the container backend answers a start request with when it
    /// already runs a session for the same user (whatever its working
    /// directory): that session, not new. `None` when there is none.
    pub fn reuse_container(&self, user_id: &str, workdir: &str, resume_session_id: Option<String>) -> (r:
        Option<SessionHandle>)
        ensures
            match r {
                Some(h) => exists|k: Seq<char>|
                    #![trigger self@[k]]
                    self@.contains_key(k) && self@[k].user_id@ == user_id@ && is_reuse_handle(
                        h,
                        self@[k],
                        resume_session_id,
                        workdir@,
                    ),
                None => forall|k: Seq<char>| #[trigger]
                    self@.contains_key(k) ==> self@[k].user_id@ != user_id@,
            },
    {
        match self.find_for_user(user_id) {
            Some(s) => {
                let h = session_handle(s.session_id.clone(), resume_session_id, s.ports, lit(workdir), false);
                assert(is_reuse_handle(h, self@[s.session_id@], resume_session_id, workdir@));
                Some(h)
            },
            None => None,
        }
    }
}

/// `p` is the part that a stored chat part `c` becomes: chosen by its type
/// (see `part_kind_of`); a tool part carries the stored tool state, with no
/// call ID or metadata; a finished step carries no reason or usage.
pub open spec fn is_part_of_chat(p: MessagePart, c: crate::history::ChatMessagePart) -> bool {
    match part_kind_of(c.part_type@) {
        PartKind::Text => p matches MessagePart::Text { text } && text@ == text_or_empty(c.text),
        PartKind::Tool => p matches MessagePart::Tool { tool, call_id, state } && tool@ == text_or_empty(
            c.tool_name,
        ) && call_id is None && (state matches Some(st) && st.status == c.tool_status && st.input
            == c.tool_input && st.output == c.tool_output && st.title == c.tool_title && st.metadata is None),
        PartKind::StepStart => p is StepStart,
        PartKind::StepFinish => p matches MessagePart::StepFinish { reason, tokens } && reason is None
            && tokens is None,
        PartKind::Unknown => p is Unknown,
    }
}

/// `r` is the message a stored chat message `m` becomes: its fields carried
/// over, each part mapped by `is_part_of_chat`, the model as
/// `message_model` and the usage as `stored_token_usage` give them.
pub open spec fn is_message_of_chat(r: Message, m: crate::history::ChatMessage) -> bool {
    &&& r.id == m.id
    &&& r.session_id == m.session_id
    &&& r.role == m.role
    &&& r.created_at == m.created_at
    &&& r.completed_at == m.completed_at
    &&& r.parts@.len() == m.parts@.len()
    &&& forall|i: int| 0 <= i < m.parts@.len() ==> is_part_of_chat(#[trigger] r.parts@[i], m.parts@[i])
    &&& (r.model is Some <==> (m.provider_id is Some || m.model_id is Some))
    &&& (r.model matches Some(x) ==> x.provider_id@ == text_or_empty(m.provider_id) && x.model_id@
        == text_or_empty(m.model_id))
    &&& (r.tokens is Some <==> (m.tokens_input is Some || m.tokens_output is Some))
    &&& (r.tokens matches Some(t) ==> t.input == m.tokens_input && t.output == m.tokens_output
        && t.reasoning is None && t.cache is None)
}

/// The message part a stored chat part becomes (see `is_part_of_chat`).
pub fn message_part_of_chat(c: crate::history::ChatMessagePart) -> (r: MessagePart)
    ensures
        is_part_of_chat(r, c),
{
    let kind = part_kind(c.part_type.as_str());
    let crate::history::ChatMessagePart {
        id: _,
        part_type: _,
        text,
        tool_name,
        tool_input,
        tool_output,
        tool_status,
        tool_title,
    } = c;
    match kind {
        PartKind::Text => MessagePart::Text { text: string_or_empty(text) },
        PartKind::Tool => MessagePart::Tool {
            tool: string_or_empty(tool_name),
            call_id: None,
            state: Some(
                ToolState {
                    status: tool_status,
                    input: tool_input,
                    output: tool_output,
                    title: tool_title,
                    metadata: None,
                },
            ),
        },
        PartKind::StepStart => MessagePart::StepStart,
        PartKind::StepFinish => MessagePart::StepFinish { reason: None, tokens: None },
        PartKind::Unknown => MessagePart::Unknown,
    }
}

/// The message a stored chat message becomes, as the local backend returns
/// it (see `is_message_of_chat`).
pub fn message_of_chat(m: crate::history::ChatMessage) -> (r: Message)
    ensures
        is_message_of_chat(r, m),
{
    let crate::history::ChatMessage {
        id,
        session_id,
        role,
        created_at,
        completed_at,
        parent_id: _,
        model_id,
        provider_id,
        agent: _,
        summary_title: _,
        tokens_input,
        tokens_output,
        parts,
    } = m;
    let mut rest = parts;
    let mut out: Vec<MessagePart> = Vec::new();
    let ghost all = rest@;
    while rest.len() > 0
        invariant
            out@.len() + rest@.len() == all.len(),
            rest@ == all.subrange(out@.len() as int, all.len() as int),
            forall|i: int| 0 <= i < out@.len() ==> is_part_of_chat(#[trigger] out@[i], all[i]),
        decreases rest.len(),
    {
        let ghost k = out@.len();
        let c = rest.remove(0);
        assert(c == all[k as int]);
        let p = message_part_of_chat(c);
        out.push(p);
        assert(rest@ =~= all.subrange(out@.len() as int, all.len() as int));
    }
    let model = message_model(provider_id, model_id);
    let tokens = stored_token_usage(tokens_input, tokens_output);
    Message { id, session_id, role, parts: out, created_at, completed_at, model, tokens }
}

/// The stored chat messages of a conversation as the local backend returns
/// them, in order (see `is_message_of_chat`).
pub fn messages_of_chat(ms: Vec<crate::history::ChatMessage>) -> (r: Vec<Message>)
    ensures
        r@.len() == ms@.len(),
        forall|i: int| 0 <= i < ms@.len() ==> is_message_of_chat(#[trigger] r@[i], ms@[i]),
{
    let mut rest = ms;
    let mut out: Vec<Message> = Vec::new();
    let ghost all = rest@;
    while rest.len() > 0
        invariant
            out@.len() + rest@.len() == all.len(),
            rest@ == all.subrange(out@.len() as int, all.len() as int),
            forall|i: int| 0 <= i < out@.len() ==> is_message_of_chat(#[trigger] out@[i], all[i]),
        decreases rest.len(),
    {
        let ghost k = out@.len();
        let m = rest.remove(0);
        assert(m == all[k as int]);
        let x = message_of_chat(m);
        out.push(x);
        assert(rest@ =~= all.subrange(out@.len() as int, all.len() as int));
    }
    out
}

/// Some tracked session belongs to `user_id` and works in `workdir`.
pub open spec fn runs_for_workdir(m: Map<Seq<char>, TrackedSession>, user_id: Seq<char>, workdir: Seq<char>) -> bool {
    exists|k: Seq<char>|
        #![trigger m[k]]
        m.contains_key(k) && m[k].user_id@ == user_id && m[k].workdir@ == workdir
}

/// Some tracked session belongs to `user_id`.
pub open spec fn runs_for_user(m: Map<Seq<char>, TrackedSession>, user_id: Seq<char>) -> bool {
    exists|k: Seq<char>| #![trigger m[k]] m.contains_key(k) && m[k].user_id@ == user_id
}

/// How a backend answers a start request before any outside work.
#[derive(Debug)]
pub enum StartDecision {
    /// Hand out the session already running.
    Reuse(SessionHandle),
    /// Start a new session on these ports.
    Launch(SessionPorts),
}

impl SessionTable {
    /// The local backend's start request: the session already running for
    /// this user and working directory, else three new ports for a new
    /// session. (The port counter overflows only when a new session is
    /// needed past the last ports.)
    pub fn begin_local_start(&mut self, user_id: &str, workdir: &str, resume_session_id: Option<String>) -> (r:
        StartDecision)
        requires
            runs_for_workdir(old(self)@, user_id@, workdir@) || old(self).upcoming_port() <= 65532,
        ensures
            final(self)@ == old(self)@,
            match r {
                StartDecision::Reuse(h) => exists|k: Seq<char>|
                    #![trigger old(self)@[k]]
                    old(self)@.contains_key(k) && old(self)@[k].user_id@ == user_id@ && old(self)@[k].workdir@
                        == workdir@ && is_reuse_handle(h, old(self)@[k], resume_session_id, workdir@),
                StartDecision::Launch(p) => !runs_for_workdir(old(self)@, user_id@, workdir@)
                    && p.opencode_port == old(self).upcoming_port() && p.ttyd_port == old(self).upcoming_port()
                    + 1 && p.fileserver_port == old(self).upcoming_port() + 2,
            },
            r is Reuse ==> final(self).upcoming_port() == old(self).upcoming_port(),
            r is Launch ==> final(self).upcoming_port() == old(self).upcoming_port() + 3,
    {
        match self.reuse_local(user_id, workdir, resume_session_id) {
            Some(h) => StartDecision::Reuse(h),
            None => StartDecision::Launch(self.allocate_ports()),
        }
    }

    /// The container backend's start request: the session already running
    /// for this user (whatever its working directory), else three new ports.
    pub fn begin_container_start(&mut self, user_id: &str, workdir: &str, resume_session_id: Option<String>) -> (r:
        StartDecision)
        requires
            runs_for_user(old(self)@, user_id@) || old(self).upcoming_port() <= 65532,
        ensures
            final(self)@ == old(self)@,
            match r {
                StartDecision::Reuse(h) => exists|k: Seq<char>|
                    #![trigger old(self)@[k]]
                    old(self)@.contains_key(k) && old(self)@[k].user_id@ == user_id@ && is_reuse_handle(
                        h,
                        old(self)@[k],
                        resume_session_id,
                        workdir@,
                    ),
                StartDecision::Launch(p) => !runs_for_user(old(self)@, user_id@) && p.opencode_port == old(
                    self,
                ).upcoming_port() && p.ttyd_port == old(self).upcoming_port() + 1 && p.fileserver_port == old(
                    self,
                ).upcoming_port() + 2,
            },
            r is Reuse ==> final(self).upcoming_port() == old(self).upcoming_port(),
            r is Launch ==> final(self).upcoming_port() == old(self).upcoming_port() + 3,
    {
        match self.reuse_container(user_id, workdir, resume_session_id) {
            Some(h) => StartDecision::Reuse(h),
            None => StartDecision::Launch(self.allocate_ports()),
        }
    }

    /// Once the new session runs: track it and hand it out as new.
    pub fn finish_start(
        &mut self,
        session_id: String,
        container_id: Option<String>,
        user_id: &str,
        workdir: &str,
        ports: SessionPorts,
        resume_session_id: Option<String>,
    ) -> (r: SessionHandle)
        ensures
            final(self)@.dom() == old(self)@.dom().insert(session_id@),
            forall|k: Seq<char>| #[trigger]
                old(self)@.contains_key(k) && k != session_id@ ==> final(self)@[k] == old(self)@[k],
            final(self)@[session_id@].session_id@ == session_id@,
            final(self)@[session_id@].container_id == container_id,
            final(self)@[session_id@].user_id@ == user_id@,
            final(self)@[session_id@].workdir@ == workdir@,
            final(self)@[session_id@].ports == ports,
            final(self).upcoming_port() == old(self).upcoming_port(),
            r.session_id@ == session_id@,
            r.opencode_session_id == resume_session_id,
            r.api_url@ == localhost_url(ports.opencode_port),
            r.opencode_port == ports.opencode_port,
            r.ttyd_port == ports.ttyd_port,
            r.fileserver_port == ports.fileserver_port,
            r.workdir@ == workdir@,
            r.is_new,
    {
        let tracked_session = TrackedSession {
            session_id: session_id.clone(),
            container_id,
            user_id: lit(user_id),
            workdir: lit(workdir),
            ports,
        };
        self.insert(tracked_session);
        session_handle(session_id, resume_session_id, ports, lit(workdir), true)
    }
}

/// A session just started for a user and working directory is the one the
/// next start request for them finds running (so the local backend reuses
/// it), and the container backend finds one for that user.
pub proof fn law_started_session_is_reused(m: Map<Seq<char>, TrackedSession>, s: TrackedSession)
    ensures
        runs_for_workdir(m.insert(s.session_id@, s), s.user_id@, s.workdir@),
        runs_for_user(m.insert(s.session_id@, s), s.user_id@),
{
    let m2 = m.insert(s.session_id@, s);
    assert(m2.contains_key(s.session_id@) && m2[s.session_id@] == s);
}

} // verus!
