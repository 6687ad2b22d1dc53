//! What the HTTP API answers, apart from the transport: the records it
//! sends and receives, session service addresses, persona summaries,
//! workspace directory listings, authentication cookies and the choice of
//! login identity.

use vstd::prelude::*;
use crate::agent_service::Session;
use crate::api_error::ApiError;
use crate::auth::AuthError;
use crate::agent_rpc::{is_uuid_text, new_uuid_text, opt_view};
use crate::text::{decimal, decimal_string, lowercase_of, to_lowercase};
use crate::text::{sort_strings, strings_sorted, strings_view, 
    chars_lt, chars_of, copy_opt, lemma_lex_order, lex_lt, lit, split_at_char, split_chars,
    lemma_split_nonempty, string_of,
};

verus! {

broadcast use vstd::string::group_string_axioms;

// ---------------------------------------------------------------------------
// Health
// ---------------------------------------------------------------------------

/// Health check response.
#[derive(Debug, Clone)]
pub struct HealthResponse {
    pub status: String,
    pub version: String,
}

/// The health check answer of a running server of the given version.
pub fn health_response(version: &str) -> (r: HealthResponse)
    ensures
        r.status@ == "ok"@,
        r.version@ == version@,
{
    HealthResponse { status: lit("ok"), version: lit(version) }
}

// ---------------------------------------------------------------------------
// Sessions and personas
// ---------------------------------------------------------------------------

/// URLs for accessing session services.
#[derive(Debug, Clone)]
pub struct SessionUrls {
    pub opencode: String,
    pub fileserver: String,
    pub terminal: String,
}

/// The API path of a session's service.
pub open spec fn session_service_path(session_id: Seq<char>, service: Seq<char>) -> Seq<char> {
    "/session/"@ + session_id + "/"@ + service
}

/// The paths of a session's code, files and terminal services.
pub fn session_urls(session_id: &str) -> (r: SessionUrls)
    ensures
        r.opencode@ == session_service_path(session_id@, "code"@),
        r.fileserver@ == session_service_path(session_id@, "files"@),
        r.terminal@ == session_service_path(session_id@, "term"@),
{
    let mut opencode = lit("/session/");
    opencode.append(session_id);
    opencode.append("/");
    opencode.append("code");
    let mut fileserver = lit("/session/");
    fileserver.append(session_id);
    fileserver.append("/");
    fileserver.append("files");
    let mut terminal = lit("/session/");
    terminal.append(session_id);
    terminal.append("/");
    terminal.append("term");
    SessionUrls { opencode, fileserver, terminal }
}

/// Which directories a persona may work in.
#[derive(Debug, Clone, Copy, PartialEq, Eq, Structural)]
pub enum WorkspaceMode {
    /// Only its default working directory.
    DefaultOnly,
    /// Asks which directory to use.
    Ask,
    /// Any directory.
    Any,
}

/// The name a workspace mode is reported under.
pub open spec fn workspace_mode_name(m: WorkspaceMode) -> Seq<char> {
    match m {
        WorkspaceMode::DefaultOnly => "default_only"@,
        WorkspaceMode::Ask => "ask"@,
        WorkspaceMode::Any => "any"@,
    }
}

/// A persona as loaded from its directory.
#[derive(Debug)]
pub struct Persona {
    /// Unique identifier (directory name).
    pub id: String,
    /// Display name.
    pub name: String,
    /// Short description of what this persona does.
    pub description: String,
    /// Accent color for UI (hex color).
    pub color: Option<String>,
    /// Path to avatar image (relative to persona directory).
    pub avatar: Option<String>,
    /// Whether this is the default persona.
    pub is_default: bool,
    /// The opencode agent the persona runs.
    pub agent_id: String,
    /// Default working directory.
    pub default_workdir: Option<String>,
    /// Which directories it may work in.
    pub workspace_mode: WorkspaceMode,
    /// Whether it has its own directory with opencode.json.
    pub standalone: bool,
    /// Whether it can work on external projects.
    pub project_access: bool,
}

/// Persona response for API.
#[derive(Debug, Clone)]
pub struct PersonaResponse {
    pub id: String,
    pub name: String,
    pub description: String,
    pub color: Option<String>,
    pub avatar: Option<String>,
    pub is_default: bool,
    pub agent_id: String,
    pub default_workdir: Option<String>,
    /// Workspace mode: "default_only", "ask" or "any".
    pub workspace_mode: String,
    pub standalone: bool,
    pub project_access: bool,
}

impl PersonaResponse {
    /// The API summary of a persona.
    pub fn from_persona(p: Persona) -> (r: Self)
        ensures
            r.id == p.id,
            r.name == p.name,
            r.description == p.description,
            r.color == p.color,
            r.avatar == p.avatar,
            r.is_default == p.is_default,
            r.agent_id == p.agent_id,
            r.default_workdir == p.default_workdir,
            r.workspace_mode@ == workspace_mode_name(p.workspace_mode),
            r.standalone == p.standalone,
            r.project_access == p.project_access,
    {
        let workspace_mode = match p.workspace_mode {
            WorkspaceMode::DefaultOnly => lit("default_only"),
            WorkspaceMode::Ask => lit("ask"),
            WorkspaceMode::Any => lit("any"),
        };
        PersonaResponse {
            id: p.id,
            name: p.name,
            description: p.description,
            color: p.color,
            avatar: p.avatar,
            is_default: p.is_default,
            agent_id: p.agent_id,
            default_workdir: p.default_workdir,
            workspace_mode,
            standalone: p.standalone,
            project_access: p.project_access,
        }
    }
}

/// Session response with URLs and persona info.
#[derive(Debug)]
pub struct SessionWithUrls {
    pub session: Session,
    pub urls: SessionUrls,
    /// Persona metadata, when the session has a persona directory that
    /// loaded.
    pub persona: Option<Persona>,
}

/// The persona shown with a session: the one loaded from its persona
/// directory, and none when it has no such directory.
pub open spec fn shown_persona(session: Session, loaded: Option<Persona>) -> Option<Persona> {
    if session.persona_path is Some {
        loaded
    } else {
        None
    }
}

impl SessionWithUrls {
    /// A session with the paths of its services and its persona (`loaded`
    /// is what loading its persona directory gave).
    pub fn from_session(session: Session, host: &str, loaded: Option<Persona>) -> (r: Self)
        ensures
            r.session == session,
            r.urls.opencode@ == session_service_path(session.id@, "code"@),
            r.urls.fileserver@ == session_service_path(session.id@, "files"@),
            r.urls.terminal@ == session_service_path(session.id@, "term"@),
            r.persona == shown_persona(session, loaded),
    {
        let urls = session_urls(session.id.as_str());
        let persona = if session.persona_path.is_some() {
            loaded
        } else {
            None
        };
        SessionWithUrls { session, urls, persona }
    }
}

/// Session with persona info for list responses.
#[derive(Debug)]
pub struct SessionWithPersona {
    pub session: Session,
    pub persona: Option<Persona>,
}

impl SessionWithPersona {
    /// A session with its persona (`loaded` is what loading its persona
    /// directory gave).
    pub fn from_session(session: Session, loaded: Option<Persona>) -> (r: Self)
        ensures
            r.session == session,
            r.persona == shown_persona(session, loaded),
    {
        let persona = if session.persona_path.is_some() {
            loaded
        } else {
            None
        };
        SessionWithPersona { session, persona }
    }
}

/// Request for getting or creating a session for a specific workspace.
#[derive(Debug, Clone)]
pub struct GetOrCreateForWorkspaceRequest {
    /// Path to the workspace directory.
    pub workspace_path: String,
}

/// Response for session update check.
#[derive(Debug, Clone)]
pub struct SessionUpdateStatus {
    pub session_id: String,
    pub update_available: bool,
    pub new_digest: Option<String>,
}

/// The update status of a session, from the digest of a newer image (if
/// one exists).
pub fn session_update_status(session_id: String, new_digest: Option<String>) -> (r:
    SessionUpdateStatus)
    ensures
        r.session_id == session_id,
        r.update_available == new_digest is Some,
        r.new_digest == new_digest,
{
    let update_available = new_digest.is_some();
    SessionUpdateStatus { session_id, update_available, new_digest }
}

/// The statuses reported for the sessions that have an update: each
/// (session, digest) pair in order, all with an update available.
pub fn pending_updates(updates: Vec<(String, String)>) -> (r: Vec<SessionUpdateStatus>)
    ensures
        r@.len() == updates@.len(),
        forall|i: int|
            0 <= i < r@.len() ==> (#[trigger] r@[i]).session_id == updates@[i].0
                && r@[i].update_available && r@[i].new_digest == Some(updates@[i].1),
{
    let ghost all = updates@;
    let mut rest = updates;
    let mut rev: Vec<SessionUpdateStatus> = Vec::new();
    while rest.len() > 0
        invariant
            rest@.len() + rev@.len() == all.len(),
            forall|i: int| 0 <= i < rest@.len() ==> #[trigger] rest@[i] == all[i],
            forall|i: int|
                0 <= i < rev@.len() ==> (#[trigger] rev@[i]).session_id == all[all.len() - 1 - i].0
                    && rev@[i].update_available && rev@[i].new_digest == Some(
                    all[all.len() - 1 - i].1,
                ),
        decreases rest.len(),
    {
        let (session_id, digest) = rest.pop().unwrap();
        rev.push(session_update_status(session_id, Some(digest)));
    }
    let mut r: Vec<SessionUpdateStatus> = Vec::new();
    while rev.len() > 0
        invariant
            rev@.len() + r@.len() == all.len(),
            forall|i: int|
                0 <= i < rev@.len() ==> (#[trigger] rev@[i]).session_id == all[all.len() - 1 - i].0
                    && rev@[i].update_available && rev@[i].new_digest == Some(
                    all[all.len() - 1 - i].1,
                ),
            forall|i: int|
                0 <= i < r@.len() ==> (#[trigger] r@[i]).session_id == all[i].0
                    && r@[i].update_available && r@[i].new_digest == Some(all[i].1),
        decreases rev.len(),
    {
        let s = rev.pop().unwrap();
        r.push(s);
    }
    r
}

// ---------------------------------------------------------------------------
// Workspace directories
// ---------------------------------------------------------------------------

/// Query for listing workspace directories.
#[derive(Debug, Clone)]
pub struct WorkspaceDirQuery {
    pub path: Option<String>,
}

/// Workspace directory entry.
#[derive(Debug, Clone)]
pub struct WorkspaceDirEntry {
    pub name: String,
    pub path: String,
    /// Always "directory".
    pub entry_type: String,
}

/// The directory a listing asks for, relative to the workspace root
/// (`.` when none is given).
pub open spec fn requested_dir(q: WorkspaceDirQuery) -> Seq<char> {
    match q.path {
        Some(p) => p@,
        None => "."@,
    }
}

/// A relative path that stays inside the root: not absolute and without a
/// `..` component.
pub open spec fn stays_inside(p: Seq<char>) -> bool {
    !(p.len() > 0 && p[0] == '/') && !split_at_char(p, '/').contains(".."@)
}

/// The directory to list, relative to the workspace root, or a bad request
/// ("invalid path") when it would leave the root.
pub fn workspace_dir_relative(query: &WorkspaceDirQuery) -> (r: Result<String, ApiError>)
    ensures
        stays_inside(requested_dir(*query)) ==> (r matches Ok(p) && p@ == requested_dir(*query)),
        !stays_inside(requested_dir(*query)) ==> (r matches Err(ApiError::BadRequest(m)) && m@
            == "invalid path"@),
{
    let rel = match &query.path {
        Some(p) => p.clone(),
        None => lit("."),
    };
    let v = chars_of(rel.as_str());
    let absolute = v.len() > 0 && v[0] == '/';
    let parts = split_chars(&v, '/');
    let mut parent = false;
    let mut i: usize = 0;
    while i < parts.len()
        invariant
            i <= parts@.len(),
            parts@.len() == split_at_char(v@, '/').len(),
            forall|k: int| 0 <= k < parts@.len() ==> (#[trigger] parts@[k])@ == split_at_char(v@, '/')[k],
            parent <==> exists|k: int| 0 <= k < i && #[trigger] split_at_char(v@, '/')[k] == ".."@,
        decreases parts.len() - i,
    {
        let p = &parts[i];
        if p.len() == 2 && p[0] == '.' && p[1] == '.' {
            assert(p@ =~= ".."@) by {
                reveal_strlit("..");
            }
            parent = true;
        } else {
            assert(p@ != ".."@) by {
                reveal_strlit("..");
            }
        }
        i = i + 1;
    }
    proof {
        let sp = split_at_char(v@, '/');
        if sp.contains(".."@) {
            let k = choose|k: int| 0 <= k < sp.len() && sp[k] == ".."@;
            assert(sp[k] == ".."@);
        }
    }
    if absolute || parent {
        Err(ApiError::bad_request("invalid path"))
    } else {
        Ok(rel)
    }
}

/// The pieces of a relative path that name directories: empty and `.`
/// pieces dropped.
pub open spec fn named_parts(parts: Seq<Seq<char>>) -> Seq<Seq<char>>
    decreases parts.len(),
{
    if parts.len() == 0 {
        parts
    } else if parts.last().len() == 0 || parts.last() == "."@ {
        named_parts(parts.drop_last())
    } else {
        named_parts(parts.drop_last()).push(parts.last())
    }
}

/// Pieces joined with `/`.
pub open spec fn slash_joined(parts: Seq<Seq<char>>) -> Seq<char>
    decreases parts.len(),
{
    if parts.len() == 0 {
        Seq::empty()
    } else if parts.len() == 1 {
        parts[0]
    } else {
        slash_joined(parts.drop_last()) + "/"@ + parts.last()
    }
}

/// The path reported for subdirectory `name` of the listed directory
/// `relative`: its location below the workspace root.
pub open spec fn entry_path(relative: Seq<char>, name: Seq<char>) -> Seq<char> {
    slash_joined(named_parts(split_at_char(relative, '/')).push(name))
}

/// The names of `e`.
pub open spec fn entry_names(e: Seq<WorkspaceDirEntry>) -> Seq<Seq<char>> {
    Seq::new(e.len(), |i: int| e[i].name@)
}

/// The names of `e`, as strings.
pub open spec fn entry_name_strings(e: Seq<WorkspaceDirEntry>) -> Seq<String> {
    Seq::new(e.len(), |i: int| e[i].name)
}

fn named_parts_of(parts: &Vec<Vec<char>>) -> (r: Vec<Vec<char>>)
    ensures
        r@.len() == named_parts(Seq::new(parts@.len(), |i: int| parts@[i]@)).len(),
        forall|k: int| 0 <= k < r@.len() ==> (#[trigger] r@[k])@ == named_parts(Seq::new(parts@.len(), |i: int| parts@[i]@))[k],
{
    let ghost all = Seq::new(parts@.len(), |i: int| parts@[i]@);
    let mut r: Vec<Vec<char>> = Vec::new();
    let mut i: usize = 0;
    while i < parts.len()
        invariant
            i <= parts@.len(),
            all == Seq::new(parts@.len(), |i: int| parts@[i]@),
            r@.len() == named_parts(all.subrange(0, i as int)).len(),
            forall|k: int| 0 <= k < r@.len() ==> (#[trigger] r@[k])@ == named_parts(all.subrange(0, i as int))[k],
        decreases parts.len() - i,
    {
        let p = &parts[i];
        let ghost pre = all.subrange(0, i as int);
        assert(all.subrange(0, i + 1).drop_last() =~= pre);
        assert(all.subrange(0, i + 1).last() == p@);
        let is_dot = p.len() == 1 && p[0] == '.';
        proof {
            reveal_strlit(".");
            if is_dot {
                assert(p@ =~= "."@);
            } else {
                assert(p@ != "."@);
            }
        }
        if !(p.len() == 0 || is_dot) {
            r.push(p.clone());
        }
        i = i + 1;
    }
    assert(all.subrange(0, i as int) =~= all);
    r
}

fn slash_join(parts: &Vec<Vec<char>>) -> (r: String)
    ensures
        r@ == slash_joined(Seq::new(parts@.len(), |i: int| parts@[i]@)),
{
    let ghost all = Seq::new(parts@.len(), |i: int| parts@[i]@);
    let mut r = String::new();
    let mut i: usize = 0;
    while i < parts.len()
        invariant
            i <= parts@.len(),
            all == Seq::new(parts@.len(), |i: int| parts@[i]@),
            r@ == slash_joined(all.subrange(0, i as int)),
        decreases parts.len() - i,
    {
        assert(all.subrange(0, i + 1).drop_last() =~= all.subrange(0, i as int));
        if i > 0 {
            r.append("/");
        }
        let s = string_of(&parts[i]);
        r.append(s.as_str());
        proof {
            if i == 0 {
                assert(all.subrange(0, 1) =~= seq![all[0]]);
            }
        }
        i = i + 1;
    }
    assert(all.subrange(0, i as int) =~= all);
    r
}

/// The path of subdirectory `name` below the workspace root (see
/// `entry_path`).
pub fn workspace_entry_path(relative: &str, name: &str) -> (r: String)
    ensures
        r@ == entry_path(relative@, name@),
{
    let v = chars_of(relative);
    let parts = split_chars(&v, '/');
    let mut named = named_parts_of(&parts);
    let ghost sp = Seq::new(parts@.len(), |i: int| parts@[i]@);
    assert(sp =~= split_at_char(relative@, '/'));
    let ghost before = named@;
    named.push(chars_of(name));
    assert(Seq::new(named@.len(), |i: int| named@[i]@) =~= named_parts(split_at_char(relative@, '/')).push(name@));
    slash_join(&named)
}

/// The listing of the subdirectories `names` of the directory `relative`
/// below the workspace root: one entry per name, sorted by name, each with
/// its path below the root.
pub fn workspace_dir_entries(relative: &str, names: Vec<String>) -> (r: Vec<WorkspaceDirEntry>)
    ensures
        r@.len() == names@.len(),
        entry_name_strings(r@).to_multiset() == names@.to_multiset(),
        strings_sorted(entry_names(r@)),
        forall|i: int|
            0 <= i < r@.len() ==> (#[trigger] r@[i]).path@ == entry_path(relative@, r@[i].name@)
                && r@[i].entry_type@ == "directory"@,
{
    broadcast use vstd::seq_lib::group_to_multiset_ensures;

    let sorted = sort_strings(names);
    let mut r: Vec<WorkspaceDirEntry> = Vec::new();
    let mut i: usize = 0;
    while i < sorted.len()
        invariant
            i <= sorted@.len(),
            r@.len() == i,
            forall|k: int| 0 <= k < i ==> (#[trigger] r@[k]).name == sorted@[k],
            forall|k: int|
                0 <= k < i ==> (#[trigger] r@[k]).path@ == entry_path(relative@, r@[k].name@)
                    && r@[k].entry_type@ == "directory"@,
        decreases sorted.len() - i,
    {
        let name = sorted[i].clone();
        let path = workspace_entry_path(relative, name.as_str());
        r.push(WorkspaceDirEntry { name, path, entry_type: lit("directory") });
        i = i + 1;
    }
    assert(entry_names(r@) =~= strings_view(sorted@));
    assert(entry_name_strings(r@) =~= sorted@);
    r
}

// ---------------------------------------------------------------------------
// Authentication
// ---------------------------------------------------------------------------

/// Login request.
#[derive(Debug, Clone)]
pub struct LoginRequest {
    pub username: String,
    pub password: String,
}

/// User info in login responses.
#[derive(Debug, Clone)]
pub struct UserInfo {
    pub id: String,
    pub name: String,
    pub email: String,
    pub role: String,
}

/// Login response.
#[derive(Debug, Clone)]
pub struct LoginResponse {
    pub token: String,
    pub user: UserInfo,
}

/// Registration request.
#[derive(Debug, Clone)]
pub struct RegisterRequest {
    pub username: String,
    pub email: String,
    pub password: String,
    pub invite_code: String,
    pub display_name: Option<String>,
}

/// Registration response.
#[derive(Debug, Clone)]
pub struct RegisterResponse {
    pub token: String,
    pub user: UserInfo,
}

/// Request body for updating one's own profile.
#[derive(Debug, Clone)]
pub struct UpdateMeRequest {
    pub display_name: Option<String>,
    pub avatar_url: Option<String>,
    pub settings: Option<String>,
}

/// Invite code statistics.
#[derive(Debug, Clone, Copy)]
pub struct InviteCodeStats {
    pub total: i64,
    pub valid: i64,
}

/// Query for listing agents.
#[derive(Debug, Clone, Copy)]
pub struct AgentListQuery {
    pub include_context: bool,
}

/// The cookie that carries `token`: HTTP-only, lax same-site, for one day,
/// and marked secure except in development mode (so that plain
/// `http://localhost` works).
pub open spec fn auth_cookie_text(token: Seq<char>, dev_mode: bool) -> Seq<char> {
    "auth_token="@ + token + "; Path=/; HttpOnly; SameSite=Lax;"@ + (if dev_mode {
        Seq::<char>::empty()
    } else {
        " Secure;"@
    }) + " Max-Age=86400"@
}

/// The `Set-Cookie` value that carries `token` (see `auth_cookie_text`).
pub fn auth_cookie(token: &str, dev_mode: bool) -> (r: String)
    ensures
        r@ == auth_cookie_text(token@, dev_mode),
{
    let mut c = lit("auth_token=");
    c.append(token);
    c.append("; Path=/; HttpOnly; SameSite=Lax;");
    if !dev_mode {
        c.append(" Secure;");
    }
    c.append(" Max-Age=86400");
    c
}

/// The `Set-Cookie` value that clears the authentication cookie.
pub fn logout_cookie() -> (r: String)
    ensures
        r@ == "auth_token=; Path=/; HttpOnly; SameSite=Lax; Max-Age=0"@,
{
    lit("auth_token=; Path=/; HttpOnly; SameSite=Lax; Max-Age=0")
}

/// Where the identity of a login came from.
#[derive(Debug, Clone, Copy, PartialEq, Eq, Structural)]
pub enum LoginSource {
    /// A user of the database whose password matched.
    Database,
    /// A configured development user (development mode only).
    DevUser,
}

/// Who a login is for: the database user whose credentials matched; else,
/// in development mode, the matching development user; otherwise the login
/// is refused as unauthorized ("Invalid username or password").
pub fn login_identity(db_user: Option<UserInfo>, dev_mode: bool, dev_user: Option<UserInfo>) -> (r:
    Result<(LoginSource, UserInfo), ApiError>)
    ensures
        db_user is Some ==> r == Ok::<(LoginSource, UserInfo), ApiError>((LoginSource::Database, db_user.unwrap())),
        db_user is None && dev_mode && dev_user is Some ==> r == Ok::<(LoginSource, UserInfo), ApiError>((LoginSource::DevUser, dev_user.unwrap())),
        db_user is None && !(dev_mode && dev_user is Some) ==> (r matches Err(ApiError::Unauthorized(m)) && m@
            == "Invalid username or password"@),
{
    match db_user {
        Some(u) => Ok((LoginSource::Database, u)),
        None => {
            if dev_mode {
                match dev_user {
                    Some(u) => Ok((LoginSource::DevUser, u)),
                    None => Err(ApiError::unauthorized("Invalid username or password")),
                }
            } else {
                Err(ApiError::unauthorized("Invalid username or password"))
            }
        },
    }
}

/// Who a development-mode login is for: the matching development user,
/// refused with invalid credentials outside development mode or when none
/// matches.
pub fn dev_login_identity(dev_mode: bool, dev_user: Option<UserInfo>) -> (r: Result<UserInfo, AuthError>)
    ensures
        dev_mode && dev_user is Some ==> r == Ok::<UserInfo, AuthError>(dev_user.unwrap()),
        !(dev_mode && dev_user is Some) ==> r matches Err(AuthError::InvalidCredentials),
{
    if !dev_mode {
        return Err(AuthError::InvalidCredentials);
    }
    match dev_user {
        Some(u) => Ok(u),
        None => Err(AuthError::InvalidCredentials),
    }
}

// ---------------------------------------------------------------------------
// Development test harness
// ---------------------------------------------------------------------------

/// Response of the mock event endpoint.
#[derive(Debug, Clone)]
pub struct MockEventResponse {
    pub success: bool,
    pub message: String,
}

/// Request for a sample A2UI surface.
#[derive(Debug, Clone)]
pub struct SampleA2uiRequest {
    /// Session ID.
    pub session_id: String,
    /// Sample type: "simple_text", "button_group", "form", "card".
    pub sample: String,
}

/// Whether the development test harness is on: `OCTO_DEV_MODE` is "1" or,
/// lowercased, "true"; or `RUST_ENV` is "development"; or the server is a
/// debug build.
pub open spec fn dev_mode(
    octo_dev_mode: Option<Seq<char>>,
    rust_env: Option<Seq<char>>,
    debug_build: bool,
) -> bool {
    (match octo_dev_mode {
        Some(v) => v == "1"@ || lowercase_of(v) == "true"@,
        None => false,
    }) || rust_env == Some("development"@) || debug_build
}

/// Whether the test harness is on, from the two environment variables (if
/// set) and the build kind (see `dev_mode`).
pub fn dev_mode_enabled(octo_dev_mode: &Option<String>, rust_env: &Option<String>, debug_build: bool) -> (r: bool)
    ensures
        r == dev_mode(opt_view(*octo_dev_mode), opt_view(*rust_env), debug_build),
{
    let from_flag = match octo_dev_mode {
        Some(v) => *v == lit("1") || to_lowercase(v.as_str()) == lit("true"),
        None => false,
    };
    let from_env = match rust_env {
        Some(v) => *v == lit("development"),
        None => false,
    };
    from_flag || from_env || debug_build
}

/// The answer to a test harness request outside development mode: 403
/// with "Test harness is only available in development mode".
pub fn harness_refusal() -> (r: (u16, String))
    ensures
        r.0 == 403,
        r.1@ == "Test harness is only available in development mode"@,
{
    (403, lit("Test harness is only available in development mode"))
}

/// The answer once a mock event was sent to a session.
pub fn mock_event_sent(session_id: &str) -> (r: MockEventResponse)
    ensures
        r.success,
        r.message@ == "Mock event sent to session "@ + session_id@,
{
    let mut m = lit("Mock event sent to session ");
    m.append(session_id);
    MockEventResponse { success: true, message: m }
}

/// The answer once a mock A2UI surface was broadcast.
pub fn mock_surface_broadcast(surface_id: &str, connected_users: u64, session_id: &str) -> (r:
    MockEventResponse)
    ensures
        r.success,
        r.message@ == "A2UI surface "@ + surface_id@ + " broadcast to "@ + decimal(
            connected_users as nat,
        ) + " connected users (session "@ + session_id@ + ")"@,
{
    let mut m = lit("A2UI surface ");
    m.append(surface_id);
    m.append(" broadcast to ");
    let n = decimal_string(connected_users);
    m.append(n.as_str());
    m.append(" connected users (session ");
    m.append(session_id);
    m.append(")");
    MockEventResponse { success: true, message: m }
}

/// A fresh ID for a mock surface: "test_surface_" and a random UUID.
pub fn new_test_surface_id() -> (r: String)
    ensures
        exists|u: Seq<char>| is_uuid_text(u) && r@ == "test_surface_"@ + u,
{
    let u = new_uuid_text();
    let mut r = lit("test_surface_");
    r.append(u.as_str());
    r
}

/// The request ID of a mock surface: for a blocking one, "test_req_" and
/// a random UUID; none otherwise.
pub fn new_test_request_id(blocking: bool) -> (r: Option<String>)
    ensures
        blocking ==> (r matches Some(id) && exists|u: Seq<char>| is_uuid_text(u) && id@
            == "test_req_"@ + u),
        !blocking ==> r is None,
{
    if blocking {
        let u = new_uuid_text();
        let mut r = lit("test_req_");
        r.append(u.as_str());
        Some(r)
    } else {
        None
    }
}

/// The surface ID of a sample surface: "sample_" and the sample's name.
pub fn sample_surface_id(sample: &str) -> (r: String)
    ensures
        r@ == "sample_"@ + sample@,
{
    let mut r = lit("sample_");
    r.append(sample);
    r
}

/// The sample surfaces the test harness offers.
#[derive(Debug, Clone, Copy, PartialEq, Eq, Structural)]
pub enum SampleKind {
    SimpleText,
    ButtonGroup,
    Form,
    Card,
    Question,
    /// Any other name: a text saying the sample is unknown.
    Unknown,
}

/// The sample a name asks for.
pub open spec fn sample_kind_of(name: Seq<char>) -> SampleKind {
    if name == "simple_text"@ {
        SampleKind::SimpleText
    } else if name == "button_group"@ {
        SampleKind::ButtonGroup
    } else if name == "form"@ {
        SampleKind::Form
    } else if name == "card"@ {
        SampleKind::Card
    } else if name == "question"@ {
        SampleKind::Question
    } else {
        SampleKind::Unknown
    }
}

/// The sample a name asks for (see `sample_kind_of`).
pub fn sample_kind(name: &str) -> (r: SampleKind)
    ensures
        r == sample_kind_of(name@),
{
    let n = lit(name);
    if n == lit("simple_text") {
        SampleKind::SimpleText
    } else if n == lit("button_group") {
        SampleKind::ButtonGroup
    } else if n == lit("form") {
        SampleKind::Form
    } else if n == lit("card") {
        SampleKind::Card
    } else if n == lit("question") {
        SampleKind::Question
    } else {
        SampleKind::Unknown
    }
}

/// Whether a sample surface waits for an answer: only the "question"
/// sample does.
pub fn sample_is_blocking(sample: &str) -> (r: bool)
    ensures
        r == (sample@ == "question"@),
{
    lit(sample) == lit("question")
}

/// The request ID of a sample surface: for the blocking "question" sample,
/// "sample_req_" and a random UUID; none otherwise.
pub fn new_sample_request_id(sample: &str) -> (r: Option<String>)
    ensures
        sample@ == "question"@ ==> (r matches Some(id) && exists|u: Seq<char>| is_uuid_text(u)
            && id@ == "sample_req_"@ + u),
        sample@ != "question"@ ==> r is None,
{
    if sample_is_blocking(sample) {
        let u = new_uuid_text();
        let mut r = lit("sample_req_");
        r.append(u.as_str());
        Some(r)
    } else {
        None
    }
}

/// The answer once a sample surface was broadcast.
pub fn sample_broadcast(sample: &str, connected_users: u64, session_id: &str) -> (r:
    MockEventResponse)
    ensures
        r.success,
        r.message@ == "Sample A2UI '"@ + sample@ + "' broadcast to "@ + decimal(
            connected_users as nat,
        ) + " connected users (session "@ + session_id@ + ")"@,
{
    let mut m = lit("Sample A2UI '");
    m.append(sample);
    m.append("' broadcast to ");
    let n = decimal_string(connected_users);
    m.append(n.as_str());
    m.append(" connected users (session ");
    m.append(session_id);
    m.append(")");
    MockEventResponse { success: true, message: m }
}


// ---------------------------------------------------------------------------
// Registration with an invite code
// ---------------------------------------------------------------------------

/// Where a registration stands.
#[derive(Debug, Clone, Copy, PartialEq, Eq, Structural)]
pub enum RegisterStage {
    /// The invite code is being consumed.
    ConsumingInvite,
    /// The user account is being created.
    CreatingUser,
    /// The account exists; the invite records it and a token is issued.
    Complete,
    /// The registration was refused.
    Failed,
}

/// What the outside step of a registration reported.
#[derive(Debug, Clone)]
pub enum RegisterEvent {
    InviteConsumed,
    /// The invite code could not be consumed, with the reason.
    InviteRefused(String),
    UserCreated,
    /// Creating the account failed with this error.
    UserRefused(ApiError),
}

/// What a registration does next.
#[derive(Debug, Clone)]
pub enum RegisterAction {
    /// Create the user account.
    CreateUser,
    /// Give the consumed use of the invite code back (best effort), then
    /// answer with the error.
    RestoreInviteAndFail(ApiError),
    /// Answer with the error.
    Fail(ApiError),
    /// Record the new user on the invite and issue its token.
    Finish,
    /// The event does not belong to this stage: nothing to do.
    Ignore,
}

/// One step of a registration: a consumed invite leads to creating the
/// user, a refused one to a bad request with its reason; a created user
/// completes it, and a failed creation gives the invite's use back before
/// answering with the error. Any other event leaves the stage as it was.
pub open spec fn register_next(stage: RegisterStage, event: RegisterEvent) -> (RegisterStage, RegisterAction) {
    match (stage, event) {
        (RegisterStage::ConsumingInvite, RegisterEvent::InviteConsumed) => (
            RegisterStage::CreatingUser,
            RegisterAction::CreateUser,
        ),
        (RegisterStage::ConsumingInvite, RegisterEvent::InviteRefused(m)) => (
            RegisterStage::Failed,
            RegisterAction::Fail(ApiError::BadRequest(m)),
        ),
        (RegisterStage::CreatingUser, RegisterEvent::UserCreated) => (
            RegisterStage::Complete,
            RegisterAction::Finish,
        ),
        (RegisterStage::CreatingUser, RegisterEvent::UserRefused(e)) => (
            RegisterStage::Failed,
            RegisterAction::RestoreInviteAndFail(e),
        ),
        _ => (stage, RegisterAction::Ignore),
    }
}

/// One step of a registration (see `register_next`).
pub fn register_step(stage: RegisterStage, event: RegisterEvent) -> (r: (RegisterStage, RegisterAction))
    ensures
        r.0 == register_next(stage, event).0,
        match (r.1, register_next(stage, event).1) {
            (RegisterAction::Fail(ApiError::BadRequest(x)), RegisterAction::Fail(ApiError::BadRequest(y))) => x@
                == y@,
            (a, b) => a == b,
        },
{
    match (stage, event) {
        (RegisterStage::ConsumingInvite, RegisterEvent::InviteConsumed) => (
            RegisterStage::CreatingUser,
            RegisterAction::CreateUser,
        ),
        (RegisterStage::ConsumingInvite, RegisterEvent::InviteRefused(m)) => (
            RegisterStage::Failed,
            RegisterAction::Fail(ApiError::bad_request(m.as_str())),
        ),
        (RegisterStage::CreatingUser, RegisterEvent::UserCreated) => (
            RegisterStage::Complete,
            RegisterAction::Finish,
        ),
        (RegisterStage::CreatingUser, RegisterEvent::UserRefused(e)) => (
            RegisterStage::Failed,
            RegisterAction::RestoreInviteAndFail(e),
        ),
        _ => (stage, RegisterAction::Ignore),
    }
}

/// The stage a registration reaches from its start through `events`, and
/// the actions taken on the way.
pub open spec fn register_run(events: Seq<RegisterEvent>) -> (RegisterStage, Seq<RegisterAction>)
    decreases events.len(),
{
    if events.len() == 0 {
        (RegisterStage::ConsumingInvite, Seq::empty())
    } else {
        let (s, acts) = register_run(events.drop_last());
        let (s2, a) = register_next(s, events.last());
        (s2, acts.push(a))
    }
}

/// Uses of the invite code taken (each account creation started) minus
/// those given back.
pub open spec fn invite_uses_held(acts: Seq<RegisterAction>) -> int
    decreases acts.len(),
{
    if acts.len() == 0 {
        0
    } else {
        invite_uses_held(acts.drop_last()) + match acts.last() {
            RegisterAction::CreateUser => 1int,
            RegisterAction::RestoreInviteAndFail(_) => -1int,
            _ => 0int,
        }
    }
}

/// A registration keeps one use of the invite code exactly while its
/// account is being created or once it is complete, and none once it has
/// failed: a failed account creation gives the use back, and a refused
/// invite never took one.
pub proof fn law_register_invite_accounting(events: Seq<RegisterEvent>)
    ensures
        ({
            let (s, acts) = register_run(events);
            invite_uses_held(acts) == (if s == RegisterStage::CreatingUser || s == RegisterStage::Complete {
                1int
            } else {
                0int
            })
        }),
    decreases events.len(),
{
    if events.len() > 0 {
        law_register_invite_accounting(events.drop_last());
        let (s, acts) = register_run(events.drop_last());
        let (s2, a) = register_next(s, events.last());
        assert(acts.push(a).drop_last() =~= acts);
    }
}

} // verus!
