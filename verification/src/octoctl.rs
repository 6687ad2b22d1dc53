//! The `octoctl` administration tool's choices: the server addresses it
//! calls, which sessions a container refresh or a stop-all touches, and how
//! the development image is built.
//!
//! Calling the server, running docker and printing are the caller's part.

use vstd::prelude::*;
use crate::proxy::{trim_trailing_slashes, without_trailing_slashes};
use crate::text::{lit, strings_view};

verus! {

broadcast use vstd::string::group_string_axioms;

/// A session as the server lists it; a missing ID or status reads as
/// empty.
#[derive(Debug, Clone)]
pub struct SessionSummary {
    pub id: String,
    pub status: String,
}

/// The server's base address: the given URL without trailing slashes.
pub fn server_base(url: &str) -> (r: String)
    ensures
        r@ == without_trailing_slashes(url@),
{
    trim_trailing_slashes(url)
}

/// The address of a server path: the base followed by the path.
pub fn request_url(base: &str, path: &str) -> (r: String)
    ensures
        r@ == base@ + path@,
{
    let mut r = lit(base);
    r.append(path);
    r
}

/// The path of an action on a session: `/sessions/{id}/{action}`.
pub fn session_action_path(id: &str, action: &str) -> (r: String)
    ensures
        r@ == "/sessions/"@ + id@ + "/"@ + action@,
{
    let mut r = lit("/sessions/");
    r.append(id);
    r.append("/");
    r.append(action);
    r
}

/// Whether a refresh touches a session in this status: running or stopped.
pub open spec fn refreshable(status: Seq<char>) -> bool {
    status == "running"@ || status == "stopped"@
}

/// The IDs of the sessions a refresh touches, in order.
pub open spec fn refresh_ids(s: Seq<SessionSummary>) -> Seq<Seq<char>>
    decreases s.len(),
{
    if s.len() == 0 {
        Seq::empty()
    } else {
        let prev = refresh_ids(s.drop_last());
        if refreshable(s.last().status@) {
            prev.push(s.last().id@)
        } else {
            prev
        }
    }
}

/// The IDs of the running sessions, in order: those a stop-all stops.
pub open spec fn running_ids(s: Seq<SessionSummary>) -> Seq<Seq<char>>
    decreases s.len(),
{
    if s.len() == 0 {
        Seq::empty()
    } else {
        let prev = running_ids(s.drop_last());
        if s.last().status@ == "running"@ {
            prev.push(s.last().id@)
        } else {
            prev
        }
    }
}

/// The sessions a container refresh touches (see `refresh_ids`).
pub fn refresh_targets(sessions: &Vec<SessionSummary>) -> (r: Vec<String>)
    ensures
        strings_view(r@) == refresh_ids(sessions@),
{
    let mut r: Vec<String> = Vec::new();
    let mut i: usize = 0;
    while i < sessions.len()
        invariant
            i <= sessions@.len(),
            strings_view(r@) == refresh_ids(sessions@.subrange(0, i as int)),
        decreases sessions.len() - i,
    {
        let s = &sessions[i];
        assert(sessions@.subrange(0, i + 1).drop_last() =~= sessions@.subrange(0, i as int));
        assert(sessions@.subrange(0, i + 1).last() == *s);
        let ghost before = r@;
        if s.status == lit("running") || s.status == lit("stopped") {
            r.push(s.id.clone());
            assert(strings_view(r@) =~= strings_view(before).push(s.id@));
        }
        i = i + 1;
    }
    assert(sessions@.subrange(0, i as int) =~= sessions@);
    r
}

/// The sessions a stop-all stops (see `running_ids`).
pub fn stop_targets(sessions: &Vec<SessionSummary>) -> (r: Vec<String>)
    ensures
        strings_view(r@) == running_ids(sessions@),
{
    let mut r: Vec<String> = Vec::new();
    let mut i: usize = 0;
    while i < sessions.len()
        invariant
            i <= sessions@.len(),
            strings_view(r@) == running_ids(sessions@.subrange(0, i as int)),
        decreases sessions.len() - i,
    {
        let s = &sessions[i];
        assert(sessions@.subrange(0, i + 1).drop_last() =~= sessions@.subrange(0, i as int));
        assert(sessions@.subrange(0, i + 1).last() == *s);
        let ghost before = r@;
        if s.status == lit("running") {
            r.push(s.id.clone());
            assert(strings_view(r@) =~= strings_view(before).push(s.id@));
        }
        i = i + 1;
    }
    assert(sessions@.subrange(0, i as int) =~= sessions@);
    r
}

/// The Dockerfile used on a machine: `Dockerfile.arm64` on 64-bit ARM,
/// `Dockerfile` elsewhere.
pub open spec fn dockerfile_name(arm64: bool) -> Seq<char> {
    if arm64 {
        "Dockerfile.arm64"@
    } else {
        "Dockerfile"@
    }
}

/// The arguments of the docker build of the development image from the
/// directory `path`: `build -f {path}/{dockerfile} -t octo-dev:latest`,
/// then `--no-cache` when asked, then `.`.
pub open spec fn docker_build_argv(path: Seq<char>, no_cache: bool, arm64: bool) -> Seq<
    Seq<char>,
> {
    let head = seq![
        "build"@,
        "-f"@,
        path + "/"@ + dockerfile_name(arm64),
        "-t"@,
        "octo-dev:latest"@,
    ];
    (if no_cache {
        head.push("--no-cache"@)
    } else {
        head
    }).push("."@)
}

/// The docker build arguments (see `docker_build_argv`).
pub fn docker_build_args(path: &str, no_cache: bool, arm64: bool) -> (r: Vec<String>)
    ensures
        strings_view(r@) == docker_build_argv(path@, no_cache, arm64),
{
    let mut file = lit(path);
    file.append("/");
    if arm64 {
        file.append("Dockerfile.arm64");
    } else {
        file.append("Dockerfile");
    }
    let mut r: Vec<String> = Vec::new();
    r.push(lit("build"));
    r.push(lit("-f"));
    r.push(file);
    r.push(lit("-t"));
    r.push(lit("octo-dev:latest"));
    if no_cache {
        r.push(lit("--no-cache"));
    }
    r.push(lit("."));
    assert(strings_view(r@) =~= docker_build_argv(path@, no_cache, arm64));
    r
}

} // verus!
