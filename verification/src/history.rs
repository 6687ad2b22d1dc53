//! Chat history: OpenCode sessions as stored on disk, turned into chat
//! sessions, ordered, grouped by workspace and filtered for the API.
//!
//! Reading the files is the caller's part; everything decided from their
//! contents is here.

use vstd::prelude::*;
use vstd::string::*;
use crate::order::{is_index_permutation, is_sorted_desc, is_stable, law_order_desc, order_desc, sort_order_desc};
use crate::text::{copy_opt, file_name, lit, path_file_name, string_of};

verus! {

broadcast use vstd::string::group_string_axioms;

/// Session timestamps.
#[derive(Debug, Clone, Copy)]
pub struct SessionTime {
    pub created: i64,
    pub updated: i64,
}

/// An OpenCode session as stored on disk.
#[derive(Debug, Clone)]
pub struct SessionInfo {
    pub id: String,
    pub version: Option<String>,
    pub title: Option<String>,
    pub parent_id: Option<String>,
    /// The workspace directory path.
    pub directory: Option<String>,
    /// Project ID (hash of directory).
    pub project_id: Option<String>,
    pub time: SessionTime,
}

/// A chat session with its project context.
#[derive(Debug)]
pub struct ChatSession {
    /// Session ID (e.g., "ses_xxx").
    pub id: String,
    /// Session title.
    pub title: Option<String>,
    /// Parent session ID (for child sessions).
    pub parent_id: Option<String>,
    /// Workspace/project path.
    pub workspace_path: String,
    /// Project name (derived from path).
    pub project_name: String,
    /// Created timestamp (ms since epoch).
    pub created_at: i64,
    /// Updated timestamp (ms since epoch).
    pub updated_at: i64,
    /// OpenCode version that created this session.
    pub version: Option<String>,
    /// Whether this session is a child session.
    pub is_child: bool,
    /// Path to the session JSON file (for loading messages later).
    pub source_path: Option<String>,
}

/// Message timestamps.
#[derive(Debug, Clone, Copy)]
pub struct MessageTime {
    pub created: i64,
    pub completed: Option<i64>,
}

/// Message summary.
#[derive(Debug, Clone)]
pub struct MessageSummary {
    pub title: Option<String>,
}

/// Token usage of a message.
#[derive(Debug, Clone, Copy)]
pub struct TokenUsage {
    pub input: Option<i64>,
    pub output: Option<i64>,
    pub reasoning: Option<i64>,
}

impl Clone for ChatSession {
    fn clone(&self) -> (r: Self)
        ensures
            r == *self,
    {
        ChatSession {
            id: self.id.clone(),
            title: copy_opt(&self.title),
            parent_id: copy_opt(&self.parent_id),
            workspace_path: self.workspace_path.clone(),
            project_name: self.project_name.clone(),
            created_at: self.created_at,
            updated_at: self.updated_at,
            version: copy_opt(&self.version),
            is_child: self.is_child,
            source_path: copy_opt(&self.source_path),
        }
    }
}

// ---------------------------------------------------------------------------
// Project names
// ---------------------------------------------------------------------------

/// The project name shown for a workspace path: "Global" for the global
/// workspace or an empty path, else the path's final component, else the
/// path itself.
pub open spec fn project_name(path: Seq<char>) -> Seq<char> {
    if path == "global"@ || path.len() == 0 {
        "Global"@
    } else {
        match file_name(path) {
            Some(n) => n,
            None => path,
        }
    }
}

/// Extract project name from workspace path.
pub fn project_name_from_path(path: &str) -> (r: String)
    ensures
        r@ == project_name(path@),
{
    let p = lit(path);
    if p == lit("global") || p.as_str().unicode_len() == 0 {
        return lit("Global");
    }
    match path_file_name(path) {
        Some(n) => string_of(&n),
        None => p,
    }
}

// ---------------------------------------------------------------------------
// Sessions
// ---------------------------------------------------------------------------

/// `c` is the chat session built from the stored session `info` read from
/// the file at `source`.
pub open spec fn is_session_from(c: ChatSession, info: SessionInfo, source: Seq<char>) -> bool {
    let ws = match info.directory {
        Some(d) => d@,
        None => "global"@,
    };
    &&& c.id@ == info.id@
    &&& c.title == info.title
    &&& c.parent_id == info.parent_id
    &&& c.workspace_path@ == ws
    &&& c.project_name@ == project_name(ws)
    &&& c.created_at == info.time.created
    &&& c.updated_at == info.time.updated
    &&& c.version == info.version
    &&& c.is_child == info.parent_id is Some
    &&& c.source_path matches Some(p) && p@ == source
}

/// The chat session for a stored session read from `source_path`: its
/// workspace is the session's directory ("global" when absent) and it is a
/// child exactly when it has a parent.
pub fn chat_session_from_info(info: SessionInfo, source_path: String) -> (r: ChatSession)
    ensures
        is_session_from(r, info, source_path@),
{
    let workspace_path = match &info.directory {
        Some(d) => d.clone(),
        None => lit("global"),
    };
    let project_name = project_name_from_path(workspace_path.as_str());
    let is_child = info.parent_id.is_some();
    ChatSession {
        id: info.id,
        title: info.title,
        parent_id: info.parent_id,
        workspace_path,
        project_name,
        created_at: info.time.created,
        updated_at: info.time.updated,
        version: info.version,
        is_child,
        source_path: Some(source_path),
    }
}

/// The `updated_at` keys of a list of sessions.
pub open spec fn updated_keys(s: Seq<ChatSession>) -> Seq<i64> {
    Seq::new(s.len(), |i: int| s[i].updated_at)
}

/// `s` arranged by `o`: entry `a` of the result is `s[o[a]]`.
pub open spec fn arranged<T>(s: Seq<T>, o: Seq<int>) -> Seq<T> {
    Seq::new(o.len(), |a: int| s[o[a]])
}

/// Sessions ordered most recently updated first, ties in their original
/// order.
pub open spec fn by_recency(s: Seq<ChatSession>) -> Seq<ChatSession> {
    arranged(s, order_desc(updated_keys(s), s.len() as int))
}

/// `sessions` ordered most recently updated first (a stable sort).
pub fn sort_by_recency(sessions: Vec<ChatSession>) -> (r: Vec<ChatSession>)
    ensures
        r@ == by_recency(sessions@),
{
    let mut keys: Vec<i64> = Vec::new();
    let mut i: usize = 0;
    while i < sessions.len()
        invariant
            i <= sessions@.len(),
            keys@ == updated_keys(sessions@).subrange(0, i as int),
        decreases sessions.len() - i,
    {
        keys.push(sessions[i].updated_at);
        i = i + 1;
        assert(keys@ =~= updated_keys(sessions@).subrange(0, i as int));
    }
    assert(keys@ =~= updated_keys(sessions@));
    let order = sort_order_desc(&keys);
    proof {
        law_order_desc(keys@, keys@.len() as int);
    }
    let ghost o = order_desc(keys@, keys@.len() as int);
    let mut r: Vec<ChatSession> = Vec::new();
    let mut a: usize = 0;
    while a < order.len()
        invariant
            a <= order@.len(),
            order@.len() == sessions@.len(),
            is_index_permutation(o, sessions@.len() as int),
            forall|b: int| 0 <= b < order@.len() ==> #[trigger] order@[b] as int == o[b],
            r@ == arranged(sessions@, o).subrange(0, a as int),
        decreases order.len() - a,
    {
        let k = order[a];
        assert(o[a as int] == k as int);
        let s = sessions[k].clone();
        r.push(s);
        a = a + 1;
        assert(r@ =~= arranged(sessions@, o).subrange(0, a as int));
    }
    assert(r@ =~= arranged(sessions@, o));
    r
}

/// Sessions come out most recent first, each input session exactly once,
/// equal timestamps keeping their input order.
pub proof fn law_recency_order(s: Seq<ChatSession>)
    ensures
        is_index_permutation(order_desc(updated_keys(s), s.len() as int), s.len() as int),
        forall|a: int, b: int| 0 <= a < b < s.len() ==> (#[trigger] by_recency(s)[a]).updated_at
            >= (#[trigger] by_recency(s)[b]).updated_at,
        is_stable(order_desc(updated_keys(s), s.len() as int), updated_keys(s)),
{
    let k = updated_keys(s);
    law_order_desc(k, s.len() as int);
    let o = order_desc(k, s.len() as int);
    assert forall|a: int, b: int| 0 <= a < b < s.len() implies (#[trigger] by_recency(s)[a]).updated_at
        >= (#[trigger] by_recency(s)[b]).updated_at by {
        assert(k[o[a]] >= k[o[b]]);
    }
}

/// All chat sessions built from stored sessions (each with the file it was
/// read from), most recently updated first.
pub fn list_sessions(entries: Vec<(SessionInfo, String)>) -> (r: Vec<ChatSession>)
    ensures
        r@.len() == entries@.len(),
        exists|built: Seq<ChatSession>|
            #![trigger by_recency(built)]
            built.len() == entries@.len() && (forall|i: int|
                0 <= i < built.len() ==> is_session_from(
                    #[trigger] built[i],
                    entries@[i].0,
                    entries@[i].1@,
                )) && r@ == by_recency(built),
{
    let ghost e = entries@;
    let mut built: Vec<ChatSession> = Vec::new();
    let mut entries = entries;
    let mut rev: Vec<(SessionInfo, String)> = Vec::new();
    while entries.len() > 0
        invariant
            entries@.len() + rev@.len() == e.len(),
            forall|i: int| 0 <= i < entries@.len() ==> #[trigger] entries@[i] == e[i],
            forall|i: int| 0 <= i < rev@.len() ==> #[trigger] rev@[i] == e[e.len() - 1 - i],
        decreases entries.len(),
    {
        let x = entries.pop().unwrap();
        rev.push(x);
    }
    while rev.len() > 0
        invariant
            rev@.len() + built@.len() == e.len(),
            forall|i: int| 0 <= i < rev@.len() ==> #[trigger] rev@[i] == e[e.len() - 1 - i],
            forall|i: int| 0 <= i < built@.len() ==> is_session_from(#[trigger] built@[i], e[i].0, e[i].1@),
        decreases rev.len(),
    {
        let (info, path) = rev.pop().unwrap();
        let ghost idx = built@.len();
        assert(e[idx as int] == (info, path));
        let c = chat_session_from_info(info, path);
        built.push(c);
    }
    let ghost b = built@;
    let r = sort_by_recency(built);
    proof {
        law_recency_order(b);
    }
    r
}

/// A group of sessions sharing a workspace path.
#[derive(Debug, Clone)]
pub struct SessionGroup {
    pub workspace_path: String,
    pub sessions: Vec<ChatSession>,
}

/// The sessions of `s` whose workspace is `ws`, in order.
pub open spec fn in_workspace(s: Seq<ChatSession>, ws: Seq<char>) -> Seq<ChatSession>
    decreases s.len(),
{
    if s.len() == 0 {
        s
    } else if s.last().workspace_path@ == ws {
        in_workspace(s.drop_last(), ws).push(s.last())
    } else {
        in_workspace(s.drop_last(), ws)
    }
}

/// The distinct workspace paths of `s`, in order of first appearance.
pub open spec fn workspaces(s: Seq<ChatSession>) -> Seq<Seq<char>>
    decreases s.len(),
{
    if s.len() == 0 {
        Seq::empty()
    } else {
        let w = workspaces(s.drop_last());
        if w.contains(s.last().workspace_path@) {
            w
        } else {
            w.push(s.last().workspace_path@)
        }
    }
}

/// Sessions for a specific workspace path, in order.
pub fn list_sessions_for_workspace(sessions: &Vec<ChatSession>, workspace_path: &str) -> (r: Vec<
    ChatSession,
>)
    ensures
        r@ == in_workspace(sessions@, workspace_path@),
{
    let ws = lit(workspace_path);
    let mut r: Vec<ChatSession> = Vec::new();
    let mut i: usize = 0;
    while i < sessions.len()
        invariant
            i <= sessions@.len(),
            ws@ == workspace_path@,
            r@ == in_workspace(sessions@.subrange(0, i as int), workspace_path@),
        decreases sessions.len() - i,
    {
        let s = &sessions[i];
        assert(sessions@.subrange(0, i + 1).drop_last() =~= sessions@.subrange(0, i as int));
        if s.workspace_path == ws {
            r.push(s.clone());
        }
        i = i + 1;
    }
    assert(sessions@.subrange(0, i as int) =~= sessions@);
    r
}

/// The number of sessions in all the groups.
pub open spec fn groups_total(gs: Seq<SessionGroup>) -> nat
    decreases gs.len(),
{
    if gs.len() == 0 {
        0
    } else {
        groups_total(gs.drop_last()) + gs.last().sessions@.len()
    }
}

proof fn lemma_groups_total(s: Seq<ChatSession>, gs: Seq<SessionGroup>, ws: Seq<Seq<char>>)
    requires
        gs.len() == ws.len(),
        forall|g: int| 0 <= g < gs.len() ==> (#[trigger] gs[g]).sessions@ == in_workspace(s, ws[g]),
    ensures
        groups_total(gs) == grouped_total(s, ws),
    decreases gs.len(),
{
    if gs.len() > 0 {
        let gs2 = gs.drop_last();
        let ws2 = ws.drop_last();
        assert forall|g: int| 0 <= g < gs2.len() implies (#[trigger] gs2[g]).sessions@ == in_workspace(s, ws2[g]) by {
            assert(gs2[g] == gs[g]);
        }
        lemma_groups_total(s, gs2, ws2);
        assert(gs.last() == gs[gs.len() - 1]);
    }
}

/// Sessions grouped by workspace path: one group per distinct path, in
/// order of first appearance, each holding that path's sessions in order.
/// No group is empty, and the groups hold all the sessions between them.
pub fn list_sessions_grouped(sessions: &Vec<ChatSession>) -> (r: Vec<SessionGroup>)
    ensures
        r@.len() == workspaces(sessions@).len(),
        forall|g: int|
            0 <= g < r@.len() ==> (#[trigger] r@[g]).workspace_path@ == workspaces(sessions@)[g]
                && r@[g].sessions@ == in_workspace(sessions@, workspaces(sessions@)[g]),
        forall|g: int| 0 <= g < r@.len() ==> (#[trigger] r@[g]).sessions@.len() > 0,
        groups_total(r@) == sessions@.len(),
{
    let mut paths: Vec<String> = Vec::new();
    let mut i: usize = 0;
    while i < sessions.len()
        invariant
            i <= sessions@.len(),
            paths@.len() == workspaces(sessions@.subrange(0, i as int)).len(),
            forall|g: int|
                0 <= g < paths@.len() ==> (#[trigger] paths@[g])@ == workspaces(
                    sessions@.subrange(0, i as int),
                )[g],
        decreases sessions.len() - i,
    {
        let w = &sessions[i].workspace_path;
        let ghost pre = sessions@.subrange(0, i as int);
        let ghost ws = workspaces(pre);
        assert(sessions@.subrange(0, i + 1).drop_last() =~= pre);
        let mut found = false;
        let mut k: usize = 0;
        while k < paths.len()
            invariant
                k <= paths@.len(),
                paths@.len() == ws.len(),
                forall|g: int| 0 <= g < paths@.len() ==> (#[trigger] paths@[g])@ == ws[g],
                found ==> ws.contains(w@),
                !found ==> forall|g: int| 0 <= g < k ==> ws[g] != w@,
            decreases paths.len() - k,
        {
            if paths[k] == *w {
                assert(ws[k as int] == w@);
                found = true;
            }
            k = k + 1;
        }
        if !found {
            paths.push(w.clone());
        }
        i = i + 1;
    }
    assert(sessions@.subrange(0, i as int) =~= sessions@);
    let mut r: Vec<SessionGroup> = Vec::new();
    let mut g: usize = 0;
    while g < paths.len()
        invariant
            g <= paths@.len(),
            paths@.len() == workspaces(sessions@).len(),
            forall|h: int| 0 <= h < paths@.len() ==> (#[trigger] paths@[h])@ == workspaces(sessions@)[h],
            r@.len() == g,
            forall|h: int|
                0 <= h < g ==> (#[trigger] r@[h]).workspace_path@ == workspaces(sessions@)[h]
                    && r@[h].sessions@ == in_workspace(sessions@, workspaces(sessions@)[h]),
        decreases paths.len() - g,
    {
        let members = list_sessions_for_workspace(sessions, paths[g].as_str());
        r.push(SessionGroup { workspace_path: paths[g].clone(), sessions: members });
        g = g + 1;
    }
    proof {
        law_groups_partition(sessions@);
        lemma_groups_total(sessions@, r@, workspaces(sessions@));
        assert forall|h: int| 0 <= h < r@.len() implies (#[trigger] r@[h]).sessions@.len() > 0 by {
            assert(in_workspace(sessions@, workspaces(sessions@)[h]).len() > 0);
        }
    }
    r
}

/// The first session with the given id, if any.
pub open spec fn session_with_id(s: Seq<ChatSession>, id: Seq<char>) -> Option<ChatSession>
    decreases s.len(),
{
    if s.len() == 0 {
        None
    } else if s[0].id@ == id {
        Some(s[0])
    } else {
        session_with_id(s.drop_first(), id)
    }
}

/// Get a single session by ID.
pub fn get_session(sessions: &Vec<ChatSession>, session_id: &str) -> (r: Option<ChatSession>)
    ensures
        r == session_with_id(sessions@, session_id@),
{
    let id = lit(session_id);
    let mut i: usize = 0;
    assert(sessions@.subrange(0, sessions@.len() as int) =~= sessions@);
    while i < sessions.len()
        invariant
            i <= sessions@.len(),
            id@ == session_id@,
            session_with_id(sessions@, session_id@) == session_with_id(
                sessions@.subrange(i as int, sessions@.len() as int),
                session_id@,
            ),
        decreases sessions.len() - i,
    {
        let ghost rest = sessions@.subrange(i as int, sessions@.len() as int);
        assert(rest[0] == sessions@[i as int]);
        assert(rest.drop_first() =~= sessions@.subrange(i + 1, sessions@.len() as int));
        if sessions[i].id == id {
            return Some(sessions[i].clone());
        }
        i = i + 1;
    }
    None
}

// ---------------------------------------------------------------------------
// Chat history queries
// ---------------------------------------------------------------------------

/// Query parameters for listing chat history.
#[derive(Debug, Clone)]
pub struct ChatHistoryQuery {
    /// Filter by workspace path.
    pub workspace: Option<String>,
    /// Include child sessions (default: false).
    pub include_children: bool,
    /// Maximum number of sessions to return.
    pub limit: Option<usize>,
}

/// Sessions of one workspace, for the grouped history view.
#[derive(Debug, Clone)]
pub struct GroupedChatHistory {
    pub workspace_path: String,
    pub project_name: String,
    pub sessions: Vec<ChatSession>,
}

/// A session passes the query's filters.
pub open spec fn history_keeps(s: ChatSession, q: ChatHistoryQuery) -> bool {
    (match q.workspace {
        Some(w) => s.workspace_path@ == w@,
        None => true,
    }) && (q.include_children || !s.is_child)
}

/// The sessions of `s` that pass the query's filters, in order.
pub open spec fn history_kept(s: Seq<ChatSession>, q: ChatHistoryQuery) -> Seq<ChatSession>
    decreases s.len(),
{
    if s.len() == 0 {
        s
    } else if history_keeps(s.last(), q) {
        history_kept(s.drop_last(), q).push(s.last())
    } else {
        history_kept(s.drop_last(), q)
    }
}

/// At most `limit` leading entries of `s` (all when there is no limit).
pub open spec fn limited<T>(s: Seq<T>, limit: Option<usize>) -> Seq<T> {
    match limit {
        Some(l) => if s.len() > l {
            s.take(l as int)
        } else {
            s
        },
        None => s,
    }
}

fn truncate_to(v: &mut Vec<ChatSession>, limit: Option<usize>)
    ensures
        final(v)@ == limited(old(v)@, limit),
{
    match limit {
        Some(l) => {
            if v.len() > l {
                v.truncate(l);
                assert(v@ =~= old(v)@.take(l as int));
            }
        },
        None => {},
    }
}

/// The chat history the list endpoint returns: sessions of the requested
/// workspace (all when none is given), child sessions only when asked for,
/// at most `limit` of them, in their given order.
pub fn filter_chat_history(sessions: &Vec<ChatSession>, query: &ChatHistoryQuery) -> (r: Vec<
    ChatSession,
>)
    ensures
        r@ == limited(history_kept(sessions@, *query), query.limit),
{
    let mut r: Vec<ChatSession> = Vec::new();
    let mut i: usize = 0;
    while i < sessions.len()
        invariant
            i <= sessions@.len(),
            r@ == history_kept(sessions@.subrange(0, i as int), *query),
        decreases sessions.len() - i,
    {
        let s = &sessions[i];
        assert(sessions@.subrange(0, i + 1).drop_last() =~= sessions@.subrange(0, i as int));
        let ws_ok = match &query.workspace {
            Some(w) => s.workspace_path == *w,
            None => true,
        };
        if ws_ok && (query.include_children || !s.is_child) {
            r.push(s.clone());
        }
        i = i + 1;
    }
    assert(sessions@.subrange(0, i as int) =~= sessions@);
    truncate_to(&mut r, query.limit);
    r
}

/// The sessions of `s` that are not child sessions, in order.
pub open spec fn non_children(s: Seq<ChatSession>) -> Seq<ChatSession>
    decreases s.len(),
{
    if s.len() == 0 {
        s
    } else if !s.last().is_child {
        non_children(s.drop_last()).push(s.last())
    } else {
        non_children(s.drop_last())
    }
}

/// The sessions a group shows under the query: children dropped unless
/// included, then at most `limit`.
pub open spec fn group_shown(s: Seq<ChatSession>, q: ChatHistoryQuery) -> Seq<ChatSession> {
    limited(
        if q.include_children {
            s
        } else {
            non_children(s)
        },
        q.limit,
    )
}

/// `g` is the grouped-history entry for workspace `ws` holding `s`.
pub open spec fn is_grouped_entry(
    g: GroupedChatHistory,
    ws: Seq<char>,
    s: Seq<ChatSession>,
    q: ChatHistoryQuery,
) -> bool {
    let shown = group_shown(s, q);
    &&& g.workspace_path@ == ws
    &&& g.sessions@ == shown
    &&& g.project_name@ == (if shown.len() > 0 {
        shown[0].project_name@
    } else {
        project_name(ws)
    })
}

/// The recency key of a group: its first session's `updated_at`, 0 when
/// empty.
pub open spec fn group_key(g: GroupedChatHistory) -> i64 {
    if g.sessions@.len() > 0 {
        g.sessions@[0].updated_at
    } else {
        0
    }
}

/// The entries for the groups whose shown sessions are not empty, in the
/// order of `groups`.
pub open spec fn nonempty_entries(
    groups: Seq<SessionGroup>,
    entries: Seq<GroupedChatHistory>,
    q: ChatHistoryQuery,
) -> bool {
    &&& forall|k: int| 0 <= k < entries.len() ==> (#[trigger] entries[k]).sessions@.len() > 0
    &&& exists|pick: Seq<int>|
        #![trigger pick.len()]
        pick.len() == entries.len() && (forall|k: int|
            0 <= k < pick.len() ==> 0 <= #[trigger] pick[k] < groups.len() && is_grouped_entry(
                entries[k],
                groups[pick[k]].workspace_path@,
                groups[pick[k]].sessions@,
                q,
            )) && (forall|k: int, l: int| 0 <= k < l < pick.len() ==> #[trigger] pick[k] < #[trigger] pick[l])
            && (forall|g: int|
            0 <= g < groups.len() && group_shown(groups[g].sessions@, q).len() > 0 ==> pick.contains(g))
}

/// The grouped history entries, most recently updated group first.
pub open spec fn by_group_recency(e: Seq<GroupedChatHistory>) -> Seq<GroupedChatHistory> {
    arranged(e, order_desc(Seq::new(e.len(), |i: int| group_key(e[i])), e.len() as int))
}

fn shown_sessions(s: &Vec<ChatSession>, q: &ChatHistoryQuery) -> (r: Vec<ChatSession>)
    ensures
        r@ == group_shown(s@, *q),
{
    let mut r: Vec<ChatSession> = Vec::new();
    if q.include_children {
        let mut i: usize = 0;
        while i < s.len()
            invariant
                i <= s@.len(),
                r@ == s@.subrange(0, i as int),
            decreases s.len() - i,
        {
            r.push(s[i].clone());
            i = i + 1;
            assert(r@ =~= s@.subrange(0, i as int));
        }
        assert(s@.subrange(0, i as int) =~= s@);
    } else {
        let mut i: usize = 0;
        while i < s.len()
            invariant
                i <= s@.len(),
                r@ == non_children(s@.subrange(0, i as int)),
            decreases s.len() - i,
        {
            assert(s@.subrange(0, i + 1).drop_last() =~= s@.subrange(0, i as int));
            if !s[i].is_child {
                r.push(s[i].clone());
            }
            i = i + 1;
        }
        assert(s@.subrange(0, i as int) =~= s@);
    }
    truncate_to(&mut r, q.limit);
    r
}

fn clone_group(g: &GroupedChatHistory) -> (r: GroupedChatHistory)
    ensures
        r.workspace_path@ == g.workspace_path@,
        r.project_name@ == g.project_name@,
        r.sessions@ == g.sessions@,
{
    let mut s: Vec<ChatSession> = Vec::new();
    let mut i: usize = 0;
    while i < g.sessions.len()
        invariant
            i <= g.sessions@.len(),
            s@ == g.sessions@.subrange(0, i as int),
        decreases g.sessions.len() - i,
    {
        s.push(g.sessions[i].clone());
        i = i + 1;
        assert(s@ =~= g.sessions@.subrange(0, i as int));
    }
    assert(s@ =~= g.sessions@);
    GroupedChatHistory {
        workspace_path: g.workspace_path.clone(),
        project_name: g.project_name.clone(),
        sessions: s,
    }
}

/// The grouped chat history: for each workspace group, its sessions with
/// children dropped unless asked for and at most `limit` of them, named by
/// the first shown session's project (or the workspace path); groups left
/// empty are dropped, and the rest are ordered by their first session's
/// update time, most recent first.
pub fn group_chat_history(groups: &Vec<SessionGroup>, query: &ChatHistoryQuery) -> (r: Vec<
    GroupedChatHistory,
>)
    ensures
        exists|entries: Seq<GroupedChatHistory>|
            #![trigger by_group_recency(entries)]
            nonempty_entries(groups@, entries, *query) && r@.len() == entries.len() && (forall|k: int|
                0 <= k < r@.len() ==> (#[trigger] r@[k]).workspace_path@ == by_group_recency(
                    entries,
                )[k].workspace_path@ && r@[k].project_name@ == by_group_recency(entries)[k].project_name@
                    && r@[k].sessions@ == by_group_recency(entries)[k].sessions@),
{
    let mut entries: Vec<GroupedChatHistory> = Vec::new();
    let ghost mut pick: Seq<int> = Seq::empty();
    let mut g: usize = 0;
    while g < groups.len()
        invariant
            g <= groups@.len(),
            pick.len() == entries@.len(),
            forall|k: int| 0 <= k < entries@.len() ==> (#[trigger] entries@[k]).sessions@.len() > 0,
            forall|k: int|
                0 <= k < pick.len() ==> 0 <= #[trigger] pick[k] < g && is_grouped_entry(
                    entries@[k],
                    groups@[pick[k]].workspace_path@,
                    groups@[pick[k]].sessions@,
                    *query,
                ),
            forall|k: int, l: int| 0 <= k < l < pick.len() ==> #[trigger] pick[k] < #[trigger] pick[l],
            forall|h: int|
                0 <= h < g && group_shown(groups@[h].sessions@, *query).len() > 0 ==> pick.contains(h),
        decreases groups.len() - g,
    {
        let group = &groups[g];
        let shown = shown_sessions(&group.sessions, query);
        if shown.len() > 0 {
            let project = shown[0].project_name.clone();
            entries.push(GroupedChatHistory {
                workspace_path: group.workspace_path.clone(),
                project_name: project,
                sessions: shown,
            });
            proof {
                let old_pick = pick;
                pick = pick.push(g as int);
                assert forall|h: int|
                    0 <= h < g + 1 && group_shown(groups@[h].sessions@, *query).len() > 0 implies pick.contains(h) by {
                    if h < g {
                        assert(old_pick.contains(h));
                        let w = choose|w: int| 0 <= w < old_pick.len() && old_pick[w] == h;
                        assert(pick[w] == h);
                    } else {
                        assert(pick[pick.len() - 1] == h);
                    }
                }
            }
        } else {
            proof {
                assert forall|h: int|
                    0 <= h < g + 1 && group_shown(groups@[h].sessions@, *query).len() > 0 implies pick.contains(h) by {
                    if h == g {
                        assert(group_shown(groups@[h].sessions@, *query) == shown@);
                    }
                }
            }
        }
        g = g + 1;
    }
    assert(nonempty_entries(groups@, entries@, *query));
    let mut keys: Vec<i64> = Vec::new();
    let mut i: usize = 0;
    let ghost e = entries@;
    let ghost ekeys = Seq::new(e.len(), |i: int| group_key(e[i]));
    while i < entries.len()
        invariant
            i <= entries@.len(),
            e == entries@,
            ekeys == Seq::new(e.len(), |i: int| group_key(e[i])),
            keys@ == ekeys.subrange(0, i as int),
        decreases entries.len() - i,
    {
        let k: i64 = if entries[i].sessions.len() > 0 {
            entries[i].sessions[0].updated_at
        } else {
            0
        };
        keys.push(k);
        i = i + 1;
        assert(keys@ =~= ekeys.subrange(0, i as int));
    }
    assert(keys@ =~= ekeys);
    let order = sort_order_desc(&keys);
    proof {
        law_order_desc(keys@, keys@.len() as int);
    }
    let ghost o = order_desc(keys@, keys@.len() as int);
    let mut r: Vec<GroupedChatHistory> = Vec::new();
    let mut a: usize = 0;
    while a < order.len()
        invariant
            a <= order@.len(),
            order@.len() == e.len(),
            e == entries@,
            is_index_permutation(o, e.len() as int),
            o == order_desc(ekeys, e.len() as int),
            forall|b: int| 0 <= b < order@.len() ==> #[trigger] order@[b] as int == o[b],
            r@.len() == a,
            forall|k: int|
                0 <= k < a ==> (#[trigger] r@[k]).workspace_path@ == e[o[k]].workspace_path@
                    && r@[k].project_name@ == e[o[k]].project_name@ && r@[k].sessions@
                    == e[o[k]].sessions@,
        decreases order.len() - a,
    {
        let k = order[a];
        assert(o[a as int] == k as int);
        r.push(clone_group(&entries[k]));
        a = a + 1;
    }
    assert(by_group_recency(e) =~= arranged(e, o));
    r
}

/// A stored session file: named `ses_*.json`.
pub open spec fn is_session_file(name: Seq<char>) -> bool {
    crate::text::starts_with(name, "ses_"@) && crate::text::ends_with(name, ".json"@)
}

/// Whether a file in a project's session directory holds a session.
pub fn is_session_file_name(name: &str) -> (r: bool)
    ensures
        r == is_session_file(name@),
{
    let v = crate::text::chars_of(name);
    let p = crate::text::chars_of("ses_");
    let q = crate::text::chars_of(".json");
    crate::text::has_prefix(&v, &p) && crate::text::has_suffix(&v, &q)
}

/// The directory stored sessions are read from, below an opencode data
/// directory.
pub fn session_storage_dir(opencode_dir: &str) -> (r: String)
    ensures
        r@ == crate::text::path_join(opencode_dir@, "storage/session"@),
{
    crate::text::join_path(opencode_dir, "storage/session")
}

// ---------------------------------------------------------------------------
// Messages
// ---------------------------------------------------------------------------

/// A stored message file: named `msg_*.json`.
pub open spec fn is_message_file(name: Seq<char>) -> bool {
    crate::text::starts_with(name, "msg_"@) && crate::text::ends_with(name, ".json"@)
}

/// A stored message part file: named `prt_*.json`.
pub open spec fn is_part_file(name: Seq<char>) -> bool {
    crate::text::starts_with(name, "prt_"@) && crate::text::ends_with(name, ".json"@)
}

/// Whether a file in a session's message directory holds a message.
pub fn is_message_file_name(name: &str) -> (r: bool)
    ensures
        r == is_message_file(name@),
{
    let v = crate::text::chars_of(name);
    let p = crate::text::chars_of("msg_");
    let q = crate::text::chars_of(".json");
    crate::text::has_prefix(&v, &p) && crate::text::has_suffix(&v, &q)
}

/// Whether a file in a message's part directory holds a part.
pub fn is_part_file_name(name: &str) -> (r: bool)
    ensures
        r == is_part_file(name@),
{
    let v = crate::text::chars_of(name);
    let p = crate::text::chars_of("prt_");
    let q = crate::text::chars_of(".json");
    crate::text::has_prefix(&v, &p) && crate::text::has_suffix(&v, &q)
}

/// The directory a session's messages are read from.
pub fn message_storage_dir(opencode_dir: &str, session_id: &str) -> (r: String)
    ensures
        r@ == crate::text::path_join(
            crate::text::path_join(opencode_dir@, "storage/message"@),
            session_id@,
        ),
{
    let d = crate::text::join_path(opencode_dir, "storage/message");
    crate::text::join_path(d.as_str(), session_id)
}

/// The directory a message's parts are read from.
pub fn part_storage_dir(opencode_dir: &str, message_id: &str) -> (r: String)
    ensures
        r@ == crate::text::path_join(
            crate::text::path_join(opencode_dir@, "storage/part"@),
            message_id@,
        ),
{
    let d = crate::text::join_path(opencode_dir, "storage/part");
    crate::text::join_path(d.as_str(), message_id)
}

/// A stored message, as read from its file. Its cost, a float, is carried
/// by the caller.
#[derive(Debug, Clone)]
pub struct MessageInfo {
    pub id: String,
    pub session_id: String,
    pub role: String,
    pub time: MessageTime,
    pub parent_id: Option<String>,
    pub model_id: Option<String>,
    pub provider_id: Option<String>,
    pub agent: Option<String>,
    pub summary: Option<MessageSummary>,
    pub tokens: Option<TokenUsage>,
}

/// A tool call's state as stored; `input` is JSON text.
#[derive(Debug, Clone)]
pub struct ToolState {
    pub status: Option<String>,
    pub input: Option<String>,
    pub output: Option<String>,
    pub title: Option<String>,
}

/// A stored message part, as read from its file.
#[derive(Debug, Clone)]
pub struct PartInfo {
    pub id: String,
    pub message_id: String,
    pub session_id: String,
    pub part_type: String,
    pub text: Option<String>,
    pub tool: Option<String>,
    pub state: Option<ToolState>,
}

/// A single part of a chat message; `tool_input` is JSON text.
#[derive(Debug, Clone)]
pub struct ChatMessagePart {
    pub id: String,
    pub part_type: String,
    pub text: Option<String>,
    pub tool_name: Option<String>,
    pub tool_input: Option<String>,
    pub tool_output: Option<String>,
    pub tool_status: Option<String>,
    pub tool_title: Option<String>,
}

/// A chat message with its content parts. Its cost, a float, is carried
/// by the caller.
#[derive(Debug, Clone)]
pub struct ChatMessage {
    pub id: String,
    pub session_id: String,
    pub role: String,
    pub created_at: i64,
    pub completed_at: Option<i64>,
    pub parent_id: Option<String>,
    pub model_id: Option<String>,
    pub provider_id: Option<String>,
    pub agent: Option<String>,
    pub summary_title: Option<String>,
    pub tokens_input: Option<i64>,
    pub tokens_output: Option<i64>,
    pub parts: Vec<ChatMessagePart>,
}

/// The part shown for a stored part: a text part keeps its text and no
/// tool fields; a tool part keeps the tool's name and its state's input,
/// output, status and title, and no text; a part of any other type keeps
/// its text and no tool fields. The ID and type are kept as they are.
pub open spec fn is_part_from_info(p: ChatMessagePart, info: PartInfo) -> bool {
    &&& p.id == info.id
    &&& p.part_type == info.part_type
    &&& if info.part_type@ == "tool"@ {
        &&& p.text is None
        &&& p.tool_name == info.tool
        &&& p.tool_input == (match info.state {
            Some(s) => s.input,
            None => None,
        })
        &&& p.tool_output == (match info.state {
            Some(s) => s.output,
            None => None,
        })
        &&& p.tool_status == (match info.state {
            Some(s) => s.status,
            None => None,
        })
        &&& p.tool_title == (match info.state {
            Some(s) => s.title,
            None => None,
        })
    } else {
        &&& p.text == info.text
        &&& p.tool_name is None
        &&& p.tool_input is None
        &&& p.tool_output is None
        &&& p.tool_status is None
        &&& p.tool_title is None
    }
}

/// The part shown for a stored part (see `is_part_from_info`).
pub fn chat_part_from_info(info: PartInfo) -> (r: ChatMessagePart)
    ensures
        is_part_from_info(r, info),
{
    if info.part_type == lit("tool") {
        let (input, output, status, title) = match info.state {
            Some(s) => (s.input, s.output, s.status, s.title),
            None => (None, None, None, None),
        };
        ChatMessagePart {
            id: info.id,
            part_type: info.part_type,
            text: None,
            tool_name: info.tool,
            tool_input: input,
            tool_output: output,
            tool_status: status,
            tool_title: title,
        }
    } else {
        ChatMessagePart {
            id: info.id,
            part_type: info.part_type,
            text: info.text,
            tool_name: None,
            tool_input: None,
            tool_output: None,
            tool_status: None,
            tool_title: None,
        }
    }
}

/// Part IDs in `s` never decrease.
pub open spec fn parts_sorted(s: Seq<ChatMessagePart>) -> bool {
    forall|i: int, j: int| 0 <= i < j < s.len() ==> !crate::text::lex_lt(#[trigger] s[j].id@, #[trigger] s[i].id@)
}

/// A message's parts, ordered by ID.
pub fn sort_parts_by_id(parts: Vec<ChatMessagePart>) -> (r: Vec<ChatMessagePart>)
    ensures
        r@.to_multiset() == parts@.to_multiset(),
        r@.len() == parts@.len(),
        parts_sorted(r@),
{
    broadcast use vstd::seq_lib::group_to_multiset_ensures;

    let mut rest = parts;
    let ghost all = rest@;
    let total: usize = rest.len();
    let mut r: Vec<ChatMessagePart> = Vec::new();
    let mut i: usize = 0;
    while rest.len() > 0
        invariant
            all.len() == i + rest@.len(),
            all.len() == total,
            rest@ == all.subrange(i as int, all.len() as int),
            r@.to_multiset() == all.subrange(0, i as int).to_multiset(),
            parts_sorted(r@),
        decreases rest.len(),
    {
        let x = rest.remove(0);
        assert(x == all[i as int]);
        let xv = crate::text::chars_of(x.id.as_str());
        let mut p: usize = 0;
        while p < r.len() && !crate::text::chars_lt(&xv, &crate::text::chars_of(r[p].id.as_str()))
            invariant
                p <= r@.len(),
                xv@ == x.id@,
                forall|q: int| 0 <= q < p ==> !crate::text::lex_lt(x.id@, #[trigger] r@[q].id@),
            decreases r.len() - p,
        {
            p = p + 1;
        }
        let ghost old_r = r@;
        proof {
            assert forall|q: int| p <= q < old_r.len() implies !crate::text::lex_lt(
                #[trigger] old_r[q].id@,
                x.id@,
            ) by {
                assert(crate::text::lex_lt(x.id@, old_r[p as int].id@));
                crate::text::lemma_lex_order(x.id@, old_r[p as int].id@, old_r[q].id@);
                crate::text::lemma_lex_order(old_r[p as int].id@, old_r[q].id@, x.id@);
                crate::text::lemma_lex_order(old_r[q].id@, x.id@, old_r[p as int].id@);
            }
        }
        r.insert(p, x);
        proof {
            assert(r@ == old_r.insert(p as int, x));
            vstd::seq_lib::to_multiset_insert(old_r, p as int, x);
            let pre = all.subrange(0, i as int);
            assert(all.subrange(0, i + 1) =~= pre.push(x));
            vstd::seq_lib::to_multiset_build(pre, x);
            let rv = r@;
            assert forall|a: int, b: int| 0 <= a < b < rv.len() implies !crate::text::lex_lt(
                #[trigger] rv[b].id@,
                #[trigger] rv[a].id@,
            ) by {
                if b < p {
                    assert(rv[a] == old_r[a] && rv[b] == old_r[b]);
                } else if a > p {
                    assert(rv[a] == old_r[a - 1] && rv[b] == old_r[b - 1]);
                } else if a < p && b == p {
                    assert(rv[a] == old_r[a] && rv[b] == x);
                } else if a < p && b > p {
                    assert(rv[a] == old_r[a] && rv[b] == old_r[b - 1]);
                } else {
                    assert(rv[a] == x && rv[b] == old_r[b - 1]);
                }
            }
        }
        i = i + 1;
        assert(rest@ =~= all.subrange(i as int, all.len() as int));
    }
    assert(all.subrange(0, i as int) =~= all);
    assert(r@.to_multiset().len() == r@.len());
    assert(all.to_multiset().len() == all.len());
    r
}

/// The parts shown for a message, from its stored parts in any order:
/// each converted (see `is_part_from_info`), then ordered by ID.
pub fn message_parts(infos: Vec<PartInfo>) -> (r: Vec<ChatMessagePart>)
    ensures
        r@.len() == infos@.len(),
        parts_sorted(r@),
        exists|c: Seq<ChatMessagePart>| #![trigger c.to_multiset()]
            c.len() == infos@.len()
            && (forall|k: int| 0 <= k < c.len() ==> is_part_from_info(#[trigger] c[k], infos@[k]))
            && r@.to_multiset() == c.to_multiset(),
{
    let mut converted: Vec<ChatMessagePart> = Vec::new();
    let mut rest = infos;
    let ghost all = rest@;
    let total: usize = rest.len();
    let mut i: usize = 0;
    while rest.len() > 0
        invariant
            all.len() == i + rest@.len(),
            all.len() == total,
            rest@ == all.subrange(i as int, all.len() as int),
            converted@.len() == i,
            forall|k: int| 0 <= k < i ==> is_part_from_info(#[trigger] converted@[k], all[k]),
        decreases rest.len(),
    {
        let info = rest.remove(0);
        assert(info == all[i as int]);
        converted.push(chat_part_from_info(info));
        i = i + 1;
        assert(rest@ =~= all.subrange(i as int, all.len() as int));
    }
    let ghost c = converted@;
    let r = sort_parts_by_id(converted);
    assert(c.len() == all.len());
    r
}

/// The chat message for a stored message and its parts: its fields as
/// stored, the creation and completion times, the summary's title if any,
/// and the input and output token counts if any.
pub fn chat_message_from_info(info: MessageInfo, parts: Vec<ChatMessagePart>) -> (r: ChatMessage)
    ensures
        r.id == info.id,
        r.session_id == info.session_id,
        r.role == info.role,
        r.created_at == info.time.created,
        r.completed_at == info.time.completed,
        r.parent_id == info.parent_id,
        r.model_id == info.model_id,
        r.provider_id == info.provider_id,
        r.agent == info.agent,
        r.summary_title == (match info.summary {
            Some(s) => s.title,
            None => None,
        }),
        r.tokens_input == (match info.tokens {
            Some(t) => t.input,
            None => None,
        }),
        r.tokens_output == (match info.tokens {
            Some(t) => t.output,
            None => None,
        }),
        r.parts == parts,
{
    let summary_title = match info.summary {
        Some(s) => s.title,
        None => None,
    };
    let (tokens_input, tokens_output) = match info.tokens {
        Some(t) => (t.input, t.output),
        None => (None, None),
    };
    ChatMessage {
        id: info.id,
        session_id: info.session_id,
        role: info.role,
        created_at: info.time.created,
        completed_at: info.time.completed,
        parent_id: info.parent_id,
        model_id: info.model_id,
        provider_id: info.provider_id,
        agent: info.agent,
        summary_title,
        tokens_input,
        tokens_output,
        parts,
    }
}

/// Keys whose descending order is the ascending order of `k`.
pub open spec fn reversed_keys(k: Seq<i64>) -> Seq<i64> {
    Seq::new(k.len(), |i: int| (-1 - k[i]) as i64)
}

/// The order in which messages are shown: indices into their creation
/// times, earliest first, messages created at the same time in the order
/// they were read (a stable sort).
pub fn chronological_order(created: &Vec<i64>) -> (r: Vec<usize>)
    ensures
        is_index_permutation(Seq::new(r@.len(), |a: int| r@[a] as int), created@.len() as int),
        forall|a: int, b: int|
            0 <= a < b < r@.len() ==> created@[#[trigger] r@[a] as int] <= created@[#[trigger] r@[b] as int],
        forall|a: int, b: int|
            0 <= a < b < r@.len() && created@[#[trigger] r@[a] as int] == created@[#[trigger] r@[b] as int]
                ==> r@[a] < r@[b],
{
    let mut keys: Vec<i64> = Vec::new();
    let mut i: usize = 0;
    while i < created.len()
        invariant
            i <= created@.len(),
            keys@ == reversed_keys(created@).subrange(0, i as int),
        decreases created.len() - i,
    {
        keys.push(-1 - created[i]);
        i = i + 1;
        assert(keys@ =~= reversed_keys(created@).subrange(0, i as int));
    }
    assert(keys@ =~= reversed_keys(created@));
    let r = sort_order_desc(&keys);
    proof {
        let n = keys@.len() as int;
        law_order_desc(keys@, n);
        let o = order_desc(keys@, n);
        let ro = Seq::new(r@.len(), |a: int| r@[a] as int);
        assert(ro =~= o);
        assert forall|a: int, b: int|
            0 <= a < b < r@.len() implies created@[#[trigger] r@[a] as int] <= created@[#[trigger] r@[b] as int] by {
            assert(keys@[o[a]] >= keys@[o[b]]);
        }
        assert forall|a: int, b: int|
            0 <= a < b < r@.len() && created@[#[trigger] r@[a] as int] == created@[#[trigger] r@[b] as int]
                implies r@[a] < r@[b] by {
            assert(keys@[o[a]] == keys@[o[b]]);
        }
    }
    r
}

proof fn lemma_history_kept(s: Seq<ChatSession>, q: ChatHistoryQuery)
    ensures
        history_kept(s, q).len() <= s.len(),
        forall|i: int|
            0 <= i < history_kept(s, q).len() ==> history_keeps(#[trigger] history_kept(s, q)[i], q)
                && s.contains(history_kept(s, q)[i]),
    decreases s.len(),
{
    if s.len() > 0 {
        lemma_history_kept(s.drop_last(), q);
        let prev = history_kept(s.drop_last(), q);
        assert forall|i: int| 0 <= i < history_kept(s, q).len() implies history_keeps(
            #[trigger] history_kept(s, q)[i],
            q,
        ) && s.contains(history_kept(s, q)[i]) by {
            if i < prev.len() {
                assert(history_kept(s, q)[i] == prev[i]);
                let k = choose|k: int| 0 <= k < s.drop_last().len() && s.drop_last()[k] == prev[i];
                assert(s[k] == prev[i]);
            } else {
                assert(history_kept(s, q)[i] == s.last());
                assert(s[s.len() - 1] == s.last());
            }
        }
    }
}

/// Every session the history list returns was listed and passes the
/// query's filters (its workspace when one is asked for, no child sessions
/// unless included), and there are never more than the limit.
pub proof fn law_history_filter(s: Seq<ChatSession>, q: ChatHistoryQuery)
    ensures
        forall|i: int|
            0 <= i < limited(history_kept(s, q), q.limit).len() ==> history_keeps(
                #[trigger] limited(history_kept(s, q), q.limit)[i],
                q,
            ) && s.contains(limited(history_kept(s, q), q.limit)[i]),
        q.limit matches Some(l) ==> limited(history_kept(s, q), q.limit).len() <= l,
{
    lemma_history_kept(s, q);
    let k = history_kept(s, q);
    assert forall|i: int| 0 <= i < limited(k, q.limit).len() implies history_keeps(
        #[trigger] limited(k, q.limit)[i],
        q,
    ) && s.contains(limited(k, q.limit)[i]) by {
        assert(limited(k, q.limit)[i] == k[i]);
    }
}

proof fn lemma_history_kept_complete(s: Seq<ChatSession>, q: ChatHistoryQuery)
    ensures
        forall|i: int| 0 <= i < s.len() && history_keeps(s[i], q) ==> history_kept(s, q).contains(#[trigger] s[i]),
    decreases s.len(),
{
    if s.len() > 0 {
        let d = s.drop_last();
        lemma_history_kept_complete(d, q);
        let prev = history_kept(d, q);
        assert forall|i: int| 0 <= i < s.len() && history_keeps(s[i], q) implies history_kept(s, q).contains(
            #[trigger] s[i],
        ) by {
            if i < s.len() - 1 {
                assert(d[i] == s[i]);
                assert(prev.contains(s[i]));
                let k = choose|k: int| 0 <= k < prev.len() && prev[k] == s[i];
                if history_keeps(s.last(), q) {
                    assert(history_kept(s, q)[k] == prev[k]);
                } else {
                    assert(history_kept(s, q) == prev);
                }
            } else {
                assert(s[i] == s.last());
                let k = history_kept(s, q);
                assert(k[k.len() - 1] == s.last());
            }
        }
    }
}

/// What the history list returns, stated on the sessions' own fields: when
/// child sessions are not asked for, no returned session is a child
/// (whether or not a workspace is asked for); when a workspace is asked
/// for, every returned session is in it; every returned session was
/// listed; and every listed session that is in the asked-for workspace (if
/// any) and is not a child (unless children are asked for) is returned,
/// unless the limit has been reached.
pub proof fn law_history_filter_fields(s: Seq<ChatSession>, q: ChatHistoryQuery)
    ensures
        ({
            let r = limited(history_kept(s, q), q.limit);
            &&& forall|j: int| 0 <= j < r.len() ==> !q.include_children ==> !(#[trigger] r[j]).is_child
            &&& forall|j: int|
                0 <= j < r.len() ==> (q.workspace matches Some(w) ==> (#[trigger] r[j]).workspace_path@ == w@)
            &&& forall|j: int| 0 <= j < r.len() ==> s.contains(#[trigger] r[j])
            &&& forall|i: int|
                0 <= i < s.len() && (q.include_children || !s[i].is_child) && (q.workspace matches Some(w)
                    ==> s[i].workspace_path@ == w@) && (q.limit matches Some(l) ==> r.len() < l) ==> r.contains(
                    #[trigger] s[i],
                )
        }),
{
    lemma_history_kept(s, q);
    lemma_history_kept_complete(s, q);
    let k = history_kept(s, q);
    let r = limited(k, q.limit);
    assert forall|j: int| 0 <= j < r.len() implies history_keeps(#[trigger] r[j], q) && s.contains(r[j]) by {
        assert(r[j] == k[j]);
    }
    assert forall|i: int|
        0 <= i < s.len() && (q.include_children || !s[i].is_child) && (q.workspace matches Some(w)
            ==> s[i].workspace_path@ == w@) && (q.limit matches Some(l) ==> r.len() < l) implies r.contains(
        #[trigger] s[i],
    ) by {
        assert(history_keeps(s[i], q));
        assert(k.contains(s[i]));
        assert(r == k);
    }
}

/// Sessions never more recently updated further on.
pub open spec fn updated_desc(s: Seq<ChatSession>) -> bool {
    forall|i: int, j: int| 0 <= i < j < s.len() ==> #[trigger] s[i].updated_at >= #[trigger] s[j].updated_at
}

/// A lookup by ID finds nothing exactly when no listed session has that
/// ID; otherwise it finds the first one with it, which, in a list ordered
/// most recently updated first, is the most recently updated of them.
pub proof fn law_session_lookup(s: Seq<ChatSession>, id: Seq<char>)
    ensures
        session_with_id(s, id) is None <==> (forall|i: int| 0 <= i < s.len() ==> #[trigger] s[i].id@ != id),
        session_with_id(s, id) matches Some(x) ==> exists|i: int|
            0 <= i < s.len() && s[i] == x && x.id@ == id && (forall|j: int| 0 <= j < i ==> #[trigger] s[j].id@ != id),
        session_with_id(s, id) is Some && updated_desc(s) ==> (forall|j: int|
            0 <= j < s.len() && #[trigger] s[j].id@ == id ==> s[j].updated_at <= session_with_id(
                s,
                id,
            )->Some_0.updated_at),
    decreases s.len(),
{
    if s.len() > 0 {
        let t = s.drop_first();
        law_session_lookup(t, id);
        assert forall|i: int| 0 <= i < t.len() implies #[trigger] t[i] == s[i + 1] by {}
        if s[0].id@ != id {
            if session_with_id(s, id) is None {
                assert forall|i: int| 0 <= i < s.len() implies #[trigger] s[i].id@ != id by {
                    if i > 0 {
                        assert(t[i - 1] == s[i]);
                    }
                }
            } else {
                let x = session_with_id(s, id)->Some_0;
                let i = choose|i: int|
                    0 <= i < t.len() && t[i] == x && x.id@ == id && (forall|j: int| 0 <= j < i ==> #[trigger] t[j].id@ != id);
                assert(s[i + 1] == x);
                assert forall|j: int| 0 <= j < i + 1 implies #[trigger] s[j].id@ != id by {
                    if j > 0 {
                        assert(t[j - 1] == s[j]);
                    }
                }
                if updated_desc(s) {
                    assert(updated_desc(t)) by {
                        assert forall|a: int, b: int| 0 <= a < b < t.len() implies #[trigger] t[a].updated_at >= #[trigger] t[b].updated_at by {
                            assert(t[a] == s[a + 1] && t[b] == s[b + 1]);
                        }
                    }
                    assert forall|j: int| 0 <= j < s.len() && #[trigger] s[j].id@ == id implies s[j].updated_at <= x.updated_at by {
                        if j > 0 {
                            assert(t[j - 1] == s[j]);
                        }
                    }
                }
            }
        } else {
            if updated_desc(s) {
                assert forall|j: int| 0 <= j < s.len() && #[trigger] s[j].id@ == id implies s[j].updated_at <= s[0].updated_at by {
                    if j > 0 {
                        assert(s[0].updated_at >= s[j].updated_at);
                    }
                }
            }
        }
    }
}

/// The number of sessions in the groups of the workspaces `ws`.
pub open spec fn grouped_total(s: Seq<ChatSession>, ws: Seq<Seq<char>>) -> nat
    decreases ws.len(),
{
    if ws.len() == 0 {
        0
    } else {
        grouped_total(s, ws.drop_last()) + in_workspace(s, ws.last()).len()
    }
}

proof fn lemma_workspaces(s: Seq<ChatSession>)
    ensures
        workspaces(s).no_duplicates(),
        forall|p: Seq<char>|
            workspaces(s).contains(p) <==> exists|i: int| 0 <= i < s.len() && #[trigger] s[i].workspace_path@ == p,
        forall|p: Seq<char>|
            #[trigger] in_workspace(s, p).len() > 0 <==> exists|i: int| 0 <= i < s.len() && s[i].workspace_path@ == p,
    decreases s.len(),
{
    if s.len() > 0 {
        let t = s.drop_last();
        lemma_workspaces(t);
        let w = workspaces(t);
        let x = s.last().workspace_path@;
        assert forall|i: int| 0 <= i < t.len() implies #[trigger] t[i] == s[i] by {}
        assert(s[s.len() - 1].workspace_path@ == x);
        let ws = workspaces(s);
        if w.contains(x) {
            assert(ws == w);
        } else {
            assert(ws == w.push(x));
            assert forall|a: int, b: int| 0 <= a < b < ws.len() implies ws[a] != ws[b] by {
                if b == w.len() {
                    assert(ws[a] == w[a]);
                    assert(w.contains(w[a]));
                }
            }
        }
        assert forall|p: Seq<char>|
            ws.contains(p) <==> exists|i: int| 0 <= i < s.len() && #[trigger] s[i].workspace_path@ == p by {
            assert(ws.contains(p) <==> (w.contains(p) || p == x)) by {
                if !w.contains(x) {
                    if ws.contains(p) {
                        let k = choose|k: int| 0 <= k < ws.len() && ws[k] == p;
                        if k < w.len() {
                            assert(w[k] == p);
                        }
                    }
                    if w.contains(p) {
                        let k = choose|k: int| 0 <= k < w.len() && w[k] == p;
                        assert(ws[k] == p);
                    }
                    if p == x {
                        assert(ws[w.len() as int] == p);
                    }
                }
            }
            if w.contains(p) {
                let i = choose|i: int| 0 <= i < t.len() && #[trigger] t[i].workspace_path@ == p;
                assert(s[i].workspace_path@ == p);
            }
            if exists|i: int| 0 <= i < s.len() && #[trigger] s[i].workspace_path@ == p {
                let i = choose|i: int| 0 <= i < s.len() && #[trigger] s[i].workspace_path@ == p;
                if i < t.len() {
                    assert(t[i].workspace_path@ == p);
                }
            }
        }
        assert forall|p: Seq<char>|
            #[trigger] in_workspace(s, p).len() > 0 <==> exists|i: int| 0 <= i < s.len() && s[i].workspace_path@ == p by {
            if exists|i: int| 0 <= i < s.len() && s[i].workspace_path@ == p {
                let i = choose|i: int| 0 <= i < s.len() && s[i].workspace_path@ == p;
                if i < t.len() {
                    assert(t[i].workspace_path@ == p);
                    assert(in_workspace(t, p).len() > 0);
                }
            }
            if in_workspace(s, p).len() > 0 && p != x {
                assert(in_workspace(t, p).len() > 0);
                let i = choose|i: int| 0 <= i < t.len() && t[i].workspace_path@ == p;
                assert(s[i].workspace_path@ == p);
            }
        }
    }
}

proof fn lemma_total_step(s: Seq<ChatSession>, ws: Seq<Seq<char>>)
    requires
        s.len() > 0,
        ws.no_duplicates(),
    ensures
        grouped_total(s, ws) == grouped_total(s.drop_last(), ws) + (if ws.contains(s.last().workspace_path@) {
            1int
        } else {
            0int
        }),
    decreases ws.len(),
{
    if ws.len() > 0 {
        let u = ws.drop_last();
        assert(u.no_duplicates());
        lemma_total_step(s, u);
        let x = s.last().workspace_path@;
        if ws.last() == x {
            assert(!u.contains(x));
            assert(ws.contains(x));
        } else {
            assert(u.contains(x) <==> ws.contains(x)) by {
                if ws.contains(x) {
                    let k = choose|k: int| 0 <= k < ws.len() && ws[k] == x;
                    assert(u[k] == x);
                }
                if u.contains(x) {
                    let k = choose|k: int| 0 <= k < u.len() && u[k] == x;
                    assert(ws[k] == x);
                }
            }
        }
    }
}

/// Grouping sessions by workspace loses none and makes no empty group:
/// every group holds at least one session, and the groups' sizes add up to
/// the number of sessions.
pub proof fn law_groups_partition(s: Seq<ChatSession>)
    ensures
        forall|g: int| 0 <= g < workspaces(s).len() ==> #[trigger] in_workspace(s, workspaces(s)[g]).len() > 0,
        grouped_total(s, workspaces(s)) == s.len(),
    decreases s.len(),
{
    lemma_workspaces(s);
    assert forall|g: int| 0 <= g < workspaces(s).len() implies #[trigger] in_workspace(s, workspaces(s)[g]).len() > 0 by {
        assert(workspaces(s).contains(workspaces(s)[g]));
    }
    if s.len() > 0 {
        let t = s.drop_last();
        law_groups_partition(t);
        lemma_workspaces(t);
        let w = workspaces(t);
        let x = s.last().workspace_path@;
        lemma_total_step(s, w);
        if !w.contains(x) {
            assert(workspaces(s) == w.push(x));
            assert(w.push(x).drop_last() =~= w);
            assert(in_workspace(t, x).len() == 0) by {
                if in_workspace(t, x).len() > 0 {
                    assert(w.contains(x));
                }
            }
        }
    }
}

} // verus!
