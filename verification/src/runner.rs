//! The process runner's bookkeeping: the processes it manages, the errors
//! it answers with, and the buffered standard output of RPC processes.
//!
//! Starting, signalling and reading the processes, and the socket the
//! runner serves, are the caller's part.

use vstd::prelude::*;
use crate::text::lit;

verus! {

broadcast use vstd::string::group_string_axioms;

/// How many standard output lines an RPC process keeps buffered.
pub const MAX_BUFFERED_LINES: usize = 10000;

/// Error codes of the runner's answers.
#[derive(Debug, Clone, Copy, PartialEq, Eq, Structural)]
pub enum ErrorCode {
    InvalidRequest,
    ProcessAlreadyExists,
    ProcessNotFound,
    NotRpcProcess,
    SpawnFailed,
    IoError,
    Internal,
}

/// An error answer.
#[derive(Debug, Clone)]
pub struct RunnerError {
    pub code: ErrorCode,
    pub message: String,
}

/// The answer to a request for an ID that is already in use.
pub fn already_exists_error(id: &str) -> (r: RunnerError)
    ensures
        r.code == ErrorCode::ProcessAlreadyExists,
        r.message@ == "Process with ID '"@ + id@ + "' already exists"@,
{
    let mut m = lit("Process with ID '");
    m.append(id);
    m.append("' already exists");
    RunnerError { code: ErrorCode::ProcessAlreadyExists, message: m }
}

/// The answer to a request for an unknown process.
pub fn not_found_error(id: &str) -> (r: RunnerError)
    ensures
        r.code == ErrorCode::ProcessNotFound,
        r.message@ == "Process '"@ + id@ + "' not found"@,
{
    let mut m = lit("Process '");
    m.append(id);
    m.append("' not found");
    RunnerError { code: ErrorCode::ProcessNotFound, message: m }
}

/// The answer to a standard input or output request for a process that
/// was not started for RPC.
pub fn not_rpc_error(id: &str) -> (r: RunnerError)
    ensures
        r.code == ErrorCode::NotRpcProcess,
        r.message@ == "Process '"@ + id@ + "' is not an RPC process"@,
{
    let mut m = lit("Process '");
    m.append(id);
    m.append("' is not an RPC process");
    RunnerError { code: ErrorCode::NotRpcProcess, message: m }
}

/// The answer to a request line that is not valid JSON.
pub fn invalid_json_error(detail: &str) -> (r: RunnerError)
    ensures
        r.code == ErrorCode::InvalidRequest,
        r.message@ == "Invalid JSON: "@ + detail@,
{
    let mut m = lit("Invalid JSON: ");
    m.append(detail);
    RunnerError { code: ErrorCode::InvalidRequest, message: m }
}

// ---------------------------------------------------------------------------
// Buffered standard output
// ---------------------------------------------------------------------------

/// The standard output of an RPC process, as buffered lines.
pub struct StdoutBuffer {
    lines: Vec<String>,
    closed: bool,
    exit_code: Option<i32>,
}

/// The texts of a list of lines.
pub open spec fn lines_view(v: Seq<String>) -> Seq<Seq<char>> {
    Seq::new(v.len(), |i: int| v[i]@)
}

/// The lines kept after one more line arrives: all of them, or, once there
/// are more than the limit, all but the oldest.
pub open spec fn keep_recent(lines: Seq<Seq<char>>) -> Seq<Seq<char>> {
    if lines.len() > MAX_BUFFERED_LINES {
        lines.drop_first()
    } else {
        lines
    }
}

/// Every line followed by a newline, joined.
pub open spec fn newline_terminated(lines: Seq<Seq<char>>) -> Seq<char>
    decreases lines.len(),
{
    if lines.len() == 0 {
        Seq::empty()
    } else {
        newline_terminated(lines.drop_last()) + lines.last() + seq!['\n']
    }
}

impl StdoutBuffer {
    #[verifier::type_invariant]
    closed spec fn inv(&self) -> bool {
        self.lines@.len() <= MAX_BUFFERED_LINES
    }

    /// The buffered lines, oldest first.
    pub closed spec fn buffered(&self) -> Seq<Seq<char>> {
        lines_view(self.lines@)
    }

    /// Whether the process's output has ended.
    pub closed spec fn is_closed(&self) -> bool {
        self.closed
    }

    /// The exit code recorded when the output ended, if any.
    pub closed spec fn recorded_exit_code(&self) -> Option<i32> {
        self.exit_code
    }

    /// An empty, open buffer.
    pub fn new() -> (r: Self)
        ensures
            r.buffered() == Seq::<Seq<char>>::empty(),
            !r.is_closed(),
            r.recorded_exit_code() is None,
    {
        let r = StdoutBuffer { lines: Vec::new(), closed: false, exit_code: None };
        assert(lines_view(r.lines@) =~= Seq::<Seq<char>>::empty());
        r
    }

    /// Adds a line read from the process; once more than
    /// `MAX_BUFFERED_LINES` are held, the oldest is dropped.
    pub fn push_line(&mut self, line: String)
        ensures
            final(self).buffered() == keep_recent(old(self).buffered().push(line@)),
            final(self).is_closed() == old(self).is_closed(),
            final(self).recorded_exit_code() == old(self).recorded_exit_code(),
    {
        proof {
            use_type_invariant(&*self);
        }
        let ghost before = lines_view(self.lines@);
        let mut v: Vec<String> = Vec::new();
        std::mem::swap(&mut v, &mut self.lines);
        v.push(line);
        let ghost pushed = v@;
        assert(lines_view(pushed) =~= before.push(line@));
        if v.len() > MAX_BUFFERED_LINES {
            v.remove(0);
            assert(lines_view(v@) =~= lines_view(pushed).drop_first());
        }
        *self = StdoutBuffer { lines: v, closed: self.closed, exit_code: self.exit_code };
    }

    /// Marks the output as ended.
    pub fn close(&mut self)
        ensures
            final(self).buffered() == old(self).buffered(),
            final(self).is_closed(),
            final(self).recorded_exit_code() == old(self).recorded_exit_code(),
    {
        proof {
            use_type_invariant(&*self);
        }
        self.closed = true;
    }

    /// Whether a read need not wait any longer: some output is buffered or
    /// the output has ended.
    pub fn ready(&self) -> (r: bool)
        ensures
            r == (self.buffered().len() > 0 || self.is_closed()),
    {
        self.lines.len() > 0 || self.closed
    }

    /// The buffered lines, for a new subscriber.
    pub fn snapshot(&self) -> (r: Vec<String>)
        ensures
            lines_view(r@) == self.buffered(),
    {
        let mut r: Vec<String> = Vec::new();
        let mut i: usize = 0;
        while i < self.lines.len()
            invariant
                i <= self.lines@.len(),
                lines_view(r@) == lines_view(self.lines@).subrange(0, i as int),
            decreases self.lines.len() - i,
        {
            let line = self.lines[i].clone();
            assert(line == self.lines@[i as int]);
            let ghost before = r@;
            r.push(line);
            assert(lines_view(r@) =~= lines_view(before).push(self.lines@[i as int]@));
            i = i + 1;
            assert(lines_view(r@) =~= lines_view(self.lines@).subrange(0, i as int));
        }
        assert(lines_view(self.lines@).subrange(0, i as int) =~= lines_view(self.lines@));
        r
    }

    /// Takes out all buffered output: the lines, each followed by a
    /// newline, and whether more may come (the output has not ended). The
    /// buffer is left empty.
    pub fn take_output(&mut self) -> (r: (String, bool))
        ensures
            r.0@ == newline_terminated(old(self).buffered()),
            r.1 == !old(self).is_closed(),
            final(self).buffered() == Seq::<Seq<char>>::empty(),
            final(self).is_closed() == old(self).is_closed(),
            final(self).recorded_exit_code() == old(self).recorded_exit_code(),
    {
        let mut v: Vec<String> = Vec::new();
        std::mem::swap(&mut v, &mut self.lines);
        assert(lines_view(self.lines@) =~= Seq::<Seq<char>>::empty());
        let ghost all = lines_view(v@);
        let mut data = String::new();
        proof {
            reveal_strlit("\n");
        }
        let mut i: usize = 0;
        while i < v.len()
            invariant
                i <= v@.len(),
                all == lines_view(v@),
                data@ == newline_terminated(all.subrange(0, i as int)),
            "\n"@ == seq!['\n'],
            decreases v.len() - i,
        {
            data.append(v[i].as_str());
            data.append("\n");
            let ghost next = all.subrange(0, i + 1);
            assert(next.drop_last() =~= all.subrange(0, i as int));
            assert(next.last() == v@[i as int]@);
            i = i + 1;
        }
        assert(all.subrange(0, i as int) =~= all);
        (data, !self.closed)
    }
}

/// While no more than `MAX_BUFFERED_LINES` lines have arrived in an empty
/// buffer, none is dropped: it holds every line in order, so a read returns
/// them all, each followed by a newline.
pub proof fn law_read_returns_lines(lines: Seq<Seq<char>>)
    requires
        lines.len() <= MAX_BUFFERED_LINES,
    ensures
        buffered_after(lines) == lines,
        newline_terminated(buffered_after(lines)) == newline_terminated(lines),
    decreases lines.len(),
{
    if lines.len() > 0 {
        law_read_returns_lines(lines.drop_last());
        assert(buffered_after(lines.drop_last()).push(lines.last()) =~= lines);
    }
}

/// The buffered lines after a run of lines arrived in an empty buffer.
pub open spec fn buffered_after(lines: Seq<Seq<char>>) -> Seq<Seq<char>>
    decreases lines.len(),
{
    if lines.len() == 0 {
        Seq::empty()
    } else {
        keep_recent(buffered_after(lines.drop_last()).push(lines.last()))
    }
}

/// However many lines arrive, the buffer holds the most recent ones: all of
/// them up to `MAX_BUFFERED_LINES`, and never more.
pub proof fn law_buffer_keeps_most_recent(lines: Seq<Seq<char>>)
    ensures
        buffered_after(lines).len() == (if lines.len() <= MAX_BUFFERED_LINES {
            lines.len() as int
        } else {
            MAX_BUFFERED_LINES as int
        }),
        buffered_after(lines) == lines.subrange(
            lines.len() - buffered_after(lines).len(),
            lines.len() as int,
        ),
    decreases lines.len(),
{
    if lines.len() > 0 {
        let prev = lines.drop_last();
        law_buffer_keeps_most_recent(prev);
        let b = buffered_after(prev);
        let pushed = b.push(lines.last());
        assert(prev =~= lines.subrange(0, lines.len() - 1));
        assert(pushed =~= lines.subrange(lines.len() - pushed.len(), lines.len() as int));
        if pushed.len() > MAX_BUFFERED_LINES {
            assert(pushed.drop_first() =~= lines.subrange(
                lines.len() - pushed.len() + 1,
                lines.len() as int,
            ));
        }
    }
}

// ---------------------------------------------------------------------------
// Managed processes
// ---------------------------------------------------------------------------

/// A process the runner manages.
#[derive(Debug)]
pub struct ManagedEntry {
    pub id: String,
    pub pid: u32,
    pub binary: String,
    pub cwd: String,
    pub is_rpc: bool,
}

impl Clone for ManagedEntry {
    fn clone(&self) -> (r: Self)
        ensures
            r == *self,
    {
        ManagedEntry {
            id: self.id.clone(),
            pid: self.pid,
            binary: self.binary.clone(),
            cwd: self.cwd.clone(),
            is_rpc: self.is_rpc,
        }
    }
}

/// No two entries share an ID.
pub open spec fn entry_ids_distinct(s: Seq<ManagedEntry>) -> bool {
    forall|a: int, b: int|
        0 <= a < s.len() && 0 <= b < s.len() && a != b ==> #[trigger] s[a].id@ != #[trigger] s[b].id@
}

/// Whether some entry has the ID.
pub open spec fn has_entry(s: Seq<ManagedEntry>, id: Seq<char>) -> bool {
    exists|i: int| 0 <= i < s.len() && #[trigger] s[i].id@ == id
}

/// The processes the runner manages, by ID.
pub struct ProcessTable {
    entries: Vec<ManagedEntry>,
}

impl View for ProcessTable {
    type V = Seq<ManagedEntry>;

    closed spec fn view(&self) -> Seq<ManagedEntry> {
        self.entries@
    }
}

impl ProcessTable {
    #[verifier::type_invariant]
    closed spec fn inv(&self) -> bool {
        entry_ids_distinct(self.entries@)
    }

    /// An empty table.
    pub fn new() -> (r: Self)
        ensures
            r@ == Seq::<ManagedEntry>::empty(),
    {
        ProcessTable { entries: Vec::new() }
    }

    /// The position of the process with the ID, if managed.
    pub fn position(&self, id: &str) -> (r: Option<usize>)
        ensures
            match r {
                Some(i) => i < self@.len() && self@[i as int].id@ == id@,
                None => !has_entry(self@, id@),
            },
    {
        let key = lit(id);
        let mut i: usize = 0;
        while i < self.entries.len()
            invariant
                i <= self.entries@.len(),
                key@ == id@,
                forall|j: int| 0 <= j < i ==> #[trigger] self.entries@[j].id@ != id@,
            decreases self.entries.len() - i,
        {
            if self.entries[i].id == key {
                return Some(i);
            }
            i = i + 1;
        }
        None
    }

    /// Whether a process may be started under the ID: refused when the ID
    /// is already in use.
    pub fn check_spawn(&self, id: &str) -> (r: Result<(), RunnerError>)
        ensures
            r is Ok <==> !has_entry(self@, id@),
            r matches Err(e) ==> e.code == ErrorCode::ProcessAlreadyExists && e.message@
                == "Process with ID '"@ + id@ + "' already exists"@,
    {
        match self.position(id) {
            Some(_) => Err(already_exists_error(id)),
            None => Ok(()),
        }
    }

    /// Records a started process.
    pub fn register(&mut self, entry: ManagedEntry)
        requires
            !has_entry(old(self)@, entry.id@),
        ensures
            final(self)@ == old(self)@.push(entry),
    {
        proof {
            use_type_invariant(&*self);
        }
        let mut v: Vec<ManagedEntry> = Vec::new();
        std::mem::swap(&mut v, &mut self.entries);
        let ghost s = v@;
        v.push(entry);
        assert forall|a: int, b: int|
            0 <= a < v@.len() && 0 <= b < v@.len() && a != b implies #[trigger] v@[a].id@
            != #[trigger] v@[b].id@ by {
            if a < s.len() && b < s.len() {
                assert(v@[a] == s[a] && v@[b] == s[b]);
            } else if a < s.len() {
                assert(v@[a] == s[a]);
            } else {
                assert(v@[b] == s[b]);
            }
        }
        *self = ProcessTable { entries: v };
    }

    /// The process with the ID, for a status or kill request; an unknown ID
    /// is answered with "not found".
    pub fn find(&self, id: &str) -> (r: Result<ManagedEntry, RunnerError>)
        ensures
            match r {
                Ok(e) => exists|i: int| 0 <= i < self@.len() && self@[i] == e && e.id@ == id@,
                Err(e) => !has_entry(self@, id@) && e.code == ErrorCode::ProcessNotFound
                    && e.message@ == "Process '"@ + id@ + "' not found"@,
            },
    {
        match self.position(id) {
            Some(i) => Ok(self.entries[i].clone()),
            None => Err(not_found_error(id)),
        }
    }

    /// The process with the ID, for a standard input or output request: an
    /// unknown ID is answered with "not found", a process not started for
    /// RPC with "not an RPC process".
    pub fn find_rpc(&self, id: &str) -> (r: Result<ManagedEntry, RunnerError>)
        ensures
            match r {
                Ok(e) => exists|i: int| 0 <= i < self@.len() && self@[i] == e && e.id@ == id@ && e.is_rpc,
                Err(e) => (!has_entry(self@, id@) && e.code == ErrorCode::ProcessNotFound
                    && e.message@ == "Process '"@ + id@ + "' not found"@) || (exists|i: int|
                    0 <= i < self@.len() && #[trigger] self@[i].id@ == id@ && !self@[i].is_rpc)
                    && e.code == ErrorCode::NotRpcProcess && e.message@ == "Process '"@ + id@
                    + "' is not an RPC process"@,
            },
    {
        match self.position(id) {
            Some(i) => {
                if self.entries[i].is_rpc {
                    Ok(self.entries[i].clone())
                } else {
                    Err(not_rpc_error(id))
                }
            },
            None => Err(not_found_error(id)),
        }
    }

    /// Stops managing the process with the ID, returning it; `None` when it
    /// was not managed.
    pub fn remove(&mut self, id: &str) -> (r: Option<ManagedEntry>)
        ensures
            match r {
                Some(e) => exists|i: int|
                    0 <= i < old(self)@.len() && old(self)@[i] == e && e.id@ == id@ && final(self)@
                        == old(self)@.remove(i),
                None => !has_entry(old(self)@, id@) && final(self)@ == old(self)@,
            },
    {
        proof {
            use_type_invariant(&*self);
        }
        match self.position(id) {
            Some(i) => {
                let mut v: Vec<ManagedEntry> = Vec::new();
                std::mem::swap(&mut v, &mut self.entries);
                let ghost s = v@;
                let e = v.remove(i);
                assert forall|a: int, b: int|
                    0 <= a < v@.len() && 0 <= b < v@.len() && a != b implies #[trigger] v@[a].id@
                    != #[trigger] v@[b].id@ by {
                    let sa = if a < i { a } else { a + 1 };
                    let sb = if b < i { b } else { b + 1 };
                    assert(v@[a] == s[sa] && v@[b] == s[sb]);
                }
                *self = ProcessTable { entries: v };
                Some(e)
            },
            None => None,
        }
    }

    /// The managed processes, for a listing.
    pub fn entries(&self) -> (r: Vec<ManagedEntry>)
        ensures
            r@ == self@,
    {
        let mut r: Vec<ManagedEntry> = Vec::new();
        let mut i: usize = 0;
        while i < self.entries.len()
            invariant
                i <= self.entries@.len(),
                r@ == self.entries@.subrange(0, i as int),
            decreases self.entries.len() - i,
        {
            r.push(self.entries[i].clone());
            i = i + 1;
            assert(r@ =~= self.entries@.subrange(0, i as int));
        }
        assert(self.entries@.subrange(0, i as int) =~= self.entries@);
        r
    }
}

} // verus!
