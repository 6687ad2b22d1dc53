//! The Main Chat agent ("Pi") API: its request and response records, the
//! state report, and the slash commands offered from prompt files.

use vstd::prelude::*;
use crate::agent::ascii_lowercase;
use crate::text::{
    ascii_lower_char, chars_of, lines_chars, lines_of, lit, string_of, trim, trim_chars,
};

verus! {

broadcast use vstd::string::group_string_axioms;

/// Request to send a prompt to Pi.
#[derive(Debug, Clone)]
pub struct PromptRequest {
    /// The message to send.
    pub message: String,
}

/// Request to compact the session.
#[derive(Debug, Clone)]
pub struct CompactRequest {
    /// Optional custom instructions for compaction.
    pub custom_instructions: Option<String>,
}

/// Request to set the current model.
#[derive(Debug, Clone)]
pub struct SetModelRequest {
    pub provider: String,
    pub model_id: String,
}

/// Model information.
#[derive(Debug, Clone)]
pub struct PiModelInfo {
    pub id: String,
    pub provider: String,
    pub name: String,
    pub context_window: u64,
    pub max_tokens: u64,
}

/// Response for Pi state.
#[derive(Debug, Clone)]
pub struct PiStateResponse {
    pub model: Option<PiModelInfo>,
    pub thinking_level: String,
    pub is_streaming: bool,
    pub is_compacting: bool,
    pub session_id: Option<String>,
    pub message_count: u64,
    pub auto_compaction_enabled: bool,
}

/// Token counts of a session.
#[derive(Debug, Clone, Copy)]
pub struct PiSessionTokensResponse {
    pub input: u64,
    pub output: u64,
    pub cache_read: u64,
    pub cache_write: u64,
    pub total: u64,
}

/// Response for available models.
#[derive(Debug, Clone)]
pub struct PiModelsResponse {
    pub models: Vec<PiModelInfo>,
}

/// Prompt command info for Pi (slash command templates).
#[derive(Debug, Clone)]
pub struct PiPromptCommandInfo {
    pub name: String,
    pub description: String,
}

/// Response for prompt commands.
#[derive(Debug, Clone)]
pub struct PiPromptCommandsResponse {
    pub commands: Vec<PiPromptCommandInfo>,
}

/// The state the Pi runtime reports.
#[derive(Debug)]
pub struct PiState {
    pub model: Option<PiModelInfo>,
    pub thinking_level: String,
    pub is_streaming: bool,
    pub is_compacting: bool,
    pub session_id: Option<String>,
    pub message_count: u64,
    pub auto_compaction_enabled: bool,
}

/// The API form of the runtime's state: every field as reported.
pub fn pi_state_to_response(state: PiState) -> (r: PiStateResponse)
    ensures
        r.model == state.model,
        r.thinking_level == state.thinking_level,
        r.is_streaming == state.is_streaming,
        r.is_compacting == state.is_compacting,
        r.session_id == state.session_id,
        r.message_count == state.message_count,
        r.auto_compaction_enabled == state.auto_compaction_enabled,
{
    PiStateResponse {
        model: state.model,
        thinking_level: state.thinking_level,
        is_streaming: state.is_streaming,
        is_compacting: state.is_compacting,
        session_id: state.session_id,
        message_count: state.message_count,
        auto_compaction_enabled: state.auto_compaction_enabled,
    }
}

// ---------------------------------------------------------------------------
// Prompt commands
// ---------------------------------------------------------------------------

/// The position of the last `.` in `s`, if any.
pub open spec fn last_dot(s: Seq<char>) -> Option<int>
    decreases s.len(),
{
    if s.len() == 0 {
        None
    } else if s.last() == '.' {
        Some(s.len() - 1)
    } else {
        last_dot(s.drop_last())
    }
}

/// A file name split into stem and extension as `Path::file_stem` and
/// `Path::extension` split it: at the last dot, unless the name is `..`,
/// has no dot, or has its only relevant dot in front.
pub open spec fn stem_and_extension(name: Seq<char>) -> (Seq<char>, Option<Seq<char>>) {
    if name == ".."@ {
        (name, None)
    } else {
        match last_dot(name) {
            Some(d) => if d == 0 {
                (name, None)
            } else {
                (name.take(d), Some(name.skip(d + 1)))
            },
            None => (name, None),
        }
    }
}

/// An extension of a prompt file: `md` or `txt`, in any ASCII case.
pub open spec fn is_prompt_extension(e: Option<Seq<char>>) -> bool {
    match e {
        Some(x) => ascii_lowercase(x) == "md"@ || ascii_lowercase(x) == "txt"@,
        None => false,
    }
}

/// The command a prompt file defines: its trimmed stem, when it has a
/// prompt extension and the stem is not blank.
pub open spec fn prompt_command_of(file_name: Seq<char>) -> Option<Seq<char>> {
    let (stem, ext) = stem_and_extension(file_name);
    if is_prompt_extension(ext) && trim(stem).len() > 0 {
        Some(trim(stem))
    } else {
        None
    }
}

proof fn lemma_last_dot(s: Seq<char>)
    ensures
        last_dot(s) matches Some(d) ==> 0 <= d < s.len(),
    decreases s.len(),
{
    if s.len() > 0 && s.last() != '.' {
        lemma_last_dot(s.drop_last());
    }
}

fn last_dot_of(v: &Vec<char>) -> (r: Option<usize>)
    ensures
        match last_dot(v@) {
            Some(d) => r == Some(d as usize),
            None => r is None,
        },
{
    let mut n: usize = v.len();
    assert(v@.subrange(0, n as int) =~= v@);
    while n > 0
        invariant
            n <= v@.len(),
            last_dot(v@) == last_dot(v@.subrange(0, n as int)),
        decreases n,
    {
        if v[n - 1] == '.' {
            return Some(n - 1);
        }
        assert(v@.subrange(0, n as int).drop_last() =~= v@.subrange(0, n - 1));
        n = n - 1;
    }
    None
}

fn ascii_lowercase_chars(v: &Vec<char>) -> (r: Vec<char>)
    ensures
        r@ == ascii_lowercase(v@),
{
    let mut r: Vec<char> = Vec::new();
    let mut i: usize = 0;
    while i < v.len()
        invariant
            i <= v@.len(),
            r@ == ascii_lowercase(v@.subrange(0, i as int)),
        decreases v.len() - i,
    {
        r.push(ascii_lower_char(v[i]));
        i = i + 1;
        assert(r@ =~= ascii_lowercase(v@.subrange(0, i as int)));
    }
    assert(v@.subrange(0, i as int) =~= v@);
    r
}

/// The command name a prompt file defines (see `prompt_command_of`).
pub fn prompt_command_name(file_name: &str) -> (r: Option<String>)
    ensures
        match prompt_command_of(file_name@) {
            Some(n) => r matches Some(x) && x@ == n,
            None => r is None,
        },
{
    let v = chars_of(file_name);
    proof {
        reveal_strlit("..");
        reveal_strlit("md");
        reveal_strlit("txt");
    }
    let is_dotdot = v.len() == 2 && v[0] == '.' && v[1] == '.';
    proof {
        if is_dotdot {
            assert(v@ =~= ".."@);
        } else if v@ == ".."@ {
            assert(v@.len() == 2 && v@[0] == '.' && v@[1] == '.');
        }
    }
    proof {
        lemma_last_dot(v@);
    }
    let split = if is_dotdot {
        None
    } else {
        match last_dot_of(&v) {
            Some(d) => if d == 0 {
                None
            } else {
                Some(d)
            },
            None => None,
        }
    };
    let (stem, ext) = match split {
        Some(d) => (crate::text::slice_chars(&v, 0, d), Some(crate::text::slice_chars(&v, d + 1, v.len()))),
        None => (crate::text::slice_chars(&v, 0, v.len()), None),
    };
    assert(stem@ == stem_and_extension(file_name@).0);
    let ok_ext = match &ext {
        Some(e) => {
            let l = ascii_lowercase_chars(e);
            (l.len() == 2 && l[0] == 'm' && l[1] == 'd') || (l.len() == 3 && l[0] == 't' && l[1] == 'x'
                && l[2] == 't')
        },
        None => false,
    };
    proof {
        match ext {
            Some(e) => {
                assert(e@ == stem_and_extension(file_name@).1.unwrap());
                let l = ascii_lowercase(e@);
                if l.len() == 2 && l[0] == 'm' && l[1] == 'd' {
                    assert(l =~= "md"@);
                }
                if l.len() == 3 && l[0] == 't' && l[1] == 'x' && l[2] == 't' {
                    assert(l =~= "txt"@);
                }
            },
            None => {},
        }
    }
    assert(ok_ext == is_prompt_extension(stem_and_extension(file_name@).1));
    let name = trim_chars(&stem);
    if ok_ext && name.len() > 0 {
        Some(string_of(&name))
    } else {
        None
    }
}

/// `s` without leading `c`s.
pub open spec fn without_leading(s: Seq<char>, c: char) -> Seq<char>
    decreases s.len(),
{
    if s.len() > 0 && s[0] == c {
        without_leading(s.drop_first(), c)
    } else {
        s
    }
}

fn skip_leading(t: &Vec<char>, c: char) -> (r: Vec<char>)
    ensures
        r@ == without_leading(t@, c),
{
    let mut a: usize = 0;
    assert(t@.subrange(0, t@.len() as int) =~= t@);
    while a < t.len() && t[a] == c
        invariant
            a <= t@.len(),
            without_leading(t@, c) == without_leading(t@.subrange(a as int, t@.len() as int), c),
        decreases t.len() - a,
    {
        assert(t@.subrange(a as int, t@.len() as int).drop_first() =~= t@.subrange(a + 1, t@.len() as int));
        a = a + 1;
    }
    assert(without_leading(t@.subrange(a as int, t@.len() as int), c) == t@.subrange(a as int, t@.len() as int));
    crate::text::slice_chars(t, a, t.len())
}

/// The first line of `lines` that is not blank, trimmed.
pub open spec fn first_text_line(lines: Seq<Seq<char>>) -> Option<Seq<char>>
    decreases lines.len(),
{
    if lines.len() == 0 {
        None
    } else if trim(lines[0]).len() > 0 {
        Some(trim(lines[0]))
    } else {
        first_text_line(lines.drop_first())
    }
}

/// The description of a prompt file: its first non-blank line without
/// leading `#`s, trimmed; "Custom prompt" when it has none or could not be
/// read.
pub open spec fn prompt_description_of(content: Option<Seq<char>>) -> Seq<char> {
    match content {
        Some(c) => match first_text_line(lines_of(c)) {
            Some(l) => trim(without_leading(l, '#')),
            None => "Custom prompt"@,
        },
        None => "Custom prompt"@,
    }
}

/// The description of a prompt file with the given content (see
/// `prompt_description_of`).
pub fn prompt_description(content: &Option<String>) -> (r: String)
    ensures
        r@ == prompt_description_of(crate::agent_rpc::opt_view(*content)),
{
    match content {
        Some(c) => {
            let v = chars_of(c.as_str());
            assert(crate::agent_rpc::opt_view(*content) == Some(v@));
            let lines = lines_chars(&v);
            let ghost ls = lines_of(v@);
            let mut i: usize = 0;
            assert(ls.subrange(0, ls.len() as int) =~= ls);
            while i < lines.len()
                invariant
                    i <= lines@.len(),
                    lines@.len() == ls.len(),
                    ls == lines_of(v@),
                    crate::agent_rpc::opt_view(*content) == Some(v@),
                    forall|k: int| 0 <= k < lines@.len() ==> (#[trigger] lines@[k])@ == ls[k],
                    first_text_line(ls) == first_text_line(ls.subrange(i as int, ls.len() as int)),
                decreases lines.len() - i,
            {
                let ghost rest = ls.subrange(i as int, ls.len() as int);
                assert(rest[0] == ls[i as int]);
                assert(rest.drop_first() =~= ls.subrange(i + 1, ls.len() as int));
                let t = trim_chars(&lines[i]);
                if t.len() > 0 {
                    assert(first_text_line(rest) == Some(t@));
                    let rest_chars = skip_leading(&t, '#');
                    let d = trim_chars(&rest_chars);
                    return string_of(&d);
                }
                i = i + 1;
            }
            lit("Custom prompt")
        },
        None => lit("Custom prompt"),
    }
}

/// A file found in a prompt directory, with its content if it could be
/// read.
#[derive(Debug, Clone)]
pub struct PromptFile {
    pub file_name: String,
    pub content: Option<String>,
}

/// The commands the files define, in order: one per file with a command
/// name not defined by an earlier file.
pub open spec fn commands_of(files: Seq<PromptFile>) -> Seq<(Seq<char>, Seq<char>)>
    decreases files.len(),
{
    if files.len() == 0 {
        Seq::empty()
    } else {
        let prev = commands_of(files.drop_last());
        match prompt_command_of(files.last().file_name@) {
            Some(n) => if (exists|k: int| 0 <= k < prev.len() && #[trigger] prev[k].0 == n) {
                prev
            } else {
                prev.push((n, prompt_description_of(crate::agent_rpc::opt_view(files.last().content))))
            },
            None => prev,
        }
    }
}

/// The commands as (name, description) texts.
pub open spec fn commands_view(c: Seq<PiPromptCommandInfo>) -> Seq<(Seq<char>, Seq<char>)> {
    Seq::new(c.len(), |i: int| (c[i].name@, c[i].description@))
}

/// The slash commands defined by prompt files, taken from the directories
/// in the order searched (see `commands_of`).
pub fn prompt_commands(files: &Vec<PromptFile>) -> (r: PiPromptCommandsResponse)
    ensures
        commands_view(r.commands@) == commands_of(files@),
{
    let mut cmds: Vec<PiPromptCommandInfo> = Vec::new();
    let mut i: usize = 0;
    while i < files.len()
        invariant
            i <= files@.len(),
            commands_view(cmds@) == commands_of(files@.subrange(0, i as int)),
        decreases files.len() - i,
    {
        let f = &files[i];
        assert(files@.subrange(0, i + 1).drop_last() =~= files@.subrange(0, i as int));
        assert(files@.subrange(0, i + 1).last() == *f);
        match prompt_command_name(f.file_name.as_str()) {
            Some(name) => {
                let ghost cv = commands_view(cmds@);
                let mut seen = false;
                let mut k: usize = 0;
                while k < cmds.len()
                    invariant
                        k <= cmds@.len(),
                        cv == commands_view(cmds@),
                        seen <==> exists|j: int| 0 <= j < k && #[trigger] cv[j].0 == name@,
                    decreases cmds.len() - k,
                {
                    if cmds[k].name == name {
                        assert(cv[k as int].0 == name@);
                        seen = true;
                    }
                    k = k + 1;
                }
                if !seen {
                    let description = prompt_description(&f.content);
                    cmds.push(PiPromptCommandInfo { name, description });
                    assert(commands_view(cmds@) =~= cv.push((name@, description@)));
                }
            },
            None => {},
        }
        i = i + 1;
    }
    assert(files@.subrange(0, i as int) =~= files@);
    PiPromptCommandsResponse { commands: cmds }
}

} // verus!
