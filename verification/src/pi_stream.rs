//! The Main Chat agent's event stream: which events reach the browser and
//! in what form, and how an assistant reply is gathered for the chat
//! history while it streams.
//!
//! JSON payloads the stream only carries (tool arguments and results) are
//! held as JSON text.

use vstd::prelude::*;
use crate::text::lit;

verus! {

broadcast use vstd::string::group_string_axioms;

/// A tool call the assistant finished announcing; `arguments` is JSON
/// text.
#[derive(Debug, Clone)]
pub struct ToolCall {
    pub id: String,
    pub name: String,
    pub arguments: String,
}

/// An update within a streaming assistant message.
#[derive(Debug, Clone)]
pub enum AssistantMessageEvent {
    TextDelta { delta: String },
    ThinkingDelta { delta: String },
    ToolcallEnd { tool_call: ToolCall },
    /// Any other update (block start and end markers, partial tool calls).
    Other,
}

/// An event emitted by the agent process.
#[derive(Debug, Clone)]
pub enum PiEvent {
    AgentStart,
    AgentEnd,
    TurnStart,
    TurnEnd,
    MessageStart { role: String },
    MessageUpdate { assistant_message_event: AssistantMessageEvent },
    MessageEnd,
    ToolExecutionStart { tool_call_id: String, tool_name: String, args: String },
    ToolExecutionEnd { tool_call_id: String, tool_name: String, result: String },
    AutoCompactionStart,
    AutoCompactionEnd,
    /// Any other event.
    Other,
}

/// One part of a stored chat message.
#[derive(Debug, Clone)]
pub enum ContentPart {
    Thinking { text: String },
    Text { text: String },
    ToolUse { id: String, name: String, input: String },
    ToolResult { id: String, name: String, content: String },
    Separator { text: String },
}

/// A stored message part as text.
pub enum PartView {
    Thinking(Seq<char>),
    Text(Seq<char>),
    ToolUse(Seq<char>, Seq<char>, Seq<char>),
    ToolResult(Seq<char>, Seq<char>, Seq<char>),
    Separator(Seq<char>),
}

impl View for ContentPart {
    type V = PartView;

    open spec fn view(&self) -> PartView {
        match self {
            ContentPart::Thinking { text } => PartView::Thinking(text@),
            ContentPart::Text { text } => PartView::Text(text@),
            ContentPart::ToolUse { id, name, input } => PartView::ToolUse(id@, name@, input@),
            ContentPart::ToolResult { id, name, content } => PartView::ToolResult(
                id@,
                name@,
                content@,
            ),
            ContentPart::Separator { text } => PartView::Separator(text@),
        }
    }
}

/// The texts of a list of message parts.
pub open spec fn parts_view(s: Seq<ContentPart>) -> Seq<PartView> {
    Seq::new(s.len(), |i: int| s[i]@)
}

/// An event as the browser receives it.
#[derive(Debug, Clone)]
pub enum WsEvent {
    AgentStart,
    Done,
    /// The assistant started a message.
    MessageStart,
    Text { data: String },
    Thinking { data: String },
    ToolUse { id: String, name: String, input: String },
    ToolStart { id: String, name: String, input: String },
    ToolResult { id: String, name: String, content: String },
    CompactionStart,
    Compaction,
}

/// A browser event as text.
pub enum WsEventView {
    AgentStart,
    Done,
    MessageStart,
    Text(Seq<char>),
    Thinking(Seq<char>),
    ToolUse(Seq<char>, Seq<char>, Seq<char>),
    ToolStart(Seq<char>, Seq<char>, Seq<char>),
    ToolResult(Seq<char>, Seq<char>, Seq<char>),
    CompactionStart,
    Compaction,
}

impl View for WsEvent {
    type V = WsEventView;

    open spec fn view(&self) -> WsEventView {
        match self {
            WsEvent::AgentStart => WsEventView::AgentStart,
            WsEvent::Done => WsEventView::Done,
            WsEvent::MessageStart => WsEventView::MessageStart,
            WsEvent::Text { data } => WsEventView::Text(data@),
            WsEvent::Thinking { data } => WsEventView::Thinking(data@),
            WsEvent::ToolUse { id, name, input } => WsEventView::ToolUse(id@, name@, input@),
            WsEvent::ToolStart { id, name, input } => WsEventView::ToolStart(id@, name@, input@),
            WsEvent::ToolResult { id, name, content } => WsEventView::ToolResult(
                id@,
                name@,
                content@,
            ),
            WsEvent::CompactionStart => WsEventView::CompactionStart,
            WsEvent::Compaction => WsEventView::Compaction,
        }
    }
}

/// What the browser is sent for an agent event, if anything: the agent's
/// start and end, the start of an assistant message, text and thinking
/// deltas, finished tool calls, tool executions starting and ending, and
/// compaction starting and ending. Turn markers, message ends, messages of
/// other roles and all other events are not forwarded.
pub open spec fn ws_event_of(e: PiEvent) -> Option<WsEventView> {
    match e {
        PiEvent::AgentStart => Some(WsEventView::AgentStart),
        PiEvent::AgentEnd => Some(WsEventView::Done),
        PiEvent::MessageStart { role } => if role@ == "assistant"@ {
            Some(WsEventView::MessageStart)
        } else {
            None
        },
        PiEvent::MessageUpdate { assistant_message_event } => match assistant_message_event {
            AssistantMessageEvent::TextDelta { delta } => Some(WsEventView::Text(delta@)),
            AssistantMessageEvent::ThinkingDelta { delta } => Some(WsEventView::Thinking(delta@)),
            AssistantMessageEvent::ToolcallEnd { tool_call } => Some(
                WsEventView::ToolUse(tool_call.id@, tool_call.name@, tool_call.arguments@),
            ),
            AssistantMessageEvent::Other => None,
        },
        PiEvent::ToolExecutionStart { tool_call_id, tool_name, args } => Some(
            WsEventView::ToolStart(tool_call_id@, tool_name@, args@),
        ),
        PiEvent::ToolExecutionEnd { tool_call_id, tool_name, result } => Some(
            WsEventView::ToolResult(tool_call_id@, tool_name@, result@),
        ),
        PiEvent::AutoCompactionStart => Some(WsEventView::CompactionStart),
        PiEvent::AutoCompactionEnd => Some(WsEventView::Compaction),
        _ => None,
    }
}

/// The browser event for an agent event, or `None` for an event that is
/// not forwarded.
pub fn transform_pi_event_for_ws(event: &PiEvent) -> (r: Option<WsEvent>)
    ensures
        match r {
            Some(w) => ws_event_of(*event) == Some(w@),
            None => ws_event_of(*event) is None,
        },
{
    match event {
        PiEvent::AgentStart => Some(WsEvent::AgentStart),
        PiEvent::AgentEnd => Some(WsEvent::Done),
        PiEvent::MessageStart { role } => {
            if *role == lit("assistant") {
                Some(WsEvent::MessageStart)
            } else {
                None
            }
        },
        PiEvent::MessageUpdate { assistant_message_event } => match assistant_message_event {
            AssistantMessageEvent::TextDelta { delta } => Some(WsEvent::Text { data: delta.clone() }),
            AssistantMessageEvent::ThinkingDelta { delta } => Some(
                WsEvent::Thinking { data: delta.clone() },
            ),
            AssistantMessageEvent::ToolcallEnd { tool_call } => Some(
                WsEvent::ToolUse {
                    id: tool_call.id.clone(),
                    name: tool_call.name.clone(),
                    input: tool_call.arguments.clone(),
                },
            ),
            AssistantMessageEvent::Other => None,
        },
        PiEvent::ToolExecutionStart { tool_call_id, tool_name, args } => Some(
            WsEvent::ToolStart {
                id: tool_call_id.clone(),
                name: tool_name.clone(),
                input: args.clone(),
            },
        ),
        PiEvent::ToolExecutionEnd { tool_call_id, tool_name, result } => Some(
            WsEvent::ToolResult {
                id: tool_call_id.clone(),
                name: tool_name.clone(),
                content: result.clone(),
            },
        ),
        PiEvent::AutoCompactionStart => Some(WsEvent::CompactionStart),
        PiEvent::AutoCompactionEnd => Some(WsEvent::Compaction),
        _ => None,
    }
}

// ---------------------------------------------------------------------------
// Gathering the assistant's reply
// ---------------------------------------------------------------------------

/// Gathers an assistant reply while it streams, for the chat history.
pub struct MessageAccumulator {
    text: String,
    thinking: String,
    tool_calls: Vec<ContentPart>,
    tool_results: Vec<ContentPart>,
}

/// What an accumulator holds, as text.
pub struct AccumulatorView {
    pub text: Seq<char>,
    pub thinking: Seq<char>,
    pub tool_calls: Seq<PartView>,
    pub tool_results: Seq<PartView>,
}

impl View for MessageAccumulator {
    type V = AccumulatorView;

    closed spec fn view(&self) -> AccumulatorView {
        AccumulatorView {
            text: self.text@,
            thinking: self.thinking@,
            tool_calls: parts_view(self.tool_calls@),
            tool_results: parts_view(self.tool_results@),
        }
    }
}

/// An accumulator holding nothing.
pub open spec fn empty_accumulator() -> AccumulatorView {
    AccumulatorView {
        text: Seq::empty(),
        thinking: Seq::empty(),
        tool_calls: Seq::empty(),
        tool_results: Seq::empty(),
    }
}

/// The accumulator after an event: a text or thinking delta is appended to
/// the text or the thinking, a finished tool call is added as a tool use
/// and a finished tool execution as a tool result; any other event changes
/// nothing.
pub open spec fn absorb(a: AccumulatorView, e: PiEvent) -> AccumulatorView {
    match e {
        PiEvent::MessageUpdate { assistant_message_event } => match assistant_message_event {
            AssistantMessageEvent::TextDelta { delta } => AccumulatorView {
                text: a.text + delta@,
                thinking: a.thinking,
                tool_calls: a.tool_calls,
                tool_results: a.tool_results,
            },
            AssistantMessageEvent::ThinkingDelta { delta } => AccumulatorView {
                text: a.text,
                thinking: a.thinking + delta@,
                tool_calls: a.tool_calls,
                tool_results: a.tool_results,
            },
            AssistantMessageEvent::ToolcallEnd { tool_call } => AccumulatorView {
                text: a.text,
                thinking: a.thinking,
                tool_calls: a.tool_calls.push(
                    PartView::ToolUse(tool_call.id@, tool_call.name@, tool_call.arguments@),
                ),
                tool_results: a.tool_results,
            },
            AssistantMessageEvent::Other => a,
        },
        PiEvent::ToolExecutionEnd { tool_call_id, tool_name, result } => AccumulatorView {
            text: a.text,
            thinking: a.thinking,
            tool_calls: a.tool_calls,
            tool_results: a.tool_results.push(
                PartView::ToolResult(tool_call_id@, tool_name@, result@),
            ),
        },
        _ => a,
    }
}

/// The stored message an accumulator yields: its thinking, if any, then
/// its text, if any, then the tool uses and then the tool results, each in
/// the order they came.
pub open spec fn message_of(a: AccumulatorView) -> Seq<PartView> {
    (if a.thinking.len() > 0 {
        seq![PartView::Thinking(a.thinking)]
    } else {
        Seq::empty()
    }) + (if a.text.len() > 0 {
        seq![PartView::Text(a.text)]
    } else {
        Seq::empty()
    }) + a.tool_calls + a.tool_results
}

impl MessageAccumulator {
    /// An accumulator holding nothing.
    pub fn new() -> (r: Self)
        ensures
            r@ == empty_accumulator(),
    {
        let r = MessageAccumulator {
            text: String::new(),
            thinking: String::new(),
            tool_calls: Vec::new(),
            tool_results: Vec::new(),
        };
        assert(parts_view(r.tool_calls@) =~= Seq::empty());
        assert(parts_view(r.tool_results@) =~= Seq::empty());
        r
    }

    /// Takes in one event of the stream (see `absorb`).
    pub fn process_event(&mut self, event: &PiEvent)
        ensures
            final(self)@ == absorb(old(self)@, *event),
    {
        match event {
            PiEvent::MessageUpdate { assistant_message_event } => match assistant_message_event {
                AssistantMessageEvent::TextDelta { delta } => {
                    self.text.append(delta.as_str());
                },
                AssistantMessageEvent::ThinkingDelta { delta } => {
                    self.thinking.append(delta.as_str());
                },
                AssistantMessageEvent::ToolcallEnd { tool_call } => {
                    let ghost before = self.tool_calls@;
                    let part = ContentPart::ToolUse {
                        id: tool_call.id.clone(),
                        name: tool_call.name.clone(),
                        input: tool_call.arguments.clone(),
                    };
                    self.tool_calls.push(part);
                    assert(parts_view(self.tool_calls@) =~= parts_view(before).push(part@));
                },
                AssistantMessageEvent::Other => {},
            },
            PiEvent::ToolExecutionEnd { tool_call_id, tool_name, result } => {
                let ghost before = self.tool_results@;
                let part = ContentPart::ToolResult {
                    id: tool_call_id.clone(),
                    name: tool_name.clone(),
                    content: result.clone(),
                };
                self.tool_results.push(part);
                assert(parts_view(self.tool_results@) =~= parts_view(before).push(part@));
            },
            _ => {},
        }
    }

    /// Takes out the gathered message (see `message_of`), or `None` when
    /// nothing was gathered, and leaves the accumulator empty.
    pub fn take_message(&mut self) -> (r: Option<Vec<ContentPart>>)
        ensures
            final(self)@ == empty_accumulator(),
            match r {
                Some(v) => message_of(old(self)@).len() > 0 && parts_view(v@) == message_of(
                    old(self)@,
                ),
                None => message_of(old(self)@).len() == 0,
            },
    {
        let ghost a = self@;
        let mut parts: Vec<ContentPart> = Vec::new();
        let mut thinking = String::new();
        std::mem::swap(&mut thinking, &mut self.thinking);
        if !thinking.as_str().is_empty() {
            parts.push(ContentPart::Thinking { text: thinking });
        }
        let mut text = String::new();
        std::mem::swap(&mut text, &mut self.text);
        if !text.as_str().is_empty() {
            parts.push(ContentPart::Text { text });
        }
        let ghost lead = parts@;
        let mut calls: Vec<ContentPart> = Vec::new();
        std::mem::swap(&mut calls, &mut self.tool_calls);
        let ghost calls_before = calls@;
        parts.append(&mut calls);
        let mut results: Vec<ContentPart> = Vec::new();
        std::mem::swap(&mut results, &mut self.tool_results);
        let ghost results_before = results@;
        parts.append(&mut results);
        assert(parts@ == lead + calls_before + results_before);
        assert(parts_view(parts@) =~= parts_view(lead) + a.tool_calls + a.tool_results);
        assert(parts_view(lead) =~= (if a.thinking.len() > 0 {
            seq![PartView::Thinking(a.thinking)]
        } else {
            Seq::empty()
        }) + (if a.text.len() > 0 {
            seq![PartView::Text(a.text)]
        } else {
            Seq::empty()
        }));
        assert(parts_view(parts@) =~= message_of(a));
        assert(parts_view(self.tool_calls@) =~= Seq::empty());
        assert(parts_view(self.tool_results@) =~= Seq::empty());
        if parts.len() == 0 {
            None
        } else {
            Some(parts)
        }
    }
}

// ---------------------------------------------------------------------------
// The chat socket
// ---------------------------------------------------------------------------

/// What the chat socket does with one agent event.
pub struct EventOutcome {
    /// A finished assistant message to store in the chat history.
    pub save: Option<Vec<ContentPart>>,
    /// The event to send to the browser.
    pub forward: Option<WsEvent>,
}

/// Handles one agent event on the chat socket: the event is taken into the
/// accumulator; when it ends the agent's run and a chat history is kept,
/// the gathered message is taken out to be stored (and the accumulator
/// emptied); and the browser is sent the event's browser form, if any.
pub fn on_pi_event(acc: &mut MessageAccumulator, event: &PiEvent, keeps_history: bool) -> (r:
    EventOutcome)
    ensures
        match r.forward {
            Some(w) => ws_event_of(*event) == Some(w@),
            None => ws_event_of(*event) is None,
        },
        (event is AgentEnd && keeps_history) ==> {
            let gathered = message_of(absorb(old(acc)@, *event));
            &&& final(acc)@ == empty_accumulator()
            &&& match r.save {
                Some(v) => gathered.len() > 0 && parts_view(v@) == gathered,
                None => gathered.len() == 0,
            }
        },
        !(event is AgentEnd && keeps_history) ==> {
            &&& final(acc)@ == absorb(old(acc)@, *event)
            &&& r.save is None
        },
{
    acc.process_event(event);
    let save = match event {
        PiEvent::AgentEnd => if keeps_history {
            acc.take_message()
        } else {
            None
        },
        _ => None,
    };
    EventOutcome { save, forward: transform_pi_event_for_ws(event) }
}

/// A command the browser sends on the chat socket.
#[derive(Debug, Clone)]
pub enum WsCommand {
    Prompt { message: String },
    Steer { message: String },
    FollowUp { message: String },
    Abort,
    NewSession,
    Compact { custom_instructions: Option<String> },
}

/// The user message to store in the chat history for a command: the text
/// of a prompt, a steering message or a follow-up, as one text part; other
/// commands store nothing.
pub fn user_message_parts(cmd: &WsCommand) -> (r: Option<Vec<ContentPart>>)
    ensures
        match *cmd {
            WsCommand::Prompt { message } | WsCommand::Steer { message } | WsCommand::FollowUp {
                message,
            } => r is Some && parts_view(r->0@) == seq![PartView::Text(message@)],
            _ => r is None,
        },
{
    let text = match cmd {
        WsCommand::Prompt { message } => message,
        WsCommand::Steer { message } => message,
        WsCommand::FollowUp { message } => message,
        _ => {
            return None;
        },
    };
    let v = vec![ContentPart::Text { text: text.clone() }];
    assert(parts_view(v@) =~= seq![PartView::Text(text@)]);
    Some(v)
}

/// The system message that marks the start of a new conversation in the
/// chat history: one separator part, "New conversation started".
pub fn separator_parts() -> (r: Vec<ContentPart>)
    ensures
        parts_view(r@) == seq![PartView::Separator("New conversation started"@)],
{
    let v = vec![ContentPart::Separator { text: lit("New conversation started") }];
    assert(parts_view(v@) =~= seq![PartView::Separator("New conversation started"@)]);
    v
}

// ---------------------------------------------------------------------------
// What is stored is what was streamed
// ---------------------------------------------------------------------------

/// The accumulator after a run of events, taken in order.
pub open spec fn absorb_all(a: AccumulatorView, events: Seq<PiEvent>) -> AccumulatorView
    decreases events.len(),
{
    if events.len() == 0 {
        a
    } else {
        absorb(absorb_all(a, events.drop_last()), events.last())
    }
}

/// The browser events sent for a run of agent events, in order.
pub open spec fn forwarded(events: Seq<PiEvent>) -> Seq<WsEventView>
    decreases events.len(),
{
    if events.len() == 0 {
        Seq::empty()
    } else {
        let prev = forwarded(events.drop_last());
        match ws_event_of(events.last()) {
            Some(w) => prev.push(w),
            None => prev,
        }
    }
}

/// The text the browser was streamed: its text events' data, joined.
pub open spec fn streamed_text(ws: Seq<WsEventView>) -> Seq<char>
    decreases ws.len(),
{
    if ws.len() == 0 {
        Seq::empty()
    } else {
        streamed_text(ws.drop_last()) + match ws.last() {
            WsEventView::Text(d) => d,
            _ => Seq::empty(),
        }
    }
}

/// The thinking the browser was streamed: its thinking events' data,
/// joined.
pub open spec fn streamed_thinking(ws: Seq<WsEventView>) -> Seq<char>
    decreases ws.len(),
{
    if ws.len() == 0 {
        Seq::empty()
    } else {
        streamed_thinking(ws.drop_last()) + match ws.last() {
            WsEventView::Thinking(d) => d,
            _ => Seq::empty(),
        }
    }
}

/// The tool uses the browser was sent, in order, as message parts.
pub open spec fn streamed_tool_uses(ws: Seq<WsEventView>) -> Seq<PartView>
    decreases ws.len(),
{
    if ws.len() == 0 {
        Seq::empty()
    } else {
        let prev = streamed_tool_uses(ws.drop_last());
        match ws.last() {
            WsEventView::ToolUse(i, n, x) => prev.push(PartView::ToolUse(i, n, x)),
            _ => prev,
        }
    }
}

/// The tool results the browser was sent, in order, as message parts.
pub open spec fn streamed_tool_results(ws: Seq<WsEventView>) -> Seq<PartView>
    decreases ws.len(),
{
    if ws.len() == 0 {
        Seq::empty()
    } else {
        let prev = streamed_tool_results(ws.drop_last());
        match ws.last() {
            WsEventView::ToolResult(i, n, c) => prev.push(PartView::ToolResult(i, n, c)),
            _ => prev,
        }
    }
}

/// What an accumulator gathers from an empty start over a run of events is
/// exactly what the browser was streamed over the same run: the same text,
/// the same thinking, and the same tool uses and tool results in the same
/// order.
pub proof fn law_stored_reply_matches_stream(events: Seq<PiEvent>)
    ensures
        absorb_all(empty_accumulator(), events).text == streamed_text(forwarded(events)),
        absorb_all(empty_accumulator(), events).thinking == streamed_thinking(forwarded(events)),
        absorb_all(empty_accumulator(), events).tool_calls == streamed_tool_uses(
            forwarded(events),
        ),
        absorb_all(empty_accumulator(), events).tool_results == streamed_tool_results(
            forwarded(events),
        ),
    decreases events.len(),
{
    if events.len() > 0 {
        let prev = events.drop_last();
        law_stored_reply_matches_stream(prev);
        let e = events.last();
        let ws = forwarded(prev);
        match ws_event_of(e) {
            Some(w) => {
                assert(ws.push(w).drop_last() =~= ws);
            },
            None => {},
        }
        match e {
            PiEvent::MessageUpdate { assistant_message_event } => match assistant_message_event {
                AssistantMessageEvent::TextDelta { delta } => {},
                AssistantMessageEvent::ThinkingDelta { delta } => {},
                AssistantMessageEvent::ToolcallEnd { tool_call } => {},
                AssistantMessageEvent::Other => {},
            },
            _ => {},
        }
        let a = absorb_all(empty_accumulator(), prev);
        let b = absorb_all(empty_accumulator(), events);
        assert(b.text =~= streamed_text(forwarded(events)));
        assert(b.thinking =~= streamed_thinking(forwarded(events)));
    }
}

/// Once a message has been taken out, taking again before any new event
/// gives nothing: an empty accumulator yields no message.
pub proof fn law_nothing_to_take_twice()
    ensures
        message_of(empty_accumulator()).len() == 0,
{
}

} // verus!
