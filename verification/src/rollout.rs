//! The parts of a recorded conversation (a rollout) that the Markdown export
//! reads, the bounded buffer of recent messages, and the rendering of tool
//! activity.
use vstd::prelude::*;
use crate::markdown::{
    escape_inline, json_or_text_spec, maybe_redact_chars, maybe_redact_spec, push_escaped_inline,
    push_json_or_text,
};
use crate::text::{append_chars, append_str, chars_of, string_of};

verus! {

/// Session metadata, as text.
pub struct SessionMeta {
    pub id: String,
    pub timestamp: String,
    pub cwd: String,
    pub originator: String,
    pub cli_version: String,
    /// Debug rendering of the session source.
    pub source: String,
    pub model_provider: Option<String>,
}

/// A turn context, as text.
pub struct TurnContext {
    pub model: String,
    /// Debug rendering of the approval policy.
    pub approval_policy: String,
    /// Debug rendering of the sandbox policy.
    pub sandbox_policy: String,
    pub cwd: String,
    /// The whole context as pretty JSON, or the serializer's error message.
    pub json: Result<String, String>,
}

/// Cumulative token counts.
pub struct TokenUsage {
    pub total_tokens: i64,
    pub input_tokens: i64,
    pub output_tokens: i64,
    pub reasoning_output_tokens: i64,
}

/// A compaction marker.
pub struct Compacted {
    pub message: String,
    pub has_replacement_history: bool,
}

/// A message typed by the user.
pub struct UserMessage {
    pub message: String,
    pub images: Option<Vec<String>>,
    /// Display form of each attached local image path.
    pub local_images: Vec<String>,
    /// The text elements as pretty JSON (or the serializer's error message);
    /// `None` when there are none.
    pub text_elements_json: Option<Result<String, String>>,
}

/// The events of a rollout that the export distinguishes.
pub enum EventMsg {
    UserMessage(UserMessage),
    AgentMessage(String),
    AgentReasoning(String),
    AgentReasoningRawContent,
    AgentReasoningRawContentDelta,
    TokenCount(Option<TokenUsage>),
    /// Display form of the attached image's path.
    ViewImageToolCall(String),
    Other,
}

/// Model-visible items (tool calls and their outputs among them).
#[allow(inconsistent_fields)]
pub enum ResponseItem {
    Message,
    Reasoning,
    FunctionCall { name: String, arguments: String, call_id: String },
    /// `output` is the serialized output, `None` when it did not serialize.
    FunctionCallOutput { call_id: String, output: Option<String> },
    /// `status` is the Debug rendering of the call status; `action_json` is
    /// the action as pretty JSON.
    LocalShellCall { status: String, call_id: Option<String>, action_json: String },
    CustomToolCall { name: String, input: String, call_id: String, status: Option<String> },
    CustomToolCallOutput { call_id: String, output: String },
    /// `action_json` is the action as pretty JSON, when there is an action.
    WebSearchCall { status: Option<String>, action_json: Option<String> },
    GhostSnapshot,
    Compaction,
    Other,
}

/// One recorded item.
pub enum RolloutItem {
    SessionMeta(SessionMeta),
    TurnContext(TurnContext),
    Compacted(Compacted),
    EventMsg(EventMsg),
    ResponseItem(ResponseItem),
}

/// One line of a rollout file.
pub struct RolloutLine {
    pub timestamp: String,
    pub item: RolloutItem,
}

// ---------------------------------------------------------------------------
// Recent messages.
// ---------------------------------------------------------------------------

/// Who wrote a recent message.
#[derive(Clone, Copy, PartialEq, Eq, Structural)]
pub enum RecentRole {
    User,
    Assistant,
}

/// The name a role is shown with.
pub open spec fn role_name(role: RecentRole) -> Seq<char> {
    match role {
        RecentRole::User => "user"@,
        RecentRole::Assistant => "assistant"@,
    }
}

/// A message kept for the "recent reviewed" block of compaction markers.
pub struct RecentMessage {
    pub role: RecentRole,
    pub timestamp: String,
    pub text: String,
}

/// What a recent message says: its role, timestamp and text.
pub open spec fn recent_view(m: RecentMessage) -> (RecentRole, Seq<char>, Seq<char>) {
    (m.role, m.timestamp@, m.text@)
}

/// What the messages of a buffer say.
pub open spec fn recent_views(s: Seq<RecentMessage>) -> Seq<(RecentRole, Seq<char>, Seq<char>)> {
    s.map_values(|m: RecentMessage| recent_view(m))
}

/// The most messages the buffer keeps.
pub const RECENT_HARD_MAX: usize = 128;

/// The buffer after a push: the last `RECENT_HARD_MAX` messages.
pub open spec fn bounded_recent<A>(s: Seq<A>) -> Seq<A> {
    if s.len() > RECENT_HARD_MAX {
        s.skip(s.len() - RECENT_HARD_MAX)
    } else {
        s
    }
}

/// Appends a message, dropping the oldest ones beyond `RECENT_HARD_MAX`.
pub fn push_recent(recent: &mut Vec<RecentMessage>, role: RecentRole, timestamp: String, text: String)
    ensures
        final(recent)@ == bounded_recent(
            old(recent)@.push(RecentMessage { role, timestamp, text }),
        ),
        final(recent)@.len() <= RECENT_HARD_MAX,
        recent_views(final(recent)@) == bounded_recent(
            recent_views(old(recent)@).push((role, timestamp@, text@)),
        ),
{
    let ghost m = RecentMessage { role, timestamp, text };
    recent.push(RecentMessage { role, timestamp, text });
    if recent.len() > RECENT_HARD_MAX {
        let drain = recent.len() - RECENT_HARD_MAX;
        let kept = recent.split_off(drain);
        *recent = kept;
    }
    proof {
        let s = old(recent)@.push(m);
        assert(recent_views(s) =~= recent_views(old(recent)@).push(recent_view(m)));
        assert(recent_views(bounded_recent(s)) =~= bounded_recent(recent_views(s)));
    }
}

// ---------------------------------------------------------------------------
// Tool activity.
// ---------------------------------------------------------------------------

/// A JSON fence around a pretty JSON text, redacted when asked.
pub open spec fn json_fence(pretty: Seq<char>, redact: bool) -> Seq<char> {
    "```json\n"@ + maybe_redact_spec(pretty, redact) + "\n```"@
}

/// An optional text, or `unknown`.
pub open spec fn or_unknown(s: Option<String>) -> Seq<char> {
    match s {
        Some(t) => t@,
        None => "unknown"@,
    }
}

/// The summary line and optional body of a response item, `None` for items
/// that the export leaves out.
pub open spec fn response_parts(item: ResponseItem, redact: bool) -> Option<(Seq<char>, Option<Seq<char>>)> {
    match item {
        ResponseItem::Message => None,
        ResponseItem::Reasoning => None,
        ResponseItem::Other => None,
        ResponseItem::FunctionCall { name, arguments, call_id } => Some((
            "tool call: "@ + name@ + " ("@ + call_id@ + ")"@,
            Some(json_or_text_spec(arguments@, redact)),
        )),
        ResponseItem::FunctionCallOutput { call_id, output } => Some((
            "tool output ("@ + call_id@ + ")"@,
            Some(json_or_text_spec(
                match output {
                    Some(o) => o@,
                    None => "<unserializable tool output>"@,
                },
                redact,
            )),
        )),
        ResponseItem::LocalShellCall { status, call_id, action_json } => Some((
            "local shell: "@ + status@ + " ("@ + or_unknown(call_id) + ")"@,
            Some(json_fence(action_json@, redact)),
        )),
        ResponseItem::CustomToolCall { name, input, call_id, status } => Some((
            "custom tool call: "@ + name@ + " ("@ + call_id@ + ", "@ + or_unknown(status) + ")"@,
            Some(json_or_text_spec(input@, redact)),
        )),
        ResponseItem::CustomToolCallOutput { call_id, output } => Some((
            "custom tool output ("@ + call_id@ + ")"@,
            Some(json_or_text_spec(output@, redact)),
        )),
        ResponseItem::WebSearchCall { status, action_json } => Some((
            "web search ("@ + or_unknown(status) + ")"@,
            match action_json {
                Some(a) => Some(json_fence(a@, redact)),
                None => None,
            },
        )),
        ResponseItem::GhostSnapshot => Some(("ghost snapshot"@, None)),
        ResponseItem::Compaction => Some(("compaction artifact"@, None)),
    }
}

/// A collapsed `<details>` block for a response item, or `None` for items
/// that the export leaves out.
pub open spec fn response_item_spec(timestamp: Seq<char>, item: ResponseItem, redact: bool) -> Option<Seq<char>> {
    match response_parts(item, redact) {
        None => None,
        Some((summary, body)) => Some(
            "<details>\n<summary>"@ + escape_inline(summary) + " ("@ + escape_inline(timestamp)
                + ")</summary>\n\n"@ + (match body {
                Some(b) => b + seq!['\n'],
                None => seq![],
            }) + "\n</details>\n\n"@,
        ),
    }
}

fn push_json_fence(out: &mut Vec<char>, pretty: &str, redact: bool)
    ensures
        final(out)@ == old(out)@ + json_fence(pretty@, redact),
{
    append_str(out, "```json\n");
    let p = chars_of(pretty);
    let r = maybe_redact_chars(p.as_slice(), redact);
    append_chars(out, r.as_slice());
    append_str(out, "\n```");
}

fn push_json_or_text_str(out: &mut Vec<char>, input: &str, redact: bool)
    ensures
        final(out)@ == old(out)@ + json_or_text_spec(input@, redact),
{
    let c = chars_of(input);
    push_json_or_text(out, c.as_slice(), redact);
}

fn push_or_unknown(out: &mut Vec<char>, s: &Option<String>)
    ensures
        final(out)@ == old(out)@ + or_unknown(*s),
{
    match s {
        Some(t) => append_str(out, t.as_str()),
        None => append_str(out, "unknown"),
    }
}

/// Appends `response_item_spec` when the item is shown; says whether it was.
pub fn push_response_item(out: &mut Vec<char>, timestamp: &str, item: &ResponseItem, redact: bool) -> (shown: bool)
    ensures
        match response_item_spec(timestamp@, *item, redact) {
            Some(t) => shown && final(out)@ == old(out)@ + t,
            None => !shown && final(out)@ == old(out)@,
        },
{
    let mut summary: Vec<char> = Vec::new();
    let mut body: Vec<char> = Vec::new();
    let has_body: bool;
    match item {
        ResponseItem::Message | ResponseItem::Reasoning | ResponseItem::Other => {
            return false;
        },
        ResponseItem::FunctionCall { name, arguments, call_id } => {
            append_str(&mut summary, "tool call: ");
            append_str(&mut summary, name.as_str());
            append_str(&mut summary, " (");
            append_str(&mut summary, call_id.as_str());
            append_str(&mut summary, ")");
            push_json_or_text_str(&mut body, arguments.as_str(), redact);
            has_body = true;
        },
        ResponseItem::FunctionCallOutput { call_id, output } => {
            append_str(&mut summary, "tool output (");
            append_str(&mut summary, call_id.as_str());
            append_str(&mut summary, ")");
            match output {
                Some(o) => push_json_or_text_str(&mut body, o.as_str(), redact),
                None => push_json_or_text_str(&mut body, "<unserializable tool output>", redact),
            }
            has_body = true;
        },
        ResponseItem::LocalShellCall { status, call_id, action_json } => {
            append_str(&mut summary, "local shell: ");
            append_str(&mut summary, status.as_str());
            append_str(&mut summary, " (");
            push_or_unknown(&mut summary, call_id);
            append_str(&mut summary, ")");
            push_json_fence(&mut body, action_json.as_str(), redact);
            has_body = true;
        },
        ResponseItem::CustomToolCall { name, input, call_id, status } => {
            append_str(&mut summary, "custom tool call: ");
            append_str(&mut summary, name.as_str());
            append_str(&mut summary, " (");
            append_str(&mut summary, call_id.as_str());
            append_str(&mut summary, ", ");
            push_or_unknown(&mut summary, status);
            append_str(&mut summary, ")");
            push_json_or_text_str(&mut body, input.as_str(), redact);
            has_body = true;
        },
        ResponseItem::CustomToolCallOutput { call_id, output } => {
            append_str(&mut summary, "custom tool output (");
            append_str(&mut summary, call_id.as_str());
            append_str(&mut summary, ")");
            push_json_or_text_str(&mut body, output.as_str(), redact);
            has_body = true;
        },
        ResponseItem::WebSearchCall { status, action_json } => {
            append_str(&mut summary, "web search (");
            push_or_unknown(&mut summary, status);
            append_str(&mut summary, ")");
            match action_json {
                Some(a) => {
                    push_json_fence(&mut body, a.as_str(), redact);
                    has_body = true;
                },
                None => {
                    has_body = false;
                },
            }
        },
        ResponseItem::GhostSnapshot => {
            append_str(&mut summary, "ghost snapshot");
            has_body = false;
        },
        ResponseItem::Compaction => {
            append_str(&mut summary, "compaction artifact");
            has_body = false;
        },
    }
    proof {
        let parts = response_parts(*item, redact);
        assert(parts is Some);
        let (sm, bd) = parts->0;
        assert(sm =~= summary@);
        assert(has_body == bd is Some);
        assert(has_body ==> bd->0 =~= body@);
    }
    append_str(out, "<details>\n<summary>");
    push_escaped_inline(out, summary.as_slice());
    append_str(out, " (");
    let ts = chars_of(timestamp);
    push_escaped_inline(out, ts.as_slice());
    append_str(out, ")</summary>\n\n");
    if has_body {
        append_chars(out, body.as_slice());
        out.push('\n');
    }
    append_str(out, "\n</details>\n\n");
    true
}

/// Renders a response item as a collapsed `<details>` block, or `None` for
/// plain messages, reasoning and unknown items.
pub fn render_response_item(timestamp: &str, item: &ResponseItem, redact: bool) -> (r: Option<String>)
    ensures
        match response_item_spec(timestamp@, *item, redact) {
            Some(t) => r matches Some(s) && s@ == t,
            None => r is None,
        },
{
    let mut out: Vec<char> = Vec::new();
    if push_response_item(&mut out, timestamp, item, redact) {
        assert(out@ =~= Seq::<char>::empty() + out@);
        Some(string_of(out.as_slice()))
    } else {
        None
    }
}

} // verus!
