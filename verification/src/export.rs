//! Markdown export of a recorded conversation: the header, the session,
//! turn-context and token-usage summaries, and the transcript with its
//! compaction markers and their "recent reviewed" messages.
use vstd::prelude::*;
use crate::markdown::{
    blockquote_spec, escape_inline, maybe_redact_chars, maybe_redact_spec, push_blockquote,
    push_escaped_inline, ExportMarkdownOptions,
};
use crate::rollout::{
    bounded_recent, push_recent, push_response_item, recent_view, recent_views, response_item_spec,
    role_name,
    Compacted, EventMsg, RecentMessage, RecentRole, RolloutItem, RolloutLine, SessionMeta,
    TokenUsage, TurnContext, UserMessage,
};
use crate::text::{
    append_chars, append_str, chars_of, dec_int, dec_nat, is_blank, is_blank_chars, lines,
    push_decimal, push_decimal_i64, slice_chars, string_of, trim, trim_chars,
};

verus! {

/// Why an export failed.
pub enum ExportError {
    /// No line of the rollout could be read.
    NoReadableItems,
    /// A JSON block could not be serialized; holds the serializer's message.
    Serialize(String),
}

impl ExportError {
    /// The error's message.
    pub fn message(&self) -> (r: String)
        ensures
            match self {
                ExportError::NoReadableItems => r@ == "rollout file contained no readable items"@,
                ExportError::Serialize(e) => r@ == "failed to serialize json: "@ + e@,
            },
    {
        let mut out: Vec<char> = Vec::new();
        match self {
            ExportError::NoReadableItems => append_str(&mut out, "rollout file contained no readable items"),
            ExportError::Serialize(e) => {
                append_str(&mut out, "failed to serialize json: ");
                append_str(&mut out, e.as_str());
            },
        }
        string_of(out.as_slice())
    }
}

// ---------------------------------------------------------------------------
// Specification of the document.
// ---------------------------------------------------------------------------

/// A newline when the text does not already end with one.
pub open spec fn newline_unless_ended(t: Seq<char>) -> Seq<char> {
    if t.len() > 0 && t.last() == '\n' {
        seq![]
    } else {
        seq!['\n']
    }
}

/// `- Label: `value`` with the value escaped, and a newline.
pub open spec fn code_item(label: Seq<char>, value: Seq<char>) -> Seq<char> {
    label + escape_inline(value) + "`\n"@
}

/// The document header.
pub open spec fn header_spec(exported_at: Seq<char>, rollout: Seq<char>, parse_errors: nat) -> Seq<char> {
    "# Codex Conversation Export\n\n"@ + "- Exported: "@ + exported_at + seq!['\n'] + code_item(
        "- Rollout: `"@,
        rollout,
    ) + (if parse_errors > 0 {
        "- Parse errors: "@ + dec_nat(parse_errors) + seq!['\n']
    } else {
        seq![]
    }) + seq!['\n']
}

/// The session metadata of the first `SessionMeta` line, if any.
pub open spec fn first_meta(ls: Seq<RolloutLine>) -> Option<SessionMeta>
    decreases ls.len(),
{
    if ls.len() == 0 {
        None
    } else {
        match first_meta(ls.drop_last()) {
            Some(m) => Some(m),
            None => match ls.last().item {
                RolloutItem::SessionMeta(m) => Some(m),
                _ => None,
            },
        }
    }
}

/// The turn context of the last `TurnContext` line, if any.
pub open spec fn last_turn_context(ls: Seq<RolloutLine>) -> Option<TurnContext>
    decreases ls.len(),
{
    if ls.len() == 0 {
        None
    } else {
        match ls.last().item {
            RolloutItem::TurnContext(c) => Some(c),
            _ => last_turn_context(ls.drop_last()),
        }
    }
}

/// The usage info of the last token-count event (which may carry none).
pub open spec fn last_token_usage(ls: Seq<RolloutLine>) -> Option<TokenUsage>
    decreases ls.len(),
{
    if ls.len() == 0 {
        None
    } else {
        match ls.last().item {
            RolloutItem::EventMsg(EventMsg::TokenCount(info)) => info,
            _ => last_token_usage(ls.drop_last()),
        }
    }
}

/// A `code_item` when the value is not empty.
pub open spec fn optional_code_item(label: Seq<char>, value: Seq<char>) -> Seq<char> {
    if value.len() > 0 {
        code_item(label, value)
    } else {
        seq![]
    }
}

/// The provider line, when there is a non-empty provider.
pub open spec fn provider_item(p: Option<String>) -> Seq<char> {
    match p {
        Some(p) => optional_code_item("- Provider: `"@, p@),
        None => seq![],
    }
}

/// The "Session" section.
pub open spec fn session_section(m: SessionMeta) -> Seq<char> {
    "## Session\n\n"@ + "- Thread: `"@ + m.id@ + "`\n"@ + optional_code_item("- Started: `"@, m.timestamp@)
        + optional_code_item("- CWD: `"@, m.cwd@) + optional_code_item("- Originator: `"@, m.originator@)
        + optional_code_item("- CLI: `"@, m.cli_version@) + code_item("- Source: `"@, m.source@)
        + provider_item(m.model_provider) + seq!['\n']
}

/// The "Turn Context (Latest)" section.
pub open spec fn turn_context_section(c: TurnContext) -> Seq<char> {
    "## Turn Context (Latest)\n\n"@ + code_item("- Model: `"@, c.model@) + code_item(
        "- Approval policy: `"@,
        c.approval_policy@,
    ) + code_item("- Sandbox policy: `"@, c.sandbox_policy@) + code_item("- CWD: `"@, c.cwd@)
        + seq!['\n']
}

/// `- Label: `n`` and a newline.
pub open spec fn count_item(label: Seq<char>, n: i64) -> Seq<char> {
    label + dec_int(n as int) + "`\n"@
}

/// The "Token Usage (Latest)" section.
pub open spec fn token_usage_section(u: TokenUsage) -> Seq<char> {
    "## Token Usage (Latest)\n\n"@ + count_item("- Total tokens: `"@, u.total_tokens) + count_item(
        "- Input tokens: `"@,
        u.input_tokens,
    ) + count_item("- Output tokens: `"@, u.output_tokens) + (if u.reasoning_output_tokens > 0 {
        count_item("- Reasoning tokens: `"@, u.reasoning_output_tokens)
    } else {
        seq![]
    }) + seq!['\n']
}

/// Everything before the transcript.
pub open spec fn preamble_spec(
    ls: Seq<RolloutLine>,
    parse_errors: nat,
    exported_at: Seq<char>,
    rollout: Seq<char>,
    o: ExportMarkdownOptions,
) -> Seq<char> {
    header_spec(exported_at, rollout, parse_errors) + meta_part(ls) + turn_context_part(ls, o)
        + token_usage_part(ls, o) + "## Transcript\n\n"@
}

/// The session section, when there is session metadata.
pub open spec fn meta_part(ls: Seq<RolloutLine>) -> Seq<char> {
    match first_meta(ls) {
        Some(m) => session_section(m),
        None => seq![],
    }
}

/// The turn-context section, when asked for and there is a turn context.
pub open spec fn turn_context_part(ls: Seq<RolloutLine>, o: ExportMarkdownOptions) -> Seq<char> {
    match last_turn_context(ls) {
        Some(c) => if o.include_turn_context {
            turn_context_section(c)
        } else {
            seq![]
        },
        None => seq![],
    }
}

/// The token-usage section, when asked for and there is usage info.
pub open spec fn token_usage_part(ls: Seq<RolloutLine>, o: ExportMarkdownOptions) -> Seq<char> {
    match last_token_usage(ls) {
        Some(u) => if o.include_token_usage {
            token_usage_section(u)
        } else {
            seq![]
        },
        None => seq![],
    }
}

/// A fenced text block inside a collapsed block with the given summary.
pub open spec fn text_details(summary: Seq<char>, t: Seq<char>) -> Seq<char> {
    "<details>\n<summary>"@ + summary + "</summary>\n\n"@ + "```text\n"@ + t
        + newline_unless_ended(t) + "```\n\n</details>\n\n"@
}

/// A fenced JSON block inside a collapsed block.
pub open spec fn json_details(open: Seq<char>, j: Seq<char>) -> Seq<char> {
    open + j + "\n```\n\n</details>\n\n"@
}

/// What a recent message says: role, timestamp, text.
pub type RecentView = (RecentRole, Seq<char>, Seq<char>);

/// The messages a review block shows: the last `n` of the buffer.
pub open spec fn review_window(recent: Seq<RecentView>, n: nat) -> Seq<RecentView> {
    if n >= recent.len() {
        recent
    } else {
        recent.skip(recent.len() - n)
    }
}

/// The entries of a review block.
pub open spec fn review_entries(ms: Seq<RecentView>, redact: bool) -> Seq<char>
    decreases ms.len(),
{
    if ms.len() == 0 {
        seq![]
    } else {
        review_entries(ms.drop_last(), redact) + review_entry(ms.last(), redact)
    }
}

/// One entry of a review block.
pub open spec fn review_entry(m: RecentView, redact: bool) -> Seq<char> {
    "- **"@ + role_name(m.0) + "** ("@ + escape_inline(m.1) + ")\n"@ + blockquote_spec(
        maybe_redact_spec(m.2, redact),
    ) + seq!['\n']
}

/// The "Recent Reviewed" block under a compaction marker.
pub open spec fn review_block(recent: Seq<RecentView>, o: ExportMarkdownOptions) -> Seq<char> {
    if o.recent_review_messages > 0 && recent.len() > 0 {
        "#### Recent Reviewed\n\n"@ + review_entries(
            review_window(recent, o.recent_review_messages as nat),
            o.redact_secrets,
        ) + seq!['\n']
    } else {
        seq![]
    }
}

/// A compaction marker with its summary and review block.
pub open spec fn compaction_text(ts: Seq<char>, c: Compacted, recent: Seq<RecentView>, o: ExportMarkdownOptions) -> Seq<char> {
    "### Compaction ("@ + escape_inline(ts) + ")\n\n"@ + (if !is_blank(c.message@) {
        text_details("Compaction summary"@, maybe_redact_spec(c.message@, o.redact_secrets))
    } else if c.has_replacement_history {
        "_Remote compaction: replacement history recorded in rollout._\n\n"@
    } else {
        "_Compaction recorded (no summary text)._\\\n\n"@
    }) + review_block(recent, o)
}

/// Quoted lines for attachments, each followed by an empty line.
pub open spec fn quoted_attachments(label: Seq<char>, items: Seq<String>) -> Seq<char>
    decreases items.len(),
{
    if items.len() == 0 {
        seq![]
    } else {
        quoted_attachments(label, items.drop_last()) + blockquote_spec(label + items.last()@)
            + seq!['\n']
    }
}

/// A user message; `Err` when its text elements did not serialize.
pub open spec fn user_text(ts: Seq<char>, u: UserMessage, o: ExportMarkdownOptions) -> Result<Seq<char>, Seq<char>> {
    let body = user_body(ts, u, o);
    match u.text_elements_json {
        None => Ok(body),
        Some(Ok(j)) => Ok(
            body + json_details("<details>\n<summary>text elements</summary>\n\n```json\n"@, j@),
        ),
        Some(Err(e)) => Err(e@),
    }
}

/// A user message without its text elements.
pub open spec fn user_body(ts: Seq<char>, u: UserMessage, o: ExportMarkdownOptions) -> Seq<char> {
    let message = maybe_redact_spec(u.message@, o.redact_secrets);
    "### User ("@ + escape_inline(ts) + ")\n\n"@ + (if !is_blank(message) {
        blockquote_spec(message) + seq!['\n']
    } else {
        seq![]
    }) + (match u.images {
        Some(urls) => quoted_attachments("[image url] "@, urls@),
        None => seq![],
    }) + quoted_attachments("[image file] "@, u.local_images@)
}

/// An assistant message.
pub open spec fn assistant_text(ts: Seq<char>, m: Seq<char>, o: ExportMarkdownOptions) -> Seq<char> {
    let message = maybe_redact_spec(m, o.redact_secrets);
    "### Assistant ("@ + escape_inline(ts) + ")\n\n"@ + (if !is_blank(message) {
        message + newline_unless_ended(message) + seq!['\n']
    } else {
        seq![]
    })
}

/// A reasoning summary, when the options include them and it is not blank.
pub open spec fn reasoning_text(ts: Seq<char>, t: Seq<char>, o: ExportMarkdownOptions) -> Seq<char> {
    let text = maybe_redact_spec(t, o.redact_secrets);
    if !o.include_reasoning_summaries || is_blank(text) {
        seq![]
    } else {
        text_details("Reasoning summary ("@ + escape_inline(ts) + ")"@, text)
    }
}

/// The transcript text of one line, given the recent messages so far.
pub open spec fn line_text(l: RolloutLine, recent: Seq<RecentView>, o: ExportMarkdownOptions) -> Result<Seq<char>, Seq<char>> {
    let ts = l.timestamp@;
    match l.item {
        RolloutItem::SessionMeta(_) => Ok(seq![]),
        RolloutItem::TurnContext(c) => if o.include_turn_context {
            match c.json {
                Ok(j) => Ok(
                    json_details(
                        "<details>\n<summary>Turn context ("@ + escape_inline(ts) + ")</summary>\n\n"@
                            + "```json\n"@,
                        j@,
                    ),
                ),
                Err(e) => Err(e@),
            }
        } else {
            Ok(seq![])
        },
        RolloutItem::Compacted(c) => Ok(compaction_text(ts, c, recent, o)),
        RolloutItem::EventMsg(ev) => match ev {
            EventMsg::UserMessage(u) => user_text(ts, u, o),
            EventMsg::AgentMessage(m) => Ok(assistant_text(ts, m@, o)),
            EventMsg::AgentReasoning(t) => Ok(reasoning_text(ts, t@, o)),
            EventMsg::AgentReasoningRawContent => Ok(
                "_Raw reasoning omitted ("@ + escape_inline(ts) + ")_\n\n"@,
            ),
            EventMsg::AgentReasoningRawContentDelta => Ok(
                "_Raw reasoning omitted ("@ + escape_inline(ts) + ")_\n\n"@,
            ),
            EventMsg::TokenCount(_) => Ok(seq![]),
            EventMsg::ViewImageToolCall(p) => Ok(
                "### Image Attached ("@ + escape_inline(ts) + ")\n\n"@ + blockquote_spec(
                    "path: "@ + p@,
                ) + "\n\n"@,
            ),
            EventMsg::Other => Ok(seq![]),
        },
        RolloutItem::ResponseItem(item) => if o.include_tool_io {
            match response_item_spec(ts, item, o.redact_secrets) {
                Some(t) => Ok(t),
                None => Ok(seq![]),
            }
        } else {
            Ok(seq![])
        },
    }
}

/// The recent messages after one line: user messages are kept as typed,
/// assistant messages as exported.
pub open spec fn line_recent(l: RolloutLine, recent: Seq<RecentView>, o: ExportMarkdownOptions) -> Seq<RecentView> {
    match l.item {
        RolloutItem::EventMsg(EventMsg::UserMessage(u)) => bounded_recent(
            recent.push((RecentRole::User, l.timestamp@, u.message@)),
        ),
        RolloutItem::EventMsg(EventMsg::AgentMessage(m)) => bounded_recent(
            recent.push((RecentRole::Assistant, l.timestamp@, maybe_redact_spec(m@, o.redact_secrets))),
        ),
        _ => recent,
    }
}

/// `a` prepended to a successful rendering; errors pass through.
pub open spec fn prepend(a: Seq<char>, r: Result<Seq<char>, Seq<char>>) -> Result<Seq<char>, Seq<char>> {
    match r {
        Ok(t) => Ok(a + t),
        Err(e) => Err(e),
    }
}

/// The transcript of the lines, given the recent messages before them; the
/// first serialization error stops it.
pub open spec fn transcript_spec(ls: Seq<RolloutLine>, recent: Seq<RecentView>, o: ExportMarkdownOptions) -> Result<Seq<char>, Seq<char>>
    decreases ls.len(),
{
    if ls.len() == 0 {
        Ok(seq![])
    } else {
        match line_text(ls[0], recent, o) {
            Err(e) => Err(e),
            Ok(t) => prepend(t, transcript_spec(ls.drop_first(), line_recent(ls[0], recent, o), o)),
        }
    }
}

/// The whole document for readable lines.
pub open spec fn export_spec(
    ls: Seq<RolloutLine>,
    parse_errors: nat,
    exported_at: Seq<char>,
    rollout: Seq<char>,
    o: ExportMarkdownOptions,
) -> Result<Seq<char>, Seq<char>> {
    prepend(
        preamble_spec(ls, parse_errors, exported_at, rollout, o),
        transcript_spec(ls, seq![], o),
    )
}

// ---------------------------------------------------------------------------
// Rendering.
// ---------------------------------------------------------------------------

fn push_escaped_str(out: &mut Vec<char>, s: &str)
    ensures
        final(out)@ == old(out)@ + escape_inline(s@),
{
    let c = chars_of(s);
    push_escaped_inline(out, c.as_slice());
}

fn push_code_item(out: &mut Vec<char>, label: &str, value: &str)
    ensures
        final(out)@ == old(out)@ + code_item(label@, value@),
{
    append_str(out, label);
    push_escaped_str(out, value);
    append_str(out, "`\n");
    assert(out@ =~= old(out)@ + code_item(label@, value@));
}

fn push_header(out: &mut Vec<char>, exported_at: &str, rollout: &str, parse_errors: usize)
    ensures
        final(out)@ == old(out)@ + header_spec(exported_at@, rollout@, parse_errors as nat),
{
    append_str(out, "# Codex Conversation Export\n\n");
    append_str(out, "- Exported: ");
    append_str(out, exported_at);
    out.push('\n');
    push_code_item(out, "- Rollout: `", rollout);
    if parse_errors > 0 {
        append_str(out, "- Parse errors: ");
        push_decimal(out, parse_errors as u64);
        out.push('\n');
    }
    out.push('\n');
    assert(out@ =~= old(out)@ + header_spec(exported_at@, rollout@, parse_errors as nat));
}

fn find_first_meta(ls: &Vec<RolloutLine>) -> (r: Option<usize>)
    ensures
        match r {
            Some(i) => i < ls@.len() && (ls@[i as int].item matches RolloutItem::SessionMeta(m)
                && first_meta(ls@) == Some(m)),
            None => first_meta(ls@) is None,
        },
{
    let mut i: usize = 0;
    while i < ls.len()
        invariant
            i <= ls@.len(),
            first_meta(ls@.take(i as int)) is None,
        decreases ls@.len() - i,
    {
        assert(ls@.take(i + 1).drop_last() =~= ls@.take(i as int));
        if let RolloutItem::SessionMeta(_) = &ls[i].item {
            proof {
                lemma_first_meta_prefix(ls@, (i + 1) as nat);
            }
            return Some(i);
        }
        i = i + 1;
    }
    assert(ls@.take(ls@.len() as int) =~= ls@);
    None
}

proof fn lemma_first_meta_prefix(ls: Seq<RolloutLine>, k: nat)
    requires
        k <= ls.len(),
        first_meta(ls.take(k as int)) is Some,
    ensures
        first_meta(ls) == first_meta(ls.take(k as int)),
    decreases ls.len() - k,
{
    if k < ls.len() {
        assert(ls.take(k as int + 1).drop_last() =~= ls.take(k as int));
        lemma_first_meta_prefix(ls, k + 1);
    } else {
        assert(ls.take(k as int) =~= ls);
    }
}

fn find_last_turn_context(ls: &Vec<RolloutLine>) -> (r: Option<usize>)
    ensures
        match r {
            Some(i) => i < ls@.len() && (ls@[i as int].item matches RolloutItem::TurnContext(c)
                && last_turn_context(ls@) == Some(c)),
            None => last_turn_context(ls@) is None,
        },
{
    let mut found: Option<usize> = None;
    let mut i: usize = 0;
    while i < ls.len()
        invariant
            i <= ls@.len(),
            match found {
                Some(j) => j < i && (ls@[j as int].item matches RolloutItem::TurnContext(c)
                    && last_turn_context(ls@.take(i as int)) == Some(c)),
                None => last_turn_context(ls@.take(i as int)) is None,
            },
        decreases ls@.len() - i,
    {
        assert(ls@.take(i + 1).drop_last() =~= ls@.take(i as int));
        if let RolloutItem::TurnContext(_) = &ls[i].item {
            found = Some(i);
        }
        i = i + 1;
    }
    assert(ls@.take(ls@.len() as int) =~= ls@);
    found
}

fn find_last_token_count(ls: &Vec<RolloutLine>) -> (r: Option<usize>)
    ensures
        match r {
            Some(i) => i < ls@.len() && (ls@[i as int].item matches RolloutItem::EventMsg(
                EventMsg::TokenCount(info),
            ) && last_token_usage(ls@) == info),
            None => last_token_usage(ls@) is None,
        },
{
    let mut found: Option<usize> = None;
    let mut i: usize = 0;
    while i < ls.len()
        invariant
            i <= ls@.len(),
            match found {
                Some(j) => j < i && (ls@[j as int].item matches RolloutItem::EventMsg(
                    EventMsg::TokenCount(info),
                ) && last_token_usage(ls@.take(i as int)) == info),
                None => last_token_usage(ls@.take(i as int)) is None,
            },
        decreases ls@.len() - i,
    {
        assert(ls@.take(i + 1).drop_last() =~= ls@.take(i as int));
        if let RolloutItem::EventMsg(EventMsg::TokenCount(_)) = &ls[i].item {
            found = Some(i);
        }
        i = i + 1;
    }
    assert(ls@.take(ls@.len() as int) =~= ls@);
    found
}

fn push_optional_code_item(out: &mut Vec<char>, label: &str, value: &str)
    ensures
        final(out)@ == old(out)@ + optional_code_item(label@, value@),
{
    if !value.is_empty() {
        push_code_item(out, label, value);
    } else {
        assert(out@ =~= old(out)@ + optional_code_item(label@, value@));
    }
}

fn push_session_section(out: &mut Vec<char>, m: &SessionMeta)
    ensures
        final(out)@ == old(out)@ + session_section(*m),
{
    let ghost o0 = out@;
    append_str(out, "## Session\n\n");
    append_str(out, "- Thread: `");
    append_str(out, m.id.as_str());
    append_str(out, "`\n");
    let ghost o1 = out@;
    push_optional_code_item(out, "- Started: `", m.timestamp.as_str());
    push_optional_code_item(out, "- CWD: `", m.cwd.as_str());
    push_optional_code_item(out, "- Originator: `", m.originator.as_str());
    push_optional_code_item(out, "- CLI: `", m.cli_version.as_str());
    let ghost o2 = out@;
    push_code_item(out, "- Source: `", m.source.as_str());
    let ghost o3 = out@;
    match &m.model_provider {
        Some(p) => push_optional_code_item(out, "- Provider: `", p.as_str()),
        None => {},
    }
    assert(out@ =~= o3 + provider_item(m.model_provider));
    out.push('\n');
    assert(out@ =~= old(out)@ + session_section(*m));
}

fn push_turn_context_section(out: &mut Vec<char>, c: &TurnContext)
    ensures
        final(out)@ == old(out)@ + turn_context_section(*c),
{
    append_str(out, "## Turn Context (Latest)\n\n");
    push_code_item(out, "- Model: `", c.model.as_str());
    push_code_item(out, "- Approval policy: `", c.approval_policy.as_str());
    push_code_item(out, "- Sandbox policy: `", c.sandbox_policy.as_str());
    push_code_item(out, "- CWD: `", c.cwd.as_str());
    out.push('\n');
    assert(out@ =~= old(out)@ + turn_context_section(*c));
}

fn push_count_item(out: &mut Vec<char>, label: &str, n: i64)
    ensures
        final(out)@ == old(out)@ + count_item(label@, n),
{
    append_str(out, label);
    push_decimal_i64(out, n);
    append_str(out, "`\n");
    assert(out@ =~= old(out)@ + count_item(label@, n));
}

fn push_token_usage_section(out: &mut Vec<char>, u: &TokenUsage)
    ensures
        final(out)@ == old(out)@ + token_usage_section(*u),
{
    append_str(out, "## Token Usage (Latest)\n\n");
    push_count_item(out, "- Total tokens: `", u.total_tokens);
    push_count_item(out, "- Input tokens: `", u.input_tokens);
    push_count_item(out, "- Output tokens: `", u.output_tokens);
    if u.reasoning_output_tokens > 0 {
        push_count_item(out, "- Reasoning tokens: `", u.reasoning_output_tokens);
    }
    out.push('\n');
    assert(out@ =~= old(out)@ + token_usage_section(*u));
}

/// Appends everything before the transcript.
fn push_preamble(
    out: &mut Vec<char>,
    ls: &Vec<RolloutLine>,
    parse_errors: usize,
    exported_at: &str,
    rollout: &str,
    o: &ExportMarkdownOptions,
)
    ensures
        final(out)@ == old(out)@ + preamble_spec(ls@, parse_errors as nat, exported_at@, rollout@, *o),
{
    push_header(out, exported_at, rollout, parse_errors);
    let ghost after_header = out@;
    match find_first_meta(ls) {
        Some(i) => {
            if let RolloutItem::SessionMeta(m) = &ls[i].item {
                push_session_section(out, m);
            }
        },
        None => {},
    }
    let ghost after_meta = out@;
    assert(after_meta =~= after_header + meta_part(ls@));
    match find_last_turn_context(ls) {
        Some(i) => {
            if let RolloutItem::TurnContext(c) = &ls[i].item {
                if o.include_turn_context {
                    push_turn_context_section(out, c);
                }
            }
        },
        None => {},
    }
    let ghost after_ctx = out@;
    assert(after_ctx =~= after_meta + turn_context_part(ls@, *o));
    match find_last_token_count(ls) {
        Some(i) => {
            if let RolloutItem::EventMsg(EventMsg::TokenCount(info)) = &ls[i].item {
                match info {
                    Some(u) => {
                        if o.include_token_usage {
                            push_token_usage_section(out, u);
                        }
                    },
                    None => {},
                }
            }
        },
        None => {},
    }
    let ghost after_usage = out@;
    assert(after_usage =~= after_ctx + token_usage_part(ls@, *o));
    append_str(out, "## Transcript\n\n");
    assert(out@ =~= old(out)@ + preamble_spec(ls@, parse_errors as nat, exported_at@, rollout@, *o));
}

fn push_text_details(out: &mut Vec<char>, summary: &[char], t: &[char])
    ensures
        final(out)@ == old(out)@ + text_details(summary@, t@),
{
    append_str(out, "<details>\n<summary>");
    append_chars(out, summary);
    append_str(out, "</summary>\n\n");
    append_str(out, "```text\n");
    append_chars(out, t);
    if !(t.len() > 0 && t[t.len() - 1] == '\n') {
        out.push('\n');
    }
    append_str(out, "```\n\n</details>\n\n");
    assert(out@ =~= old(out)@ + text_details(summary@, t@));
}

fn push_review_entry(out: &mut Vec<char>, m: &RecentMessage, redact: bool)
    ensures
        final(out)@ == old(out)@ + review_entry(recent_view(*m), redact),
{
    append_str(out, "- **");
    match m.role {
        RecentRole::User => append_str(out, "user"),
        RecentRole::Assistant => append_str(out, "assistant"),
    }
    append_str(out, "** (");
    push_escaped_str(out, m.timestamp.as_str());
    append_str(out, ")\n");
    let tc = chars_of(m.text.as_str());
    let red = maybe_redact_chars(tc.as_slice(), redact);
    push_blockquote(out, red.as_slice());
    out.push('\n');
    assert(out@ =~= old(out)@ + review_entry(recent_view(*m), redact));
}

fn push_review_block(out: &mut Vec<char>, recent: &Vec<RecentMessage>, o: &ExportMarkdownOptions)
    ensures
        final(out)@ == old(out)@ + review_block(recent_views(recent@), *o),
{
    let ghost views = recent_views(recent@);
    let n = o.recent_review_messages;
    if !(n > 0 && recent.len() > 0) {
        assert(out@ =~= old(out)@ + review_block(views, *o));
        return;
    }
    append_str(out, "#### Recent Reviewed\n\n");
    let ghost o1 = out@;
    let start: usize = if n >= recent.len() {
        0
    } else {
        recent.len() - n
    };
    assert(review_window(views, n as nat) =~= views.subrange(start as int, views.len() as int));
    let mut k: usize = start;
    while k < recent.len()
        invariant
            start <= k <= recent@.len(),
            views == recent_views(recent@),
            views.len() == recent@.len(),
            out@ == o1 + review_entries(views.subrange(start as int, k as int), o.redact_secrets),
        decreases recent@.len() - k,
    {
        push_review_entry(out, &recent[k], o.redact_secrets);
        proof {
            let w = views.subrange(start as int, k + 1);
            assert(w.drop_last() =~= views.subrange(start as int, k as int));
            assert(w.last() == views[k as int]);
            assert(views[k as int] == recent_view(recent@[k as int]));
        }
        k = k + 1;
        assert(out@ =~= o1 + review_entries(views.subrange(start as int, k as int), o.redact_secrets));
    }
    out.push('\n');
    assert(out@ =~= old(out)@ + review_block(views, *o));
}

fn push_quoted_attachments(out: &mut Vec<char>, label: &str, items: &Vec<String>)
    ensures
        final(out)@ == old(out)@ + quoted_attachments(label@, items@),
{
    let mut k: usize = 0;
    while k < items.len()
        invariant
            k <= items@.len(),
            out@ == old(out)@ + quoted_attachments(label@, items@.take(k as int)),
        decreases items@.len() - k,
    {
        let mut text = chars_of(label);
        append_str(&mut text, items[k].as_str());
        push_blockquote(out, text.as_slice());
        out.push('\n');
        assert(items@.take(k + 1).drop_last() =~= items@.take(k as int));
        k = k + 1;
        assert(out@ =~= old(out)@ + quoted_attachments(label@, items@.take(k as int)));
    }
    assert(items@.take(items@.len() as int) =~= items@);
}

fn push_user_body(out: &mut Vec<char>, ts: &str, u: &UserMessage, o: &ExportMarkdownOptions)
    ensures
        final(out)@ == old(out)@ + user_body(ts@, *u, *o),
{
    let mc = chars_of(u.message.as_str());
    let message = maybe_redact_chars(mc.as_slice(), o.redact_secrets);
    append_str(out, "### User (");
    push_escaped_str(out, ts);
    append_str(out, ")\n\n");
    let ghost o1 = out@;
    if !is_blank_chars(message.as_slice()) {
        push_blockquote(out, message.as_slice());
        out.push('\n');
    }
    let ghost o2 = out@;
    match &u.images {
        Some(urls) => push_quoted_attachments(out, "[image url] ", urls),
        None => {},
    }
    let ghost o3 = out@;
    push_quoted_attachments(out, "[image file] ", &u.local_images);
    assert(out@ =~= old(out)@ + user_body(ts@, *u, *o));
}

fn push_user_message(
    out: &mut Vec<char>,
    ts: &str,
    u: &UserMessage,
    o: &ExportMarkdownOptions,
) -> (r: Result<(), String>)
    ensures
        match user_text(ts@, *u, *o) {
            Ok(t) => r is Ok && final(out)@ == old(out)@ + t,
            Err(e) => r matches Err(x) && x@ == e,
        },
{
    push_user_body(out, ts, u, o);
    let ghost body = out@;
    match &u.text_elements_json {
        None => {},
        Some(Ok(j)) => {
            append_str(out, "<details>\n<summary>text elements</summary>\n\n```json\n");
            append_str(out, j.as_str());
            append_str(out, "\n```\n\n</details>\n\n");
        },
        Some(Err(e)) => {
            return Err(e.clone());
        },
    }
    assert(out@ =~= old(out)@ + user_text(ts@, *u, *o)->Ok_0);
    Ok(())
}

fn push_assistant_message(out: &mut Vec<char>, ts: &str, m: &str, o: &ExportMarkdownOptions) -> (message: Vec<char>)
    ensures
        final(out)@ == old(out)@ + assistant_text(ts@, m@, *o),
        message@ == maybe_redact_spec(m@, o.redact_secrets),
{
    let mc = chars_of(m);
    let message = maybe_redact_chars(mc.as_slice(), o.redact_secrets);
    append_str(out, "### Assistant (");
    push_escaped_str(out, ts);
    append_str(out, ")\n\n");
    if !is_blank_chars(message.as_slice()) {
        append_chars(out, message.as_slice());
        if !(message.len() > 0 && message[message.len() - 1] == '\n') {
            out.push('\n');
        }
        out.push('\n');
    }
    assert(out@ =~= old(out)@ + assistant_text(ts@, m@, *o));
    message
}

fn push_reasoning(out: &mut Vec<char>, ts: &str, t: &str, o: &ExportMarkdownOptions)
    ensures
        final(out)@ == old(out)@ + reasoning_text(ts@, t@, *o),
{
    if !o.include_reasoning_summaries {
        assert(out@ =~= old(out)@ + reasoning_text(ts@, t@, *o));
        return;
    }
    let tc = chars_of(t);
    let text = maybe_redact_chars(tc.as_slice(), o.redact_secrets);
    if is_blank_chars(text.as_slice()) {
        assert(out@ =~= old(out)@ + reasoning_text(ts@, t@, *o));
        return;
    }
    let mut summary = chars_of("Reasoning summary (");
    let tsc = chars_of(ts);
    push_escaped_inline(&mut summary, tsc.as_slice());
    append_str(&mut summary, ")");
    push_text_details(out, summary.as_slice(), text.as_slice());
}

fn push_compaction(
    out: &mut Vec<char>,
    ts: &str,
    c: &Compacted,
    recent: &Vec<RecentMessage>,
    o: &ExportMarkdownOptions,
)
    ensures
        final(out)@ == old(out)@ + compaction_text(ts@, *c, recent_views(recent@), *o),
{
    append_str(out, "### Compaction (");
    push_escaped_str(out, ts);
    append_str(out, ")\n\n");
    let ghost o1 = out@;
    let mc = chars_of(c.message.as_str());
    if !is_blank_chars(mc.as_slice()) {
        let msg = maybe_redact_chars(mc.as_slice(), o.redact_secrets);
        let summary = chars_of("Compaction summary");
        push_text_details(out, summary.as_slice(), msg.as_slice());
    } else if c.has_replacement_history {
        append_str(out, "_Remote compaction: replacement history recorded in rollout._\n\n");
    } else {
        append_str(out, "_Compaction recorded (no summary text)._\\\n\n");
    }
    let ghost o2 = out@;
    push_review_block(out, recent, o);
    assert(out@ =~= old(out)@ + compaction_text(ts@, *c, recent_views(recent@), *o));
}

fn push_line(
    out: &mut Vec<char>,
    l: &RolloutLine,
    recent: &mut Vec<RecentMessage>,
    o: &ExportMarkdownOptions,
) -> (r: Result<(), String>)
    ensures
        match line_text(*l, recent_views(old(recent)@), *o) {
            Ok(t) => r is Ok && final(out)@ == old(out)@ + t && recent_views(final(recent)@)
                == line_recent(*l, recent_views(old(recent)@), *o),
            Err(e) => r matches Err(x) && x@ == e,
        },
{
    let ts = l.timestamp.as_str();
    match &l.item {
        RolloutItem::SessionMeta(_) => {
            assert(out@ =~= old(out)@ + seq![]);
        },
        RolloutItem::TurnContext(c) => {
            if o.include_turn_context {
                match &c.json {
                    Ok(j) => {
                        append_str(out, "<details>\n<summary>Turn context (");
                        push_escaped_str(out, ts);
                        append_str(out, ")</summary>\n\n");
                        append_str(out, "```json\n");
                        append_str(out, j.as_str());
                        append_str(out, "\n```\n\n</details>\n\n");
                        assert(out@ =~= old(out)@ + line_text(*l, recent_views(old(recent)@), *o)->Ok_0);
                    },
                    Err(e) => {
                        return Err(e.clone());
                    },
                }
            } else {
                assert(out@ =~= old(out)@ + seq![]);
            }
        },
        RolloutItem::Compacted(c) => {
            push_compaction(out, ts, c, recent, o);
        },
        RolloutItem::EventMsg(ev) => match ev {
            EventMsg::UserMessage(u) => {
                let r = push_user_message(out, ts, u, o);
                if r.is_err() {
                    return r;
                }
                push_recent(recent, RecentRole::User, l.timestamp.clone(), u.message.clone());
            },
            EventMsg::AgentMessage(m) => {
                let message = push_assistant_message(out, ts, m.as_str(), o);
                push_recent(recent, RecentRole::Assistant, l.timestamp.clone(), string_of(message.as_slice()));
            },
            EventMsg::AgentReasoning(t) => {
                push_reasoning(out, ts, t.as_str(), o);
            },
            EventMsg::AgentReasoningRawContent | EventMsg::AgentReasoningRawContentDelta => {
                append_str(out, "_Raw reasoning omitted (");
                push_escaped_str(out, ts);
                append_str(out, ")_\n\n");
                assert(out@ =~= old(out)@ + line_text(*l, recent_views(old(recent)@), *o)->Ok_0);
            },
            EventMsg::TokenCount(_) | EventMsg::Other => {
                assert(out@ =~= old(out)@ + seq![]);
            },
            EventMsg::ViewImageToolCall(p) => {
                append_str(out, "### Image Attached (");
                push_escaped_str(out, ts);
                append_str(out, ")\n\n");
                let mut text = chars_of("path: ");
                append_str(&mut text, p.as_str());
                push_blockquote(out, text.as_slice());
                append_str(out, "\n\n");
                assert(out@ =~= old(out)@ + line_text(*l, recent_views(old(recent)@), *o)->Ok_0);
            },
        },
        RolloutItem::ResponseItem(item) => {
            if o.include_tool_io {
                let _shown = push_response_item(out, ts, item, o.redact_secrets);
                assert(out@ =~= old(out)@ + line_text(*l, recent_views(old(recent)@), *o)->Ok_0);
            } else {
                assert(out@ =~= old(out)@ + seq![]);
            }
        },
    }
    Ok(())
}

/// Renders the Markdown export of the readable lines of a rollout.
///
/// `parse_errors` counts the lines that could not be read, `exported_at` is
/// the export time as RFC 3339 text and `rollout_path` the displayed path of
/// the rollout file. Fails when there is no readable line, and when a JSON
/// block that the options include could not be serialized.
pub fn render_rollout_markdown(
    parsed: &Vec<RolloutLine>,
    parse_errors: usize,
    exported_at: &str,
    rollout_path: &str,
    options: &ExportMarkdownOptions,
) -> (r: Result<String, ExportError>)
    ensures
        parsed@.len() == 0 ==> r matches Err(ExportError::NoReadableItems),
        parsed@.len() > 0 ==> match export_spec(
            parsed@,
            parse_errors as nat,
            exported_at@,
            rollout_path@,
            *options,
        ) {
            Ok(t) => r matches Ok(s) && s@ == t,
            Err(e) => r matches Err(ExportError::Serialize(x)) && x@ == e,
        },
{
    if parsed.len() == 0 {
        return Err(ExportError::NoReadableItems);
    }
    let mut out: Vec<char> = Vec::new();
    push_preamble(&mut out, parsed, parse_errors, exported_at, rollout_path, options);
    let ghost pre = out@;
    let mut recent: Vec<RecentMessage> = Vec::new();
    let mut i: usize = 0;
    assert(parsed@.skip(0) =~= parsed@);
    assert(recent_views(recent@) =~= Seq::<RecentView>::empty());
    while i < parsed.len()
        invariant
            i <= parsed@.len(),
            pre == preamble_spec(parsed@, parse_errors as nat, exported_at@, rollout_path@, *options),
            export_spec(parsed@, parse_errors as nat, exported_at@, rollout_path@, *options)
                == prepend(out@, transcript_spec(parsed@.skip(i as int), recent_views(recent@), *options)),
        decreases parsed@.len() - i,
    {
        let ghost rest = parsed@.skip(i as int);
        let ghost before = out@;
        let ghost rv = recent_views(recent@);
        assert(rest[0] == parsed@[i as int]);
        assert(rest.drop_first() =~= parsed@.skip(i + 1));
        let step = push_line(&mut out, &parsed[i], &mut recent, options);
        match step {
            Err(e) => {
                return Err(ExportError::Serialize(e));
            },
            Ok(()) => {},
        }
        proof {
            let t = line_text(rest[0], rv, *options)->Ok_0;
            let tail = transcript_spec(rest.drop_first(), line_recent(rest[0], rv, *options), *options);
            match tail {
                Ok(x) => {
                    assert(before + (t + x) =~= (before + t) + x);
                },
                Err(_) => {},
            }
        }
        i = i + 1;
    }
    assert(parsed@.skip(i as int) =~= Seq::<RolloutLine>::empty());
    assert(out@ + seq![] =~= out@);
    Ok(string_of(out.as_slice()))
}

// ---------------------------------------------------------------------------
// Lines of a rollout file.
// ---------------------------------------------------------------------------

/// The lines worth parsing: every line trimmed, blank ones left out.
pub open spec fn candidate_lines(ls: Seq<Seq<char>>) -> Seq<Seq<char>>
    decreases ls.len(),
{
    if ls.len() == 0 {
        seq![]
    } else if trim(ls[0]).len() == 0 {
        candidate_lines(ls.drop_first())
    } else {
        seq![trim(ls[0])] + candidate_lines(ls.drop_first())
    }
}

/// The trimmed, non-blank lines of a rollout file, in order.
pub fn rollout_candidate_lines(raw: &str) -> (r: Vec<String>)
    ensures
        r@.map_values(|l: String| l@) == candidate_lines(lines(raw@)),
{
    let s = chars_of(raw);
    let mut rest = slice_chars(s.as_slice(), 0, s.len());
    assert(rest@ =~= raw@);
    let mut r: Vec<String> = Vec::new();
    while rest.len() > 0
        invariant
            r@.map_values(|l: String| l@) + candidate_lines(lines(rest@)) == candidate_lines(lines(raw@)),
        decreases rest@.len(),
    {
        let ghost r0 = rest@;
        let ghost before = r@.map_values(|l: String| l@);
        let nl = crate::text::find_char(rest.as_slice(), '\n');
        proof {
            crate::text::lemma_index_of(rest@, '\n');
        }
        let (piece, next) = match nl {
            None => {
                let p = slice_chars(rest.as_slice(), 0, rest.len());
                (p, Vec::new())
            },
            Some(i) => {
                let mut p = slice_chars(rest.as_slice(), 0, i);
                if p.len() > 0 && p[p.len() - 1] == '\r' {
                    p.pop();
                }
                let n = slice_chars(rest.as_slice(), i + 1, rest.len());
                (p, n)
            },
        };
        proof {
            let ls = lines(r0);
            assert(ls =~= seq![piece@] + lines(next@)) by {
                if crate::text::index_of(r0, '\n') >= r0.len() {
                    assert(piece@ =~= r0);
                    assert(lines(next@) =~= Seq::<Seq<char>>::empty());
                } else {
                    let i = crate::text::index_of(r0, '\n');
                    assert(piece@ =~= crate::text::strip_cr(r0.take(i as int)));
                    assert(next@ =~= r0.skip(i as int + 1));
                }
            }
            assert(ls.drop_first() =~= lines(next@));
        }
        let t = trim_chars(piece.as_slice());
        if t.len() > 0 {
            r.push(string_of(t.as_slice()));
            assert(r@.map_values(|l: String| l@) =~= before.push(t@));
            assert(before.push(t@) + candidate_lines(lines(next@)) =~= before + (seq![t@]
                + candidate_lines(lines(next@))));
        }
        rest = next;
    }
    assert(lines(rest@) =~= Seq::<Seq<char>>::empty());
    assert(r@.map_values(|l: String| l@) + seq![] =~= r@.map_values(|l: String| l@));
    r
}

} // verus!
