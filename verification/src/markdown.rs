//! Markdown building blocks for conversation exports: export options,
//! optional redaction, inline-code escaping, block quotes and fenced JSON or
//! text bodies.
use vstd::prelude::*;
use crate::redact::{
    redact_json_field_spec, redact_json_field_value_chars, redact_prefix_like_chars,
    redact_prefix_like_spec,
};
use crate::text::{
    append_chars, append_str, chars_of, find_char, index_of, is_blank, is_blank_chars,
    lemma_index_of, lemma_index_of_unique, lines, slice_chars, string_of, strip_cr, trim,
    trim_chars,
};

verus! {

/// What a conversation export contains.
#[derive(Debug, Clone)]
pub struct ExportMarkdownOptions {
    pub include_tool_io: bool,
    pub include_reasoning_summaries: bool,
    pub include_token_usage: bool,
    pub include_turn_context: bool,
    pub redact_secrets: bool,
    /// Number of recent user/assistant messages to include as "recent reviewed"
    /// around compaction markers.
    pub recent_review_messages: usize,
}

impl Default for ExportMarkdownOptions {
    fn default() -> (r: Self)
        ensures
            r.include_tool_io,
            r.include_reasoning_summaries,
            r.include_token_usage,
            !r.include_turn_context,
            r.redact_secrets,
            r.recent_review_messages == 8,
    {
        ExportMarkdownOptions {
            include_tool_io: true,
            include_reasoning_summaries: true,
            include_token_usage: true,
            include_turn_context: false,
            redact_secrets: true,
            recent_review_messages: 8,
        }
    }
}

// ---------------------------------------------------------------------------
// Redaction as the exporter applies it.
// ---------------------------------------------------------------------------

/// Every redaction the exporter applies, in order: `sk-` and `rk-` tokens,
/// then the `api_key`, `apiKey`, `access_token`, `accessToken`,
/// `refresh_token` and `refreshToken` fields.
pub open spec fn redact_all(t: Seq<char>) -> Seq<char> {
    let t1 = redact_prefix_like_spec(t, "sk-"@);
    let t2 = redact_prefix_like_spec(t1, "rk-"@);
    let t3 = redact_json_field_spec(t2, "api_key"@);
    let t4 = redact_json_field_spec(t3, "apiKey"@);
    let t5 = redact_json_field_spec(t4, "access_token"@);
    let t6 = redact_json_field_spec(t5, "accessToken"@);
    let t7 = redact_json_field_spec(t6, "refresh_token"@);
    redact_json_field_spec(t7, "refreshToken"@)
}

/// The text as the export shows it: redacted when the options ask for it.
pub open spec fn maybe_redact_spec(t: Seq<char>, redact: bool) -> Seq<char> {
    if redact {
        redact_all(t)
    } else {
        t
    }
}

fn redact_field(t: Vec<char>, field: &str) -> (r: Vec<char>)
    ensures
        r@ == redact_json_field_spec(t@, field@),
{
    let f = chars_of(field);
    redact_json_field_value_chars(t.as_slice(), f.as_slice())
}

fn redact_prefix(t: Vec<char>, prefix: &str) -> (r: Vec<char>)
    ensures
        r@ == redact_prefix_like_spec(t@, prefix@),
{
    let p = chars_of(prefix);
    redact_prefix_like_chars(t.as_slice(), p.as_slice())
}

/// `maybe_redact` on characters.
pub fn maybe_redact_chars(text: &[char], redact: bool) -> (r: Vec<char>)
    ensures
        r@ == maybe_redact_spec(text@, redact),
{
    let t = slice_chars(text, 0, text.len());
    assert(t@ =~= text@);
    if !redact {
        return t;
    }
    let t = redact_prefix(t, "sk-");
    let t = redact_prefix(t, "rk-");
    let t = redact_field(t, "api_key");
    let t = redact_field(t, "apiKey");
    let t = redact_field(t, "access_token");
    let t = redact_field(t, "accessToken");
    let t = redact_field(t, "refresh_token");
    redact_field(t, "refreshToken")
}

/// Applies the export's secret redaction to `text` when
/// `options.redact_secrets` is set; otherwise returns it unchanged.
pub fn maybe_redact(text: &str, options: &ExportMarkdownOptions) -> (r: String)
    ensures
        r@ == maybe_redact_spec(text@, options.redact_secrets),
{
    let t = chars_of(text);
    let r = maybe_redact_chars(t.as_slice(), options.redact_secrets);
    string_of(r.as_slice())
}

// ---------------------------------------------------------------------------
// Inline code and block quotes.
// ---------------------------------------------------------------------------

/// Every backtick preceded by a backslash, so that the text can sit inside an
/// inline code span.
pub open spec fn escape_inline(s: Seq<char>) -> Seq<char>
    decreases s.len(),
{
    if s.len() == 0 {
        seq![]
    } else {
        escape_inline(s.drop_last()) + (if s.last() == '`' {
            seq!['\\', '`']
        } else {
            seq![s.last()]
        })
    }
}

/// Appends `escape_inline(s)`.
pub fn push_escaped_inline(out: &mut Vec<char>, s: &[char])
    ensures
        final(out)@ == old(out)@ + escape_inline(s@),
{
    let mut i: usize = 0;
    while i < s.len()
        invariant
            i <= s@.len(),
            out@ == old(out)@ + escape_inline(s@.take(i as int)),
        decreases s@.len() - i,
    {
        assert(s@.take(i + 1).drop_last() =~= s@.take(i as int));
        if s[i] == '`' {
            out.push('\\');
            out.push('`');
        } else {
            out.push(s[i]);
        }
        i = i + 1;
        assert(out@ =~= old(out)@ + escape_inline(s@.take(i as int)));
    }
    assert(s@.take(s@.len() as int) =~= s@);
}

/// Escapes backticks so the text can be wrapped in an inline code span.
pub fn md_escape_inline(input: &str) -> (r: String)
    ensures
        r@ == escape_inline(input@),
{
    let s = chars_of(input);
    let mut out: Vec<char> = Vec::new();
    push_escaped_inline(&mut out, s.as_slice());
    string_of(out.as_slice())
}

/// Each line prefixed by `"> "` and ended by a newline.
pub open spec fn quote_lines(ls: Seq<Seq<char>>) -> Seq<char>
    decreases ls.len(),
{
    if ls.len() == 0 {
        seq![]
    } else {
        seq!['>', ' '] + ls[0] + seq!['\n'] + quote_lines(ls.drop_first())
    }
}

/// The block quote of a text: every line of it (`str::lines`) quoted.
pub open spec fn blockquote_spec(s: Seq<char>) -> Seq<char> {
    quote_lines(lines(s))
}

/// Appends `blockquote_spec(s)`.
pub fn push_blockquote(out: &mut Vec<char>, s: &[char])
    ensures
        final(out)@ == old(out)@ + blockquote_spec(s@),
{
    let mut rest = slice_chars(s, 0, s.len());
    assert(rest@ =~= s@);
    while rest.len() > 0
        invariant
            out@ + quote_lines(lines(rest@)) == old(out)@ + blockquote_spec(s@),
        decreases rest@.len(),
    {
        let nl = find_char(rest.as_slice(), '\n');
        proof {
            lemma_index_of(rest@, '\n');
        }
        match nl {
            None => {
                let ghost r0 = rest@;
                out.push('>');
                out.push(' ');
                append_chars(out, rest.as_slice());
                out.push('\n');
                assert(lines(r0) == seq![r0]);
                assert(quote_lines(seq![r0]) =~= seq!['>', ' '] + r0 + seq!['\n'] + quote_lines(
                    seq![r0].drop_first(),
                ));
                assert(seq![r0].drop_first() =~= Seq::<Seq<char>>::empty());
                rest = Vec::new();
                assert(lines(rest@) =~= Seq::<Seq<char>>::empty());
            },
            Some(i) => {
                let ghost r0 = rest@;
                let mut line = slice_chars(rest.as_slice(), 0, i);
                if line.len() > 0 && line[line.len() - 1] == '\r' {
                    line.pop();
                }
                assert(line@ =~= strip_cr(r0.take(i as int)));
                out.push('>');
                out.push(' ');
                append_chars(out, line.as_slice());
                out.push('\n');
                let next = slice_chars(rest.as_slice(), i + 1, rest.len());
                assert(next@ =~= r0.skip(i as int + 1));
                let ghost ls = lines(r0);
                assert(ls =~= seq![line@] + lines(next@));
                assert(ls.drop_first() =~= lines(next@));
                assert(ls[0] == line@);
                rest = next;
                assert(out@ + quote_lines(lines(rest@)) =~= old(out)@ + blockquote_spec(s@));
            },
        }
    }
    assert(lines(rest@) =~= Seq::<Seq<char>>::empty());
    assert(out@ =~= old(out)@ + blockquote_spec(s@));
}

/// Quotes every line of `text` with `"> "`.
pub fn blockquote(text: &str) -> (r: String)
    ensures
        r@ == blockquote_spec(text@),
{
    let s = chars_of(text);
    let mut out: Vec<char> = Vec::new();
    push_blockquote(&mut out, s.as_slice());
    string_of(out.as_slice())
}

// ---------------------------------------------------------------------------
// Fenced bodies.
// ---------------------------------------------------------------------------

/// What `serde_json` makes of a text parsed as a `serde_json::Value` and
/// written back with `serde_json::to_string_pretty`: `None` when the text does
/// not parse, `Some(None)` when the value does not serialize.
pub uninterp spec fn json_pretty(text: Seq<char>) -> Option<Option<Seq<char>>>;

/// Parses `text` with `serde_json::from_str::<serde_json::Value>` and, when
/// that succeeds, writes the value back with `serde_json::to_string_pretty`.
/// Claims only that the outcome is `json_pretty` of the text: parsing and
/// printing depend on the text alone.
#[verifier::external_body]
fn json_reformat_pretty(text: &str) -> (res: Option<Option<String>>)
    ensures
        match res {
            None => json_pretty(text@) is None,
            Some(None) => json_pretty(text@) == Some(None::<Seq<char>>),
            Some(Some(s)) => json_pretty(text@) == Some(Some(s@)),
        },
{
    match serde_json::from_str::<serde_json::Value>(text) {
        Ok(value) => Some(serde_json::to_string_pretty(&value).ok()),
        Err(_) => None,
    }
}

/// A pretty JSON text as the export shows it: redacted when asked, or the
/// placeholder for a value that did not serialize.
pub open spec fn redacted_json_text(pretty: Option<Seq<char>>, redact: bool) -> Seq<char> {
    match pretty {
        Some(p) => maybe_redact_spec(p, redact),
        None => "<unserializable json>"@,
    }
}

/// The body shown for a tool's input or output: a JSON fence when the trimmed
/// text parses as JSON, a text fence otherwise, an empty text fence for blank
/// input.
pub open spec fn json_or_text_spec(input: Seq<char>, redact: bool) -> Seq<char> {
    let t = trim(input);
    if t.len() == 0 {
        "```text\n\n```"@
    } else {
        match json_pretty(t) {
            Some(p) => "```json\n"@ + redacted_json_text(p, redact) + "\n```"@,
            None => "```text\n"@ + maybe_redact_spec(t, redact) + "\n```"@,
        }
    }
}

/// Appends `json_or_text_spec(input)`.
pub fn push_json_or_text(out: &mut Vec<char>, input: &[char], redact: bool)
    ensures
        final(out)@ == old(out)@ + json_or_text_spec(input@, redact),
{
    let t = trim_chars(input);
    if t.len() == 0 {
        append_str(out, "```text\n\n```");
        return;
    }
    let ts = string_of(t.as_slice());
    match json_reformat_pretty(ts.as_str()) {
        Some(pretty) => {
            append_str(out, "```json\n");
            match pretty {
                Some(p) => {
                    let pc = chars_of(p.as_str());
                    let r = maybe_redact_chars(pc.as_slice(), redact);
                    append_chars(out, r.as_slice());
                },
                None => {
                    append_str(out, "<unserializable json>");
                },
            }
            append_str(out, "\n```");
        },
        None => {
            append_str(out, "```text\n");
            let r = maybe_redact_chars(t.as_slice(), redact);
            append_chars(out, r.as_slice());
            append_str(out, "\n```");
        },
    }
}

/// Formats a tool payload as a fenced JSON block when it parses as JSON and
/// as a fenced text block otherwise, redacting as the options ask.
pub fn format_json_or_text(input: &str, options: &ExportMarkdownOptions) -> (r: String)
    ensures
        r@ == json_or_text_spec(input@, options.redact_secrets),
{
    let s = chars_of(input);
    let mut out: Vec<char> = Vec::new();
    push_json_or_text(&mut out, s.as_slice(), options.redact_secrets);
    string_of(out.as_slice())
}

} // verus!
