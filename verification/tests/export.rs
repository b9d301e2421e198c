use codex_companion::export::{render_rollout_markdown, rollout_candidate_lines, ExportError};
use codex_companion::markdown::{
    blockquote, format_json_or_text, maybe_redact, md_escape_inline, ExportMarkdownOptions,
};
use codex_companion::redact::{redact_json_field_value, redact_prefix_like};
use codex_companion::rollout::{
    push_recent, render_response_item, Compacted, EventMsg, RecentMessage, RecentRole,
    ResponseItem, RolloutItem, RolloutLine, SessionMeta, TokenUsage, TurnContext, UserMessage,
    RECENT_HARD_MAX,
};

fn line(ts: &str, item: RolloutItem) -> RolloutLine {
    RolloutLine { timestamp: ts.to_string(), item }
}

fn user(message: &str) -> RolloutItem {
    RolloutItem::EventMsg(EventMsg::UserMessage(UserMessage {
        message: message.to_string(),
        images: None,
        local_images: Vec::new(),
        text_elements_json: None,
    }))
}

fn assistant(message: &str) -> RolloutItem {
    RolloutItem::EventMsg(EventMsg::AgentMessage(message.to_string()))
}

fn plain_options() -> ExportMarkdownOptions {
    ExportMarkdownOptions { redact_secrets: false, ..Default::default() }
}

#[test]
fn export_includes_user_assistant_and_compaction_recent_review() {
    let lines = vec![
        line("t1", user("first")),
        line("t2", assistant("ok")),
        line(
            "t3",
            RolloutItem::Compacted(Compacted {
                message: "summary".to_string(),
                has_replacement_history: false,
            }),
        ),
    ];
    let options = ExportMarkdownOptions {
        recent_review_messages: 2,
        redact_secrets: false,
        ..Default::default()
    };
    let md = render_rollout_markdown(&lines, 0, "2024-01-01T00:00:00Z", "/tmp/rollout.jsonl", &options)
        .ok()
        .unwrap();

    assert!(md.contains("### User (t1)"));
    assert!(md.contains("> first"));
    assert!(md.contains("### Assistant (t2)"));
    assert!(md.contains("ok"));
    assert!(md.contains("### Compaction (t3)"));
    assert!(md.contains("#### Recent Reviewed"));
    // Ensure both messages are present in the review block.
    assert!(md.contains("**user** (t1)"));
    assert!(md.contains("**assistant** (t2)"));
}

#[test]
fn md_escape_inline_escapes_backticks() {
    assert_eq!(md_escape_inline("a`b"), "a\\`b");
}

#[test]
fn escaped_inline_text_has_every_backtick_preceded_by_backslash() {
    let out = md_escape_inline("``x`");
    assert_eq!(out, "\\`\\`x\\`");
    let chars: Vec<char> = out.chars().collect();
    for (k, c) in chars.iter().enumerate() {
        if *c == '`' {
            assert!(k > 0 && chars[k - 1] == '\\');
        }
    }
}

#[test]
fn default_options_match_the_documented_defaults() {
    let o = ExportMarkdownOptions::default();
    assert!(o.include_tool_io);
    assert!(o.include_reasoning_summaries);
    assert!(o.include_token_usage);
    assert!(!o.include_turn_context);
    assert!(o.redact_secrets);
    assert_eq!(o.recent_review_messages, 8);
}

#[test]
fn export_document_is_exact_for_a_small_rollout() {
    let lines = vec![
        line(
            "t0",
            RolloutItem::SessionMeta(SessionMeta {
                id: "thread-1".to_string(),
                timestamp: "2024".to_string(),
                cwd: "/w`d".to_string(),
                originator: String::new(),
                cli_version: "1.0".to_string(),
                source: "Cli".to_string(),
                model_provider: Some("openai".to_string()),
            }),
        ),
        line("t1", user("hi")),
        line(
            "t2",
            RolloutItem::EventMsg(EventMsg::TokenCount(Some(TokenUsage {
                total_tokens: 30,
                input_tokens: 20,
                output_tokens: 10,
                reasoning_output_tokens: 0,
            }))),
        ),
    ];
    let md = render_rollout_markdown(&lines, 2, "NOW", "/r`.jsonl", &plain_options()).ok().unwrap();
    let expected = "# Codex Conversation Export\n\n\
- Exported: NOW\n\
- Rollout: `/r\\`.jsonl`\n\
- Parse errors: 2\n\n\
## Session\n\n\
- Thread: `thread-1`\n\
- Started: `2024`\n\
- CWD: `/w\\`d`\n\
- CLI: `1.0`\n\
- Source: `Cli`\n\
- Provider: `openai`\n\n\
## Token Usage (Latest)\n\n\
- Total tokens: `30`\n\
- Input tokens: `20`\n\
- Output tokens: `10`\n\n\
## Transcript\n\n\
### User (t1)\n\n\
> hi\n\n";
    assert_eq!(md, expected);
}

#[test]
fn export_without_readable_lines_fails() {
    let r = render_rollout_markdown(&Vec::new(), 3, "NOW", "p", &plain_options());
    match r {
        Err(e) => {
            assert!(matches!(e, ExportError::NoReadableItems));
            assert_eq!(e.message(), "rollout file contained no readable items");
        }
        Ok(_) => panic!("an empty rollout must fail"),
    }
}

#[test]
fn export_reports_unserializable_turn_context() {
    let lines = vec![line(
        "t1",
        RolloutItem::TurnContext(TurnContext {
            model: "m".to_string(),
            approval_policy: "Never".to_string(),
            sandbox_policy: "ReadOnly".to_string(),
            cwd: "/".to_string(),
            json: Err("boom".to_string()),
        }),
    )];
    let options = ExportMarkdownOptions { include_turn_context: true, ..plain_options() };
    match render_rollout_markdown(&lines, 0, "NOW", "p", &options) {
        Err(e) => {
            assert!(matches!(e, ExportError::Serialize(_)));
            assert_eq!(e.message(), "failed to serialize json: boom");
        }
        Ok(_) => panic!("serialization error must surface"),
    }
    // Without turn contexts in the export the same rollout renders.
    let md = render_rollout_markdown(&lines, 0, "NOW", "p", &plain_options()).ok().unwrap();
    assert!(!md.contains("Turn context"));
}

#[test]
fn turn_context_is_shown_when_asked() {
    let lines = vec![line(
        "t1",
        RolloutItem::TurnContext(TurnContext {
            model: "gpt".to_string(),
            approval_policy: "Never".to_string(),
            sandbox_policy: "ReadOnly".to_string(),
            cwd: "/w".to_string(),
            json: Ok("{}".to_string()),
        }),
    )];
    let options = ExportMarkdownOptions { include_turn_context: true, ..plain_options() };
    let md = render_rollout_markdown(&lines, 0, "NOW", "p", &options).ok().unwrap();
    assert!(md.contains("## Turn Context (Latest)\n\n- Model: `gpt`\n- Approval policy: `Never`\n- Sandbox policy: `ReadOnly`\n- CWD: `/w`\n\n"));
    assert!(md.contains("<details>\n<summary>Turn context (t1)</summary>\n\n```json\n{}\n```\n\n</details>\n\n"));
}

#[test]
fn review_block_shows_only_the_last_n_messages() {
    let lines = vec![
        line("a", user("one")),
        line("b", assistant("two")),
        line("c", user("three")),
        line(
            "d",
            RolloutItem::Compacted(Compacted { message: String::new(), has_replacement_history: true }),
        ),
    ];
    let options = ExportMarkdownOptions { recent_review_messages: 2, ..plain_options() };
    let md = render_rollout_markdown(&lines, 0, "NOW", "p", &options).ok().unwrap();
    assert!(md.contains(
        "### Compaction (d)\n\n_Remote compaction: replacement history recorded in rollout._\n\n#### Recent Reviewed\n\n- **assistant** (b)\n> two\n\n- **user** (c)\n> three\n\n\n"
    ));
    assert!(!md.contains("**user** (a)"));
}

#[test]
fn compaction_without_summary_or_history_says_so() {
    let lines = vec![line(
        "d",
        RolloutItem::Compacted(Compacted { message: "  ".to_string(), has_replacement_history: false }),
    )];
    let md = render_rollout_markdown(&lines, 0, "NOW", "p", &plain_options()).ok().unwrap();
    assert!(md.contains("### Compaction (d)\n\n_Compaction recorded (no summary text)._\\\n\n"));
    assert!(!md.contains("Recent Reviewed"));
}

#[test]
fn raw_reasoning_is_never_exported() {
    let lines = vec![
        line("r1", RolloutItem::EventMsg(EventMsg::AgentReasoningRawContent)),
        line("r2", RolloutItem::EventMsg(EventMsg::AgentReasoning("thinking".to_string()))),
    ];
    let md = render_rollout_markdown(&lines, 0, "NOW", "p", &plain_options()).ok().unwrap();
    assert!(md.contains("_Raw reasoning omitted (r1)_\n\n"));
    assert!(md.contains("<details>\n<summary>Reasoning summary (r2)</summary>\n\n```text\nthinking\n```\n\n</details>\n\n"));
    let no_reasoning = ExportMarkdownOptions { include_reasoning_summaries: false, ..plain_options() };
    let md = render_rollout_markdown(&lines, 0, "NOW", "p", &no_reasoning).ok().unwrap();
    assert!(!md.contains("Reasoning summary"));
}

#[test]
fn user_attachments_are_quoted() {
    let lines = vec![line(
        "t",
        RolloutItem::EventMsg(EventMsg::UserMessage(UserMessage {
            message: "look".to_string(),
            images: Some(vec!["http://x/img.png".to_string()]),
            local_images: vec!["/tmp/a.png".to_string()],
            text_elements_json: Some(Ok("[]".to_string())),
        })),
    )];
    let md = render_rollout_markdown(&lines, 0, "NOW", "p", &plain_options()).ok().unwrap();
    assert!(md.contains("### User (t)\n\n> look\n\n> [image url] http://x/img.png\n\n> [image file] /tmp/a.png\n\n<details>\n<summary>text elements</summary>\n\n```json\n[]\n```\n\n</details>\n\n"));
}

#[test]
fn tool_calls_render_as_details_blocks() {
    let call = ResponseItem::FunctionCall {
        name: "shell".to_string(),
        arguments: "{\"cmd\":\"ls\"}".to_string(),
        call_id: "c1".to_string(),
    };
    let r = render_response_item("t`1", &call, false).unwrap();
    assert_eq!(
        r,
        "<details>\n<summary>tool call: shell (c1) (t\\`1)</summary>\n\n```json\n{\n  \"cmd\": \"ls\"\n}\n```\n\n</details>\n\n"
    );
    assert!(render_response_item("t", &ResponseItem::Message, false).is_none());
    let ghost = render_response_item("t", &ResponseItem::GhostSnapshot, false).unwrap();
    assert_eq!(ghost, "<details>\n<summary>ghost snapshot (t)</summary>\n\n\n</details>\n\n");
    let search = ResponseItem::WebSearchCall { status: None, action_json: None };
    assert_eq!(
        render_response_item("t", &search, false).unwrap(),
        "<details>\n<summary>web search (unknown) (t)</summary>\n\n\n</details>\n\n"
    );
    let out = ResponseItem::FunctionCallOutput { call_id: "c2".to_string(), output: None };
    assert!(render_response_item("t", &out, false)
        .unwrap()
        .contains("```text\n<unserializable tool output>\n```"));
}

#[test]
fn tool_io_can_be_left_out() {
    let lines = vec![line(
        "t",
        RolloutItem::ResponseItem(ResponseItem::CustomToolCallOutput {
            call_id: "c".to_string(),
            output: "done".to_string(),
        }),
    )];
    let with = render_rollout_markdown(&lines, 0, "NOW", "p", &plain_options()).ok().unwrap();
    assert!(with.contains("custom tool output (c)"));
    assert!(with.contains("```text\ndone\n```"));
    let without = ExportMarkdownOptions { include_tool_io: false, ..plain_options() };
    let md = render_rollout_markdown(&lines, 0, "NOW", "p", &without).ok().unwrap();
    assert!(!md.contains("custom tool output"));
}

#[test]
fn json_or_text_formats_each_kind() {
    let o = plain_options();
    assert_eq!(format_json_or_text("   ", &o), "```text\n\n```");
    assert_eq!(format_json_or_text(" [1,2] ", &o), "```json\n[\n  1,\n  2\n]\n```");
    assert_eq!(format_json_or_text(" plain words ", &o), "```text\nplain words\n```");
}

#[test]
fn blockquote_quotes_every_line() {
    assert_eq!(blockquote("a\r\nb\n"), "> a\n> b\n");
    assert_eq!(blockquote(""), "");
    assert_eq!(blockquote("\n"), "> \n");
    assert_eq!(blockquote("x\ry"), "> x\ry\n");
}

#[test]
fn prefix_redaction_replaces_long_key_tokens() {
    assert_eq!(redact_prefix_like("key sk-123456789 end", "sk-"), "key [REDACTED] end");
    // Too short to be a key: kept, and so is the whitespace around it.
    assert_eq!(redact_prefix_like("sk-1234 x", "sk-"), "sk-1234 x");
    assert_eq!(redact_prefix_like("a\tsk-0123456789\n b", "sk-"), "a\t[REDACTED]\n b");
    assert_eq!(redact_prefix_like("x y", "sk-"), "x y");
    assert_eq!(redact_prefix_like("sk-12345678", "sk-"), "sk-12345678");
    assert_eq!(redact_prefix_like("sk-123456789", "sk-"), "[REDACTED]");
}

#[test]
fn field_redaction_replaces_the_first_quoted_value() {
    assert_eq!(
        redact_json_field_value("{\"api_key\": \"abc\", \"x\": 1}", "api_key"),
        "{\"api_key\": \"[REDACTED]\", \"x\": 1}"
    );
    assert_eq!(redact_json_field_value("{\"api_key\": 5}", "api_key"), "{\"api_key\": 5}");
    assert_eq!(redact_json_field_value("no field here", "api_key"), "no field here");
    assert_eq!(redact_json_field_value("\"api_key\" no colon", "api_key"), "\"api_key\" no colon");
    assert_eq!(redact_json_field_value("\"api_key\":\"open", "api_key"), "\"api_key\":\"[REDACTED]");
}

#[test]
fn maybe_redact_honours_the_option() {
    let on = ExportMarkdownOptions::default();
    let off = plain_options();
    let text = "{\"accessToken\":\"t0k3n\"}";
    assert_eq!(maybe_redact(text, &on), "{\"accessToken\":\"[REDACTED]\"}");
    assert_eq!(maybe_redact(text, &off), text);
    assert_eq!(maybe_redact("rk-abcdefghijk", &on), "[REDACTED]");
    assert_eq!(maybe_redact("hello world\nbye", &on), "hello world\nbye");
    assert_eq!(
        maybe_redact("key sk-0123456789abcdef and \"api_key\": \"s3cr3t\"", &on),
        "key [REDACTED] and \"api_key\": \"[REDACTED]\""
    );
}

#[test]
fn recent_buffer_keeps_the_last_messages() {
    let mut recent: Vec<RecentMessage> = Vec::new();
    for i in 0..(RECENT_HARD_MAX + 5) {
        push_recent(&mut recent, RecentRole::User, format!("t{i}"), format!("m{i}"));
        assert!(recent.len() <= RECENT_HARD_MAX);
    }
    assert_eq!(recent.len(), RECENT_HARD_MAX);
    assert_eq!(recent[0].timestamp, "t5");
    assert_eq!(recent[RECENT_HARD_MAX - 1].text, format!("m{}", RECENT_HARD_MAX + 4));
}

#[test]
fn candidate_lines_are_trimmed_and_non_blank() {
    let lines = rollout_candidate_lines("  {\"a\":1}  \r\n\n   \n{\"b\":2}");
    assert_eq!(lines, vec!["{\"a\":1}".to_string(), "{\"b\":2}".to_string()]);
    assert!(rollout_candidate_lines("").is_empty());
}

#[test]
fn exported_user_message_has_its_key_redacted() {
    let lines = vec![line("t1", user("use sk-0123456789abcdef"))];
    let md = render_rollout_markdown(&lines, 0, "NOW", "p", &ExportMarkdownOptions::default()).ok().unwrap();
    assert!(md.ends_with("## Transcript\n\n### User (t1)\n\n> use [REDACTED]\n\n"));
    assert!(!md.contains("0123456789abcdef"));
}

#[test]
fn prefix_redaction_is_idempotent() {
    for s in ["sk-1 abcdefghi", "a sk-0123456789 b", "sk-0123456789abc\tsk-1", ""] {
        let once = redact_prefix_like(s, "sk-");
        assert_eq!(redact_prefix_like(&once, "sk-"), once);
    }
    assert_eq!(redact_prefix_like("sk-1 abcdefghi", "sk-"), "sk-1 abcdefghi");
}

#[test]
fn disabled_kinds_leave_no_trace() {
    let o = ExportMarkdownOptions {
        include_tool_io: false,
        include_reasoning_summaries: false,
        include_token_usage: false,
        include_turn_context: false,
        ..plain_options()
    };
    let all = vec![
        line("t1", user("hi")),
        line("t2", RolloutItem::EventMsg(EventMsg::AgentReasoning("thinking".to_string()))),
        line("t3", RolloutItem::ResponseItem(ResponseItem::FunctionCall {
            name: "f".to_string(),
            arguments: "{}".to_string(),
            call_id: "c".to_string(),
        })),
        line("t4", RolloutItem::EventMsg(EventMsg::TokenCount(None))),
        line("t5", assistant("ok")),
    ];
    let kept = vec![line("t1", user("hi")), line("t5", assistant("ok"))];
    let a = render_rollout_markdown(&all, 0, "NOW", "p", &o).ok().unwrap();
    let b = render_rollout_markdown(&kept, 0, "NOW", "p", &o).ok().unwrap();
    assert_eq!(a, b);
}
