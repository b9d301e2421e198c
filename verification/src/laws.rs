//! Properties of the library that span its functions: escaping, redaction
//! of text and tool payloads, the export's sections, the recent message
//! buffer, pairing and code case, authorization, revocation and pinned
//! prompts.
use vstd::prelude::*;
use crate::export::{
    header_spec, meta_part, preamble_spec, token_usage_section, turn_context_part, export_spec, first_meta, last_token_usage, last_turn_context, line_recent, line_text, review_window,
    transcript_spec, RecentView,
};
use crate::hub::{bearer_of, bearer_prefix, stream_token_ok};
use crate::hub_state::{
    has_device, lemma_without_device, next_bind_host, pairing_refusal, without_device,
    HubDeviceRecord, HubStateRecord, PairingCode, StateError,
};
use crate::markdown::{escape_inline, json_or_text_spec, json_pretty, maybe_redact_spec, ExportMarkdownOptions};
use crate::redact::{
    lemma_first_ws_props, redact_word, lemma_redact_idempotent, lemma_redact_without_prefix, quoted, redact_json_field_spec, redact_prefix_like_spec,
    redacted_marker,
};
use crate::rollout::{bounded_recent, TokenUsage, EventMsg, RolloutItem, RolloutLine, RECENT_HARD_MAX};
use crate::text::{
    ascii_lower, dec_int, lemma_trailing_ws_bounds, trailing_ws, trim_end, trim_start, eq_ignore_ascii_case, first_ws, is_blank, is_ws, leading_ws, lemma_first_ws_unique, utf8_len, lemma_find_from, lemma_leading_ws_bounds, occurs_at, starts_with,
    trim,
};
use crate::toast::{utf16, xml_escape};

verus! {

/// In escaped inline text every backtick is preceded by a backslash, so no
/// backtick can close the code span it is placed in.
pub proof fn law_escaped_backticks_are_preceded_by_backslash(s: Seq<char>)
    ensures
        forall|k: int| 0 <= k < escape_inline(s).len() && #[trigger] escape_inline(s)[k] == '`'
            ==> k > 0 && escape_inline(s)[k - 1] == '\\',
    decreases s.len(),
{
    if s.len() > 0 {
        let init = s.drop_last();
        law_escaped_backticks_are_preceded_by_backslash(init);
        let e = escape_inline(s);
        let p = escape_inline(init);
        assert forall|k: int| 0 <= k < e.len() && #[trigger] e[k] == '`' implies k > 0 && e[k - 1] == '\\' by {
            if k < p.len() {
                assert(e[k] == p[k]);
                assert(e[k - 1] == p[k - 1]);
            } else if s.last() == '`' {
                assert(e[p.len() as int] == '\\');
                assert(e[p.len() as int + 1] == '`');
            } else {
                assert(e[k] == s.last());
            }
        }
    }
}

/// Escaped XML text holds no `<` and no `>`: a message cannot open or close
/// an element of the toast document.
pub proof fn law_xml_escaped_text_has_no_markup(s: Seq<char>)
    ensures
        forall|k: int| 0 <= k < xml_escape(s).len() ==> #[trigger] xml_escape(s)[k] != '<' && xml_escape(s)[k] != '>',
    decreases s.len(),
{
    reveal_strlit("&amp;");
    reveal_strlit("&lt;");
    reveal_strlit("&gt;");
    if s.len() > 0 {
        let init = s.drop_last();
        law_xml_escaped_text_has_no_markup(init);
        let e = xml_escape(s);
        let p = xml_escape(init);
        assert forall|k: int| 0 <= k < e.len() implies #[trigger] e[k] != '<' && e[k] != '>' by {
            if k < p.len() {
                assert(e[k] == p[k]);
            }
        }
    }
}

/// The recent-message buffer never holds more than `RECENT_HARD_MAX`
/// messages, always ends with the message just pushed, and is a suffix of
/// everything pushed.
pub proof fn law_recent_buffer_is_bounded_suffix<A>(s: Seq<A>, m: A)
    ensures
        bounded_recent(s.push(m)).len() <= RECENT_HARD_MAX || s.len() + 1 <= RECENT_HARD_MAX,
        bounded_recent(s.push(m)).len() == if s.len() + 1 > RECENT_HARD_MAX {
            RECENT_HARD_MAX as nat
        } else {
            s.len() + 1
        },
        bounded_recent(s.push(m)).last() == m,
        bounded_recent(s.push(m)) == s.push(m).skip(s.push(m).len() - bounded_recent(s.push(m)).len()),
{
    let t = s.push(m);
    if t.len() > RECENT_HARD_MAX {
        assert(bounded_recent(t).last() == t[t.len() - 1]);
    } else {
        assert(t.skip(0) =~= t);
    }
}

/// A review block shows the last `n` recent messages, or all of them when
/// there are fewer.
pub proof fn law_review_window_is_last_n(recent: Seq<RecentView>, n: nat)
    ensures
        review_window(recent, n).len() == if n < recent.len() {
            n
        } else {
            recent.len()
        },
        review_window(recent, n) == recent.skip(recent.len() - review_window(recent, n).len()),
{
    if n >= recent.len() {
        assert(recent.skip(0) =~= recent);
    }
}

/// With no pairing window open, every code is refused.
pub proof fn law_no_pairing_window_refuses_every_code(now: i64, code: Seq<char>)
    ensures
        pairing_refusal(None, now, code) == Some(StateError::NoActivePairing),
{
}

/// An expired pairing window refuses every code.
pub proof fn law_expired_pairing_refuses_every_code(p: PairingCode, now: i64, code: Seq<char>)
    requires
        p.expires_at < now,
    ensures
        pairing_refusal(Some(p), now, code) == Some(StateError::PairingExpired),
{
}

/// An open pairing window accepts exactly the codes equal to its own once
/// trimmed, ignoring ASCII case.
pub proof fn law_pairing_accepts_exactly_its_code(p: PairingCode, now: i64, code: Seq<char>)
    requires
        p.expires_at >= now,
    ensures
        (pairing_refusal(Some(p), now, code) is None) == eq_ignore_ascii_case(p.code@, trim(code)),
        !eq_ignore_ascii_case(p.code@, trim(code)) ==> pairing_refusal(Some(p), now, code) == Some(
            StateError::InvalidPairingCode,
        ),
{
}

/// The header `Bearer <t>` carries the token `t`.
pub proof fn law_bearer_header_carries_its_token(t: Seq<char>)
    ensures
        bearer_of(Some(bearer_prefix() + t)) == Some(t),
{
    let h = bearer_prefix() + t;
    assert(h.take(7) =~= bearer_prefix());
    assert(h.skip(7) =~= t);
}

/// A header without the `Bearer ` prefix carries no token.
pub proof fn law_header_without_bearer_prefix_carries_nothing(h: Seq<char>)
    requires
        !(h.len() >= 7 && h.take(7) == bearer_prefix()),
    ensures
        bearer_of(Some(h)) is None,
{
}

/// The admin token always opens the event stream, and so does the token of
/// every paired device.
pub proof fn law_admin_and_device_tokens_open_the_stream(state: HubStateRecord, k: int)
    requires
        0 <= k < state.devices@.len(),
    ensures
        stream_token_ok(state, state.auth_token@),
        stream_token_ok(state, state.devices@[k].device_token@),
{
    assert(state.device_tokens()[k] == state.devices@[k].device_token@);
}

/// Revoking removes every device with the id, keeps every other device, adds
/// none, and reports a revocation exactly when a device had the id.
pub proof fn law_revoke_removes_exactly_that_device(ds: Seq<HubDeviceRecord>, id: Seq<char>)
    ensures
        forall|k: int| 0 <= k < without_device(ds, id).len() ==> (#[trigger] without_device(ds, id)[k]).device.device_id@ != id,
        forall|k: int| 0 <= k < ds.len() && (#[trigger] ds[k]).device.device_id@ != id ==> without_device(ds, id).contains(ds[k]),
        forall|k: int| 0 <= k < without_device(ds, id).len() ==> ds.contains(#[trigger] without_device(ds, id)[k]),
        (without_device(ds, id).len() != ds.len()) == has_device(ds, id),
{
    lemma_without_device(ds, id);
}

/// Once a device is revoked, its token no longer opens the event stream
/// (when no other device shares it and it is not the admin token).
pub proof fn law_revoked_token_no_longer_opens_the_stream(before: HubStateRecord, after: HubStateRecord, k: int)
    requires
        0 <= k < before.devices@.len(),
        forall|j: int| 0 <= j < before.devices@.len() && j != k ==> (#[trigger] before.devices@[j]).device_token@ != before.devices@[k].device_token@,
        before.devices@[k].device_token@ != after.auth_token@,
        after.devices@ == without_device(before.devices@, before.devices@[k].device.device_id@),
    ensures
        !stream_token_ok(after, before.devices@[k].device_token@),
{
    let ds = before.devices@;
    let id = ds[k].device.device_id@;
    let t = ds[k].device_token@;
    lemma_without_device(ds, id);
    let w = without_device(ds, id);
    if after.device_tokens().contains(t) {
        let j = choose|j: int| 0 <= j < after.device_tokens().len() && after.device_tokens()[j] == t;
        assert(after.device_tokens()[j] == w[j].device_token@);
        assert(ds.contains(w[j]));
        let i = choose|i: int| 0 <= i < ds.len() && ds[i] == w[j];
        if i == k {
            assert(w[j].device.device_id@ != id);
        } else {
            assert(ds[i].device_token@ != t);
        }
    }
}

/// The prompt pinned to a thread, if any.
pub open spec fn pinned_lookup(m: Map<Seq<char>, Seq<char>>, id: Seq<char>) -> Option<Seq<char>> {
    if m.contains_key(id) {
        Some(m[id])
    } else {
        None
    }
}

/// The pinned prompts after pinning `prompt` to `thread_id`.
pub open spec fn pinned_after_set(m: Map<Seq<char>, Seq<char>>, thread_id: Seq<char>, prompt: Seq<char>) -> Map<Seq<char>, Seq<char>> {
    if is_blank(prompt) {
        m.remove(trim(thread_id))
    } else {
        m.insert(trim(thread_id), prompt)
    }
}

/// Reading a pinned prompt after setting it: the trimmed thread id gives the
/// prompt back (nothing when the prompt was blank), and every other thread
/// keeps what it had.
pub proof fn law_pinned_prompt_read_after_write(
    m: Map<Seq<char>, Seq<char>>,
    thread_id: Seq<char>,
    prompt: Seq<char>,
    other: Seq<char>,
)
    requires
        trim(thread_id).len() > 0,
    ensures
        pinned_lookup(pinned_after_set(m, thread_id, prompt), trim(thread_id)) == if is_blank(prompt) {
            None::<Seq<char>>
        } else {
            Some(prompt)
        },
        other != trim(thread_id) ==> pinned_lookup(pinned_after_set(m, thread_id, prompt), other)
            == pinned_lookup(m, other),
{
}

/// A blank bind host leaves the configured one in place.
pub proof fn law_blank_bind_host_keeps_the_current_one(current: Seq<char>, requested: String)
    requires
        trim(requested@).len() == 0,
    ensures
        next_bind_host(current, Some(requested)) == current,
{
}

/// Text made of characters of the basic multilingual plane is one UTF-16
/// unit per character, each unit the character's code.
pub proof fn law_utf16_of_bmp_text_is_one_unit_per_char(s: Seq<char>)
    requires
        forall|k: int| 0 <= k < s.len() ==> (#[trigger] s[k] as u32) < 0x10000,
    ensures
        utf16(s).len() == s.len(),
        forall|k: int| 0 <= k < s.len() ==> #[trigger] utf16(s)[k] == (s[k] as u32) as u16,
    decreases s.len(),
{
    if s.len() > 0 {
        let init = s.drop_last();
        assert forall|k: int| 0 <= k < init.len() implies (#[trigger] init[k] as u32) < 0x10000 by {
            assert(init[k] == s[k]);
        }
        law_utf16_of_bmp_text_is_one_unit_per_char(init);
        assert(s[s.len() - 1] == s.last());
        assert forall|k: int| 0 <= k < s.len() implies #[trigger] utf16(s)[k] == (s[k] as u32) as u16 by {
            if k < init.len() {
                assert(utf16(s)[k] == utf16(init)[k]);
                assert(init[k] == s[k]);
            } else {
                assert(utf16(s)[k] == crate::toast::utf16_units(s.last())[0]);
            }
        }
    }
}

/// Trimming twice is trimming once: a trimmed pairing code, device name or
/// thread id is stable.
pub proof fn law_trim_is_idempotent(s: Seq<char>)
    ensures
        trim(trim(s)) == trim(s),
{
    crate::text::lemma_trim_idempotent(s);
}

// ---------------------------------------------------------------------------
// Redaction.
// ---------------------------------------------------------------------------

/// Prefix redaction is idempotent: redacting a redacted text changes nothing,
/// for every prefix that the marker itself does not start with.
pub proof fn law_prefix_redaction_is_idempotent(s: Seq<char>, prefix: Seq<char>)
    requires
        !starts_with(redacted_marker(), prefix),
    ensures
        redact_prefix_like_spec(redact_prefix_like_spec(s, prefix), prefix) == redact_prefix_like_spec(s, prefix),
{
    lemma_redact_idempotent(s, prefix);
}

/// A text in which the prefix occurs nowhere comes back unchanged from prefix
/// redaction, whitespace included.
pub proof fn law_text_without_prefix_is_not_redacted(s: Seq<char>, prefix: Seq<char>)
    requires
        forall|i: int| !#[trigger] occurs_at(s, prefix, i),
    ensures
        redact_prefix_like_spec(s, prefix) == s,
{
    lemma_redact_without_prefix(s, prefix);
}

proof fn lemma_field_absent(s: Seq<char>, field: Seq<char>)
    requires
        forall|i: int| !#[trigger] occurs_at(s, quoted(field), i),
    ensures
        redact_json_field_spec(s, field) == s,
{
    lemma_find_from(s, quoted(field), 0);
}

/// Redaction is conservative: a text holding no `sk-`, no `rk-` and none of
/// the quoted credential field names comes back unchanged.
pub proof fn law_text_without_secret_markers_is_kept(s: Seq<char>)
    requires
        forall|i: int| !#[trigger] occurs_at(s, "sk-"@, i),
        forall|i: int| !#[trigger] occurs_at(s, "rk-"@, i),
        forall|i: int| !#[trigger] occurs_at(s, quoted("api_key"@), i),
        forall|i: int| !#[trigger] occurs_at(s, quoted("apiKey"@), i),
        forall|i: int| !#[trigger] occurs_at(s, quoted("access_token"@), i),
        forall|i: int| !#[trigger] occurs_at(s, quoted("accessToken"@), i),
        forall|i: int| !#[trigger] occurs_at(s, quoted("refresh_token"@), i),
        forall|i: int| !#[trigger] occurs_at(s, quoted("refreshToken"@), i),
    ensures
        maybe_redact_spec(s, true) == s,
{
    lemma_redact_without_prefix(s, "sk-"@);
    lemma_redact_without_prefix(s, "rk-"@);
    lemma_field_absent(s, "api_key"@);
    lemma_field_absent(s, "apiKey"@);
    lemma_field_absent(s, "access_token"@);
    lemma_field_absent(s, "accessToken"@);
    lemma_field_absent(s, "refresh_token"@);
    lemma_field_absent(s, "refreshToken"@);
}

// ---------------------------------------------------------------------------
// Export.
// ---------------------------------------------------------------------------

/// Raw reasoning never reaches the export: a raw-reasoning line is rendered
/// as the placeholder with its timestamp, whatever the options and the
/// messages before it, and it adds no recent message. (The rollout model
/// keeps no payload for these events, so two rollouts that differ only in
/// it are the same rollout here.)
pub proof fn law_raw_reasoning_is_only_a_placeholder(l: RolloutLine, recent: Seq<RecentView>, o: ExportMarkdownOptions)
    requires
        l.item matches RolloutItem::EventMsg(ev) && (ev is AgentReasoningRawContent || ev is AgentReasoningRawContentDelta),
    ensures
        line_text(l, recent, o) == Ok::<Seq<char>, Seq<char>>(
            "_Raw reasoning omitted ("@ + escape_inline(l.timestamp@) + ")_\n\n"@,
        ),
        line_recent(l, recent, o) == recent,
{
}

/// Whether the options leave out this kind of line: tool I/O, reasoning
/// summaries, turn contexts or token counts when they are not asked for.
pub open spec fn disabled_line(l: RolloutLine, o: ExportMarkdownOptions) -> bool {
    match l.item {
        RolloutItem::ResponseItem(_) => !o.include_tool_io,
        RolloutItem::TurnContext(_) => !o.include_turn_context,
        RolloutItem::EventMsg(EventMsg::AgentReasoning(_)) => !o.include_reasoning_summaries,
        RolloutItem::EventMsg(EventMsg::TokenCount(_)) => !o.include_token_usage,
        _ => false,
    }
}

/// The lines whose kind the options keep, in order.
pub open spec fn shown_lines(ls: Seq<RolloutLine>, o: ExportMarkdownOptions) -> Seq<RolloutLine> {
    ls.filter(|l: RolloutLine| !disabled_line(l, o))
}

proof fn lemma_shown_single(l: RolloutLine, o: ExportMarkdownOptions)
    ensures
        shown_lines(seq![l], o) == (if disabled_line(l, o) { Seq::<RolloutLine>::empty() } else { seq![l] }),
{
    reveal_with_fuel(Seq::filter, 2);
    assert(seq![l].drop_last() =~= Seq::<RolloutLine>::empty());
    if !disabled_line(l, o) {
        assert(Seq::<RolloutLine>::empty().push(l) =~= seq![l]);
    }
}

proof fn lemma_shown_split(a: Seq<RolloutLine>, b: Seq<RolloutLine>, o: ExportMarkdownOptions)
    ensures
        shown_lines(a + b, o) == shown_lines(a, o) + shown_lines(b, o),
{
    Seq::filter_distributes_over_add(a, b, |l: RolloutLine| !disabled_line(l, o));
}

proof fn lemma_disabled_line_is_silent(l: RolloutLine, recent: Seq<RecentView>, o: ExportMarkdownOptions)
    requires
        disabled_line(l, o),
    ensures
        line_text(l, recent, o) == Ok::<Seq<char>, Seq<char>>(seq![]),
        line_recent(l, recent, o) == recent,
{
}

proof fn lemma_transcript_shown(ls: Seq<RolloutLine>, recent: Seq<RecentView>, o: ExportMarkdownOptions)
    ensures
        transcript_spec(ls, recent, o) == transcript_spec(shown_lines(ls, o), recent, o),
    decreases ls.len(),
{
    if ls.len() > 0 {
        let l = ls[0];
        let rest = ls.drop_first();
        assert(ls =~= seq![l] + rest);
        lemma_shown_split(seq![l], rest, o);
        lemma_shown_single(l, o);
        let sr = shown_lines(rest, o);
        if disabled_line(l, o) {
            lemma_disabled_line_is_silent(l, recent, o);
            assert(shown_lines(ls, o) =~= sr);
            lemma_transcript_shown(rest, recent, o);
            match transcript_spec(rest, recent, o) {
                Ok(t) => assert(seq![] + t =~= t),
                Err(_) => {},
            }
        } else {
            let sl = shown_lines(ls, o);
            assert(sl =~= seq![l] + sr);
            assert(sl[0] == l);
            assert(sl.drop_first() =~= sr);
            lemma_transcript_shown(rest, line_recent(l, recent, o), o);
        }
    } else {
        reveal_with_fuel(Seq::filter, 1);
    }
}

proof fn lemma_summaries_shown(ls: Seq<RolloutLine>, o: ExportMarkdownOptions)
    ensures
        first_meta(ls) == first_meta(shown_lines(ls, o)),
        o.include_turn_context ==> last_turn_context(ls) == last_turn_context(shown_lines(ls, o)),
        o.include_token_usage ==> last_token_usage(ls) == last_token_usage(shown_lines(ls, o)),
    decreases ls.len(),
{
    if ls.len() > 0 {
        let init = ls.drop_last();
        let l = ls.last();
        assert(ls =~= init + seq![l]);
        lemma_shown_split(init, seq![l], o);
        lemma_shown_single(l, o);
        lemma_summaries_shown(init, o);
        let si = shown_lines(init, o);
        if disabled_line(l, o) {
            assert(shown_lines(ls, o) =~= si);
        } else {
            let sl = shown_lines(ls, o);
            assert(sl =~= si + seq![l]);
            assert(sl.drop_last() =~= si);
            assert(sl.last() == l);
        }
    } else {
        reveal_with_fuel(Seq::filter, 1);
    }
}

/// A kind of line that the options leave out leaves no trace: the export of
/// a rollout equals the export of the same rollout with every such line
/// removed.
pub proof fn law_disabled_kinds_leave_no_trace(
    ls: Seq<RolloutLine>,
    parse_errors: nat,
    exported_at: Seq<char>,
    rollout: Seq<char>,
    o: ExportMarkdownOptions,
)
    ensures
        export_spec(ls, parse_errors, exported_at, rollout, o) == export_spec(
            shown_lines(ls, o),
            parse_errors,
            exported_at,
            rollout,
            o,
        ),
{
    lemma_transcript_shown(ls, seq![], o);
    lemma_summaries_shown(ls, o);
}

// ---------------------------------------------------------------------------
// What prefix redaction does to each word.
// ---------------------------------------------------------------------------

proof fn lemma_utf8_len_add(a: Seq<char>, b: Seq<char>)
    ensures
        utf8_len(a + b) == utf8_len(a) + utf8_len(b),
    decreases b.len(),
{
    if b.len() > 0 {
        lemma_utf8_len_add(a, b.drop_last());
        assert((a + b).drop_last() =~= a + b.drop_last());
        assert((a + b).last() == b.last());
    } else {
        assert(a + b =~= a);
    }
}

/// A key-like word is hidden whatever follows the prefix: the prefix followed
/// by any text without whitespace that is more than eight bytes long, and
/// with no whitespace in the prefix either, comes out as `[REDACTED]`.
pub proof fn law_long_prefixed_word_is_redacted(prefix: Seq<char>, rest: Seq<char>)
    requires
        forall|k: int| 0 <= k < prefix.len() ==> !is_ws(#[trigger] prefix[k]),
        forall|k: int| 0 <= k < rest.len() ==> !is_ws(#[trigger] rest[k]),
        utf8_len(rest) > 8,
    ensures
        redact_prefix_like_spec(prefix + rest, prefix) == "[REDACTED]"@,
{
    let w = prefix + rest;
    assert forall|k: int| 0 <= k < w.len() implies !is_ws(#[trigger] w[k]) by {
        if k < prefix.len() {
            assert(w[k] == prefix[k]);
        } else {
            assert(w[k] == rest[k - prefix.len()]);
        }
    }
    lemma_first_ws_unique(w, w.len());
    assert(w.take(w.len() as int) =~= w);
    assert(w.take(prefix.len() as int) =~= prefix);
    lemma_utf8_len_add(prefix, rest);
}

/// A word that does not start with the prefix, or is at most eight bytes
/// longer than it, comes out unchanged.
pub proof fn law_other_words_are_kept(w: Seq<char>, prefix: Seq<char>)
    requires
        forall|k: int| 0 <= k < w.len() ==> !is_ws(#[trigger] w[k]),
        !(starts_with(w, prefix) && utf8_len(w) > utf8_len(prefix) + 8),
    ensures
        redact_prefix_like_spec(w, prefix) == w,
{
    lemma_first_ws_unique(w, w.len());
    assert(w.take(w.len() as int) =~= w);
}

/// Redaction works word by word: around a whitespace character, the text on
/// each side is redacted on its own and the whitespace stays.
pub proof fn law_redaction_splits_at_whitespace(a: Seq<char>, c: char, b: Seq<char>, prefix: Seq<char>)
    requires
        is_ws(c),
    ensures
        redact_prefix_like_spec(a + seq![c] + b, prefix) == redact_prefix_like_spec(a, prefix) + seq![c]
            + redact_prefix_like_spec(b, prefix),
    decreases a.len(),
{
    let s = a + seq![c] + b;
    lemma_first_ws_props(a);
    let i = first_ws(a);
    if i >= a.len() {
        assert forall|k: int| 0 <= k < a.len() implies !is_ws(#[trigger] s[k]) by {
            assert(s[k] == a[k]);
        }
        assert(s[a.len() as int] == c);
        lemma_first_ws_unique(s, a.len());
        assert(s.take(a.len() as int) =~= a);
        assert(a.take(a.len() as int) =~= a);
        assert(s.skip(a.len() as int + 1) =~= b);
    } else {
        assert forall|k: int| 0 <= k < i implies !is_ws(#[trigger] s[k]) by {
            assert(s[k] == a[k]);
        }
        assert(s[i as int] == a[i as int]);
        lemma_first_ws_unique(s, i);
        let a2 = a.skip(i as int + 1);
        assert(s.take(i as int) =~= a.take(i as int));
        assert(s.skip(i as int + 1) =~= a2 + seq![c] + b);
        law_redaction_splits_at_whitespace(a2, c, b, prefix);
        let w = redact_word(a.take(i as int), prefix);
        assert(redact_prefix_like_spec(s, prefix) =~= w + seq![a[i as int]] + (redact_prefix_like_spec(a2, prefix)
            + seq![c] + redact_prefix_like_spec(b, prefix)));
        assert(redact_prefix_like_spec(a, prefix) == w + seq![a[i as int]] + redact_prefix_like_spec(a2, prefix));
        assert(redact_prefix_like_spec(s, prefix) =~= redact_prefix_like_spec(a, prefix) + seq![c]
            + redact_prefix_like_spec(b, prefix));
    }
}

// ---------------------------------------------------------------------------
// Redaction of tool payloads.
// ---------------------------------------------------------------------------

/// A tool payload that parses as JSON is shown in a JSON fence around its
/// pretty form; with redaction on, the fence holds exactly what `maybe_redact`
/// makes of that pretty text, so its secrets are redacted like any text.
pub proof fn law_json_payload_is_redacted_like_text(input: Seq<char>, pretty: Seq<char>)
    requires
        trim(input).len() > 0,
        json_pretty(trim(input)) == Some(Some(pretty)),
    ensures
        json_or_text_spec(input, false) == "```json\n"@ + pretty + "\n```"@,
        json_or_text_spec(input, true) == "```json\n"@ + maybe_redact_spec(pretty, true) + "\n```"@,
{
}

/// A tool payload that does not parse as JSON is shown trimmed in a text
/// fence, redacted like any text when redaction is on.
pub proof fn law_text_payload_is_redacted_like_text(input: Seq<char>)
    requires
        trim(input).len() > 0,
        json_pretty(trim(input)) is None,
    ensures
        json_or_text_spec(input, false) == "```text\n"@ + trim(input) + "\n```"@,
        json_or_text_spec(input, true) == "```text\n"@ + maybe_redact_spec(trim(input), true) + "\n```"@,
{
}

// ---------------------------------------------------------------------------
// Letter case of pairing codes.
// ---------------------------------------------------------------------------

/// The upper-case form of a character: `a`..=`z` become `A`..=`Z`.
pub open spec fn upper_letter(c: char) -> char {
    if 'a' <= c <= 'z' {
        ((c as u32) - 32) as char
    } else {
        c
    }
}

/// A text with its ASCII letters in upper case.
pub open spec fn upper_text(s: Seq<char>) -> Seq<char> {
    s.map_values(|c: char| upper_letter(c))
}

/// ASCII case folding takes every letter to its lower-case form, whichever
/// case it is written in, and leaves every other character alone.
pub proof fn law_ascii_case_folding(c: char)
    ensures
        'a' <= c <= 'z' ==> ascii_lower(c) == c && ascii_lower(upper_letter(c)) == c,
        'A' <= c <= 'Z' ==> ascii_lower(c) as u32 == c as u32 + 32 && 'a' <= ascii_lower(c) <= 'z',
        !('A' <= c <= 'Z' || 'a' <= c <= 'z') ==> ascii_lower(c) == c,
        ascii_lower(upper_letter(c)) == ascii_lower(c),
{
}

proof fn lemma_upper_keeps_ws(c: char)
    ensures
        is_ws(upper_letter(c)) == is_ws(c),
{
}

proof fn lemma_leading_ws_upper(s: Seq<char>)
    ensures
        leading_ws(upper_text(s)) == leading_ws(s),
    decreases s.len(),
{
    if s.len() > 0 {
        lemma_upper_keeps_ws(s[0]);
        assert(upper_text(s).drop_first() =~= upper_text(s.drop_first()));
        lemma_leading_ws_upper(s.drop_first());
    }
}

proof fn lemma_trailing_ws_upper(s: Seq<char>)
    ensures
        trailing_ws(upper_text(s)) == trailing_ws(s),
    decreases s.len(),
{
    if s.len() > 0 {
        lemma_upper_keeps_ws(s.last());
        assert(upper_text(s).drop_last() =~= upper_text(s.drop_last()));
        lemma_trailing_ws_upper(s.drop_last());
    }
}

proof fn lemma_trim_upper(s: Seq<char>)
    ensures
        trim(upper_text(s)) == upper_text(trim(s)),
{
    lemma_leading_ws_upper(s);
    lemma_leading_ws_bounds(s);
    let t = trim_start(s);
    assert(trim_start(upper_text(s)) =~= upper_text(t));
    lemma_trailing_ws_upper(t);
    lemma_trailing_ws_bounds(t);
    assert(trim_end(upper_text(t)) =~= upper_text(trim_end(t)));
}

/// Pairing ignores the letter case of the code: a code written with its
/// letters in upper case gets the same answer as the code itself.
pub proof fn law_pairing_code_letter_case_is_ignored(pairing: Option<PairingCode>, now: i64, code: Seq<char>)
    ensures
        pairing_refusal(pairing, now, upper_text(code)) == pairing_refusal(pairing, now, code),
{
    lemma_trim_upper(code);
    let t = trim(code);
    let u = upper_text(t);
    match pairing {
        Some(p) => {
            let pc = p.code@;
            assert forall|k: int| 0 <= k < u.len() implies ascii_lower(#[trigger] u[k]) == ascii_lower(t[k]) by {
                law_ascii_case_folding(t[k]);
            }
            assert(eq_ignore_ascii_case(pc, u) == eq_ignore_ascii_case(pc, t));
        },
        None => {},
    }
}

// ---------------------------------------------------------------------------
// Token usage.
// ---------------------------------------------------------------------------

/// Whether `needle` occurs somewhere in `s`.
pub open spec fn contains_text(s: Seq<char>, needle: Seq<char>) -> bool {
    exists|i: int| occurs_at(s, needle, i)
}

/// The token-usage section shows each count of the usage on its own line,
/// under its own label: total, input and output tokens always, reasoning
/// tokens when there are any.
pub proof fn law_token_usage_lines(u: TokenUsage)
    ensures
        contains_text(token_usage_section(u), "- Total tokens: `"@ + dec_int(u.total_tokens as int) + "`\n"@),
        contains_text(token_usage_section(u), "- Input tokens: `"@ + dec_int(u.input_tokens as int) + "`\n"@),
        contains_text(token_usage_section(u), "- Output tokens: `"@ + dec_int(u.output_tokens as int) + "`\n"@),
        u.reasoning_output_tokens > 0 ==> contains_text(
            token_usage_section(u),
            "- Reasoning tokens: `"@ + dec_int(u.reasoning_output_tokens as int) + "`\n"@,
        ),
{
    let h = "## Token Usage (Latest)\n\n"@;
    let t = "- Total tokens: `"@ + dec_int(u.total_tokens as int) + "`\n"@;
    let i = "- Input tokens: `"@ + dec_int(u.input_tokens as int) + "`\n"@;
    let o = "- Output tokens: `"@ + dec_int(u.output_tokens as int) + "`\n"@;
    let r = "- Reasoning tokens: `"@ + dec_int(u.reasoning_output_tokens as int) + "`\n"@;
    let tail: Seq<char> = (if u.reasoning_output_tokens > 0 { r } else { seq![] }) + seq!['\n'];
    let s = token_usage_section(u);
    assert(s =~= h + t + i + o + tail);
    let a: int = h.len() as int;
    assert(s.subrange(a, a + t.len()) =~= t);
    assert(occurs_at(s, t, a));
    let b: int = a + t.len();
    assert(s.subrange(b, b + i.len()) =~= i);
    assert(occurs_at(s, i, b));
    let k: int = b + i.len();
    assert(s.subrange(k, k + o.len()) =~= o);
    assert(occurs_at(s, o, k));
    if u.reasoning_output_tokens > 0 {
        let m: int = k + o.len();
        assert(s.subrange(m, m + r.len()) =~= r);
        assert(occurs_at(s, r, m));
    }
}

/// With token usage asked for, the export's preamble holds the section of
/// the latest token count.
pub proof fn law_token_usage_section_in_preamble(
    ls: Seq<RolloutLine>,
    parse_errors: nat,
    exported_at: Seq<char>,
    rollout: Seq<char>,
    o: ExportMarkdownOptions,
    u: TokenUsage,
)
    requires
        o.include_token_usage,
        last_token_usage(ls) == Some(u),
    ensures
        contains_text(preamble_spec(ls, parse_errors, exported_at, rollout, o), token_usage_section(u)),
{
    let a = header_spec(exported_at, rollout, parse_errors) + meta_part(ls) + turn_context_part(ls, o);
    let sec = token_usage_section(u);
    let p = preamble_spec(ls, parse_errors, exported_at, rollout, o);
    assert(p =~= a + sec + "## Transcript\n\n"@);
    assert(p.subrange(a.len() as int, a.len() as int + sec.len()) =~= sec);
    assert(occurs_at(p, sec, a.len() as int));
}

} // verus!
