//! Best-effort secret redaction for exported transcripts: tokens with a key
//! prefix (`sk-`, `rk-`) and the string values of JSON-ish credential fields.
use vstd::prelude::*;
use crate::text::{
    append_chars, append_str, chars_of, find_char, find_chars, find_seq, first_ws, index_of, occurs_at, is_whitespace_char,
    is_ws, leading_ws, leading_ws_count, lemma_find_from, lemma_first_ws_unique, lemma_index_of,
    lemma_leading_ws_bounds, slice_chars, starts_with, starts_with_chars, string_of, utf8_len,
    utf8_len_chars,
};

verus! {

/// The text put in place of a secret.
pub open spec fn redacted_marker() -> Seq<char> {
    "[REDACTED]"@
}

/// A word is replaced when it starts with `prefix` and is more than eight
/// bytes longer than it.
pub open spec fn redact_word(w: Seq<char>, prefix: Seq<char>) -> Seq<char> {
    if starts_with(w, prefix) && utf8_len(w) > utf8_len(prefix) + 8 {
        redacted_marker()
    } else {
        w
    }
}

/// The text with each maximal run of non-whitespace characters passed
/// through `redact_word`; every whitespace character stays where it was.
pub open spec fn redact_prefix_like_spec(s: Seq<char>, prefix: Seq<char>) -> Seq<char>
    decreases s.len(),
{
    let i = first_ws(s);
    if i >= s.len() {
        redact_word(s, prefix)
    } else {
        redact_word(s.take(i as int), prefix) + seq![s[i as int]] + redact_prefix_like_spec(
            s.skip(i as int + 1),
            prefix,
        )
    }
}

proof fn lemma_first_ws_bound(s: Seq<char>)
    ensures
        first_ws(s) <= s.len(),
    decreases s.len(),
{
    if s.len() > 0 && !is_ws(s[0]) {
        lemma_first_ws_bound(s.drop_first());
    }
}

/// Whether no character of the text is whitespace.
pub open spec fn no_ws(s: Seq<char>) -> bool {
    forall|k: int| 0 <= k < s.len() ==> !is_ws(#[trigger] s[k])
}

/// `first_ws` is the position of the first whitespace character, or the
/// length when there is none.
pub proof fn lemma_first_ws_props(s: Seq<char>)
    ensures
        first_ws(s) <= s.len(),
        forall|k: int| 0 <= k < first_ws(s) ==> !is_ws(#[trigger] s[k]),
        first_ws(s) < s.len() ==> is_ws(s[first_ws(s) as int]),
    decreases s.len(),
{
    if s.len() > 0 && !is_ws(s[0]) {
        let t = s.drop_first();
        lemma_first_ws_props(t);
        assert forall|k: int| 0 <= k < first_ws(s) implies !is_ws(#[trigger] s[k]) by {
            if k > 0 {
                assert(s[k] == t[k - 1]);
            }
        }
        if first_ws(s) < s.len() {
            assert(s[first_ws(s) as int] == t[first_ws(t) as int]);
        }
    }
}

/// The marker holds no whitespace, so a redacted word holds none when the
/// word held none.
pub proof fn lemma_redact_word_no_ws(w: Seq<char>, prefix: Seq<char>)
    requires
        no_ws(w),
    ensures
        no_ws(redact_word(w, prefix)),
{
    reveal_strlit("[REDACTED]");
    let m = redacted_marker();
    assert forall|k: int| 0 <= k < m.len() implies !is_ws(#[trigger] m[k]) by {
        assert(m[k] as u32 >= 0x41);
    }
}

/// Redacting a text in which `prefix` occurs nowhere gives it back.
pub proof fn lemma_redact_without_prefix(s: Seq<char>, prefix: Seq<char>)
    requires
        forall|i: int| !#[trigger] occurs_at(s, prefix, i),
    ensures
        redact_prefix_like_spec(s, prefix) == s,
    decreases s.len(),
{
    lemma_first_ws_props(s);
    let i = first_ws(s);
    if starts_with(s.take(i as int), prefix) {
        assert(s.take(i as int).take(prefix.len() as int) =~= s.subrange(0, prefix.len() as int));
        assert(occurs_at(s, prefix, 0));
    }
    if i < s.len() {
        let t = s.skip(i as int + 1);
        assert forall|j: int| !#[trigger] occurs_at(t, prefix, j) by {
            if occurs_at(t, prefix, j) {
                assert(s.subrange(j + i + 1, j + i + 1 + prefix.len()) =~= t.subrange(j, j + prefix.len()));
                assert(occurs_at(s, prefix, j + i + 1));
            }
        }
        lemma_redact_without_prefix(t, prefix);
        assert(s.take(i as int) + seq![s[i as int]] + t =~= s);
    } else {
        assert(s.take(i as int) =~= s);
    }
}

/// Redacting twice is redacting once, provided the marker is not itself a
/// word that gets redacted.
pub proof fn lemma_redact_idempotent(s: Seq<char>, prefix: Seq<char>)
    requires
        redact_word(redacted_marker(), prefix) == redacted_marker(),
    ensures
        redact_prefix_like_spec(redact_prefix_like_spec(s, prefix), prefix) == redact_prefix_like_spec(s, prefix),
    decreases s.len(),
{
    lemma_first_ws_props(s);
    let i = first_ws(s);
    let w = s.take(i as int);
    let a = redact_word(w, prefix);
    assert(no_ws(w)) by {
        assert forall|k: int| 0 <= k < w.len() implies !is_ws(#[trigger] w[k]) by {
            assert(w[k] == s[k]);
        }
    }
    lemma_redact_word_no_ws(w, prefix);
    assert(redact_word(a, prefix) == a);
    let r = redact_prefix_like_spec(s, prefix);
    if i >= s.len() {
        assert(w =~= s);
        assert(r == a);
        lemma_first_ws_unique(a, a.len());
        assert(a.take(a.len() as int) =~= a);
    } else {
        let t = s.skip(i as int + 1);
        let big_r = redact_prefix_like_spec(t, prefix);
        lemma_redact_idempotent(t, prefix);
        assert(r == a + seq![s[i as int]] + big_r);
        assert forall|k: int| 0 <= k < a.len() implies !is_ws(#[trigger] r[k]) by {
            assert(r[k] == a[k]);
        }
        assert(r[a.len() as int] == s[i as int]);
        lemma_first_ws_unique(r, a.len());
        assert(r.take(a.len() as int) =~= a);
        assert(r.skip(a.len() as int + 1) =~= big_r);
    }
}

fn push_redacted_word(out: &mut Vec<char>, w: &[char], prefix: &[char])
    ensures
        final(out)@ == old(out)@ + redact_word(w@, prefix@),
{
    let wl = utf8_len_chars(w);
    let pl = utf8_len_chars(prefix);
    if starts_with_chars(w, prefix) && wl > pl && wl - pl > 8 {
        append_str(out, "[REDACTED]");
    } else {
        append_chars(out, w);
    }
}

/// Replaces each whitespace-delimited token of `input` that starts with
/// `prefix` and is more than eight bytes longer than it by `[REDACTED]`,
/// keeping the whitespace between tokens.
pub fn redact_prefix_like_chars(input: &[char], prefix: &[char]) -> (r: Vec<char>)
    ensures
        r@ == redact_prefix_like_spec(input@, prefix@),
{
    let mut out: Vec<char> = Vec::new();
    let mut start: usize = 0;
    let mut i: usize = 0;
    assert(input@.skip(0) =~= input@);
    while i < input.len()
        invariant
            start <= i <= input@.len(),
            forall|k: int| start <= k < i ==> !is_ws(#[trigger] input@[k]),
            out@ + redact_prefix_like_spec(input@.skip(start as int), prefix@)
                == redact_prefix_like_spec(input@, prefix@),
        decreases input@.len() - i,
    {
        if is_whitespace_char(input[i]) {
            let word = slice_chars(input, start, i);
            let ghost rest = input@.skip(start as int);
            proof {
                assert forall|k: int| 0 <= k < i - start implies !is_ws(#[trigger] rest[k]) by {
                    assert(rest[k] == input@[start + k]);
                }
                assert(rest[i - start] == input@[i as int]);
                lemma_first_ws_unique(rest, (i - start) as nat);
                assert(rest.take(i - start) =~= word@);
                assert(rest.skip(i - start + 1) =~= input@.skip(i + 1));
            }
            push_redacted_word(&mut out, word.as_slice(), prefix);
            out.push(input[i]);
            start = i + 1;
        }
        i = i + 1;
    }
    let word = slice_chars(input, start, input.len());
    let ghost rest = input@.skip(start as int);
    proof {
        assert forall|k: int| 0 <= k < rest.len() implies !is_ws(#[trigger] rest[k]) by {
            assert(rest[k] == input@[start + k]);
        }
        lemma_first_ws_unique(rest, rest.len());
        assert(word@ =~= rest);
    }
    push_redacted_word(&mut out, word.as_slice(), prefix);
    out
}

/// `redact_prefix_like` on strings.
pub fn redact_prefix_like(input: &str, prefix: &str) -> (r: String)
    ensures
        r@ == redact_prefix_like_spec(input@, prefix@),
{
    let s = chars_of(input);
    let p = chars_of(prefix);
    let r = redact_prefix_like_chars(s.as_slice(), p.as_slice());
    string_of(r.as_slice())
}

/// The quoted field name `"field"` that `redact_json_field_value` looks for.
pub open spec fn quoted(field: Seq<char>) -> Seq<char> {
    seq!['"'] + field + seq!['"']
}

/// Redacts the string value of the first `"field": "..."` in `s`.
///
/// After the first `"field"`, the first `':'` and the whitespace after it,
/// a value that opens with a quote is replaced by `"[REDACTED]"` up to and
/// including its closing quote; text after the closing quote is kept, and
/// when there is no closing quote nothing follows the marker. In every
/// other case the text is returned unchanged.
pub open spec fn redact_json_field_spec(s: Seq<char>, field: Seq<char>) -> Seq<char> {
    let needle = quoted(field);
    match find_seq(s, needle) {
        None => s,
        Some(pos) => {
            let rest = s.skip(pos + needle.len() as int);
            let c = index_of(rest, ':');
            if c >= rest.len() {
                s
            } else {
                let rest2 = rest.skip(c as int + 1);
                let w = leading_ws(rest2);
                let rt = rest2.skip(w as int);
                let k = pos + needle.len() + c + 1 + w;
                if rt.len() > 0 && rt[0] == '"' {
                    let stripped = rt.skip(1);
                    let q = index_of(stripped, '"');
                    s.take(k as int) + seq!['"'] + redacted_marker() + (if q < stripped.len() {
                        seq!['"'] + stripped.skip(q as int + 1)
                    } else {
                        seq![]
                    })
                } else {
                    s
                }
            }
        },
    }
}

/// Redacts the string value of the first `"field": "..."` in the characters.
pub fn redact_json_field_value_chars(input: &[char], field: &[char]) -> (r: Vec<char>)
    ensures
        r@ == redact_json_field_spec(input@, field@),
{
    let mut needle: Vec<char> = Vec::new();
    needle.push('"');
    append_chars(&mut needle, field);
    needle.push('"');
    assert(needle@ =~= quoted(field@));
    let found = find_chars(input, needle.as_slice());
    let pos = match found {
        None => {
            return slice_chars(input, 0, input.len());
        },
        Some(p) => p,
    };
    proof {
        lemma_find_from(input@, needle@, 0);
    }
    let total = input.len();
    assert(pos + needle@.len() <= total);
    let after = pos + needle.len();
    let rest = slice_chars(input, after, input.len());
    assert(rest@ =~= input@.skip(after as int));
    let colon = find_char(rest.as_slice(), ':');
    proof {
        lemma_index_of(rest@, ':');
    }
    let c = match colon {
        None => {
            return slice_chars(input, 0, input.len());
        },
        Some(c) => c,
    };
    let rest2 = slice_chars(rest.as_slice(), c + 1, rest.len());
    assert(rest2@ =~= rest@.skip(c + 1));
    let w = leading_ws_count(rest2.as_slice());
    proof {
        lemma_leading_ws_bounds(rest2@);
    }
    let k = after + c + 1 + w;
    if w < rest2.len() && rest2[w] == '"' {
        let mut out = slice_chars(input, 0, k);
        out.push('"');
        append_str(&mut out, "[REDACTED]");
        let stripped = slice_chars(rest2.as_slice(), w + 1, rest2.len());
        let ghost rt = rest2@.skip(w as int);
        assert(stripped@ =~= rt.skip(1));
        let q = find_char(stripped.as_slice(), '"');
        proof {
            lemma_index_of(stripped@, '"');
        }
        match q {
            Some(q) => {
                out.push('"');
                let tail = slice_chars(stripped.as_slice(), q + 1, stripped.len());
                append_chars(&mut out, tail.as_slice());
                assert(tail@ =~= stripped@.skip(q + 1));
            },
            None => {},
        }
        assert(out@ =~= redact_json_field_spec(input@, field@));
        out
    } else {
        slice_chars(input, 0, input.len())
    }
}

/// `redact_json_field_value` on strings.
pub fn redact_json_field_value(input: &str, field: &str) -> (r: String)
    ensures
        r@ == redact_json_field_spec(input@, field@),
{
    let s = chars_of(input);
    let f = chars_of(field);
    let r = redact_json_field_value_chars(s.as_slice(), f.as_slice());
    string_of(r.as_slice())
}

} // verus!
