//! Project memories: one Markdown file per working directory under the Codex
//! home, named by the SHA-1 of the directory.
use vstd::prelude::*;
use sha1::Digest;
use crate::paths::{joined, lemma_joined_not_verbatim, path_join, plain_component, verbatim_like};
use crate::text::{
    append_chars, append_str, chars_of, digit_char, hex_byte, hex_bytes, lemma_hex_bytes_len, push_hex, string_of,
    trim, trim_chars,
};

verus! {

/// The directory of project memories under the Codex home.
pub const PROJECT_MEMORIES_DIR: &'static str = "project-memories";

/// The SHA-1 digest of a byte string, as the `sha1` crate computes it.
pub uninterp spec fn sha1_of(data: Seq<u8>) -> Seq<u8>;

/// Hashes the bytes with `sha1::Sha1` (`new`, `update`, `finalize`).
/// Claims: the digest is `sha1_of` the input and is 20 bytes long (the
/// crate's output size is `U20`).
#[verifier::external_body]
fn sha1_digest(data: &[u8]) -> (r: Vec<u8>)
    ensures
        r@ == sha1_of(data@),
        r@.len() == 20,
{
    let mut hasher = sha1::Sha1::new();
    hasher.update(data);
    hasher.finalize().to_vec()
}

/// Whether the character is a lower-case hexadecimal digit.
pub open spec fn is_hex_digit(c: char) -> bool {
    ('0' <= c <= '9') || ('a' <= c <= 'f')
}

proof fn lemma_hex_bytes_digits(bs: Seq<u8>)
    ensures
        forall|k: int| 0 <= k < hex_bytes(bs).len() ==> is_hex_digit(#[trigger] hex_bytes(bs)[k]),
    decreases bs.len(),
{
    if bs.len() > 0 {
        lemma_hex_bytes_digits(bs.drop_last());
        let b = bs.last();
        let h = hex_byte(b);
        assert(is_hex_digit(h[0]) && is_hex_digit(h[1])) by {
            assert(b / 16 < 16);
            assert(b % 16 < 16);
        }
        let prev = hex_bytes(bs.drop_last());
        assert forall|k: int| 0 <= k < hex_bytes(bs).len() implies is_hex_digit(#[trigger] hex_bytes(bs)[k]) by {
            if k < prev.len() {
                assert(hex_bytes(bs)[k] == prev[k]);
            } else {
                assert(hex_bytes(bs)[k] == h[k - prev.len()]);
            }
        }
    }
}

/// The memory key of a directory: the lower-case hex SHA-1 of its
/// (normalized) path text in UTF-8.
pub open spec fn memory_key_spec(normalized_cwd: Seq<char>) -> Seq<char> {
    hex_bytes(sha1_of(vstd::utf8::encode_utf8(normalized_cwd)))
}

/// The key that names a directory's memory file.
pub fn memory_key(normalized_cwd: &str) -> (r: String)
    ensures
        r@ == memory_key_spec(normalized_cwd@),
        r@.len() == 40,
        forall|k: int| 0 <= k < r@.len() ==> is_hex_digit(#[trigger] r@[k]),
{
    let digest = sha1_digest(normalized_cwd.as_bytes());
    let mut out: Vec<char> = Vec::new();
    push_hex(&mut out, digest.as_slice());
    proof {
        lemma_hex_bytes_digits(digest@);
        lemma_hex_bytes_len(digest@);
    }
    string_of(out.as_slice())
}

/// The file name of a directory's memory: its key and `.md`.
pub open spec fn memory_file_name(normalized_cwd: Seq<char>) -> Seq<char> {
    memory_key_spec(normalized_cwd) + ".md"@
}

/// Where the memory of a working directory lives: `<key>.md` in the
/// project-memories directory of the Codex home. `normalized_cwd` is the
/// directory as normalized for comparison.
pub fn project_memory_path(codex_home: &str, normalized_cwd: &str) -> (r: String)
    ensures
        !verbatim_like(codex_home@) ==> exists|dir: Seq<char>|
            joined(codex_home@, PROJECT_MEMORIES_DIR@, dir) && joined(dir, memory_file_name(normalized_cwd@), r@),
        memory_key_spec(normalized_cwd@).len() == 40,
        forall|k: int|
            0 <= k < memory_key_spec(normalized_cwd@).len() ==> is_hex_digit(
                #[trigger] memory_key_spec(normalized_cwd@)[k],
            ),
{
    let key = memory_key(normalized_cwd);
    let mut name = chars_of(key.as_str());
    append_str(&mut name, ".md");
    proof {
        reveal_strlit(".md");
        reveal_strlit("project-memories");
        assert forall|k: int| 0 <= k < name@.len() implies #[trigger] name@[k] != '/' && name@[k] != '\\' && name@[k] != ':' by {
            if k < key@.len() {
                assert(is_hex_digit(key@[k]));
                assert(name@[k] == key@[k]);
            }
        }
    }
    let file = string_of(name.as_slice());
    let dir = path_join(codex_home, PROJECT_MEMORIES_DIR);
    proof {
        if !verbatim_like(codex_home@) {
            assert(forall|k: int| 0 <= k < PROJECT_MEMORIES_DIR@.len() ==> #[trigger] PROJECT_MEMORIES_DIR@[k] != '?');
            lemma_joined_not_verbatim(codex_home@, PROJECT_MEMORIES_DIR@, dir@);
        }
    }
    path_join(dir.as_str(), file.as_str())
}

/// What a memory file holds once read: its trimmed text, `None` when blank.
pub fn memory_text_from_file(text: &str) -> (r: Option<String>)
    ensures
        trim(text@).len() == 0 ==> r is None,
        trim(text@).len() > 0 ==> (r matches Some(t) && t@ == trim(text@)),
{
    let c = chars_of(text);
    let t = trim_chars(c.as_slice());
    if t.len() == 0 {
        None
    } else {
        Some(string_of(t.as_slice()))
    }
}

/// The memory document written after a compaction.
pub open spec fn memory_document_spec(cwd: Seq<char>, updated_at: Seq<char>, summary: Seq<char>) -> Seq<char> {
    "# Project Memory\n\n- cwd: `"@ + cwd + "`\n- updated_at: `"@ + updated_at + "`\n\n---\n\n"@
        + trim(summary) + seq!['\n']
}

/// The memory document for a compaction summary: a heading, the directory,
/// the update time and the trimmed summary.
pub fn project_memory_document(cwd_display: &str, updated_at: &str, summary_text: &str) -> (r: String)
    ensures
        r@ == memory_document_spec(cwd_display@, updated_at@, summary_text@),
{
    let mut out: Vec<char> = Vec::new();
    append_str(&mut out, "# Project Memory\n\n- cwd: `");
    append_str(&mut out, cwd_display);
    append_str(&mut out, "`\n- updated_at: `");
    append_str(&mut out, updated_at);
    append_str(&mut out, "`\n\n---\n\n");
    let s = chars_of(summary_text);
    let t = trim_chars(s.as_slice());
    append_chars(&mut out, t.as_slice());
    out.push('\n');
    string_of(out.as_slice())
}

} // verus!
