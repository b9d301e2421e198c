//! Locations under the Codex home directory and the hub's HTTP endpoint.
use vstd::prelude::*;
use crate::text::{append_str, chars_of, dec_nat, push_decimal, string_of};

verus! {

/// A path component that `Path::join` appends rather than substitutes: not
/// empty, not `.` or `..`, and free of separators and drive colons.
pub open spec fn plain_component(name: Seq<char>) -> bool {
    &&& name.len() > 0
    &&& !(name.len() == 1 && name[0] == '.')
    &&& !(name.len() == 2 && name[0] == '.' && name[1] == '.')
    &&& forall|k: int| 0 <= k < name.len() ==> #[trigger] name[k] != '/' && name[k] != '\\' && name[k] != ':'
}

/// A path that starts as a Windows verbatim path (`\\?\...`) could: on such
/// a base `Path::join` rebuilds the path from its components.
pub open spec fn verbatim_like(path: Seq<char>) -> bool {
    path.len() >= 3 && path[0] == '\\' && path[1] == '\\' && path[2] == '?'
}

/// What joining a plain component to a base gives, as `Path::push` documents
/// it on every platform: an empty base gives the component; a base ending in
/// `/` gets the component appended directly; a base ending in any other
/// character but `\` or `:` gets one separator (`/`, or `\` on Windows)
/// and then the component. After `\` or `:` the platforms differ, so there
/// the result is the base, possibly one separator, and the component.
pub open spec fn joined(base: Seq<char>, name: Seq<char>, res: Seq<char>) -> bool {
    if base.len() == 0 {
        res == name
    } else if base.last() == '/' {
        res == base + name
    } else if base.last() == '\\' || base.last() == ':' {
        ||| res == base + name
        ||| res == base + seq!['/'] + name
        ||| res == base + seq!['\\'] + name
    } else {
        ||| res == base + seq!['/'] + name
        ||| res == base + seq!['\\'] + name
    }
}

/// Calls `std::path::Path::join` on a UTF-8 base and a plain component.
/// Claims: unless the base may be a verbatim path, the result is `joined`:
/// a separator comes between a base that does not end in a separator or `:`
/// and the component. Which separator (`/` or `\`) depends on the platform
/// and is not stated. Nothing is claimed for a verbatim base, which
/// `Path::join` normalizes.
#[verifier::external_body]
pub(crate) fn path_join(base: &str, name: &str) -> (res: String)
    requires
        plain_component(name@),
    ensures
        !verbatim_like(base@) ==> joined(base@, name@, res@),
{
    std::path::Path::new(base).join(name).to_string_lossy().into_owned()
}

/// Joining a component without `?` to a base that is not verbatim-like gives
/// a path that is not verbatim-like either.
pub proof fn lemma_joined_not_verbatim(base: Seq<char>, name: Seq<char>, res: Seq<char>)
    requires
        !verbatim_like(base),
        joined(base, name, res),
        name.len() >= 2,
        forall|k: int| 0 <= k < name.len() ==> #[trigger] name[k] != '?',
    ensures
        !verbatim_like(res),
{
    if res.len() >= 3 {
        if base.len() >= 3 {
            assert(res[0] == base[0] && res[1] == base[1] && res[2] == base[2]);
        } else {
            assert(res[2] != '?') by {
                if res == base + name {
                    assert(res[2] == name[2 - base.len()]);
                } else if res == base + seq!['/'] + name {
                    if base.len() == 2 {
                        assert(res[2] == '/');
                    } else {
                        assert(res[2] == name[1 - base.len()]);
                    }
                } else {
                    if base.len() == 2 {
                        assert(res[2] == '\\');
                    } else {
                        assert(res[2] == name[1 - base.len()]);
                    }
                }
            }
        }
    }
}

/// The hub's runtime directory under the Codex home.
pub fn runtime_dir(codex_home: &str) -> (r: String)
    ensures
        !verbatim_like(codex_home@) ==> joined(codex_home@, "hub"@, r@),
        !verbatim_like(codex_home@) ==> !verbatim_like(r@),
{
    proof {
        reveal_strlit("hub");
    }
    let r = path_join(codex_home, "hub");
    proof {
        if !verbatim_like(codex_home@) {
            lemma_joined_not_verbatim(codex_home@, "hub"@, r@);
        }
    }
    r
}

/// The hub's state file: `state.json` in the runtime directory.
pub fn state_path(codex_home: &str) -> (r: String)
    ensures
        !verbatim_like(codex_home@) ==> exists|dir: Seq<char>|
            joined(codex_home@, "hub"@, dir) && joined(dir, "state.json"@, r@),
{
    let dir = runtime_dir(codex_home);
    proof {
        reveal_strlit("state.json");
        reveal_strlit("hub");
    }
    path_join(dir.as_str(), "state.json")
}

/// `http://{host}:{port}`.
pub open spec fn endpoint_spec(host: Seq<char>, port: u16) -> Seq<char> {
    "http://"@ + host + seq![':'] + dec_nat(port as nat)
}

/// The base URL of a hub listening on `host` and `port`.
pub fn endpoint(host: &str, port: u16) -> (r: String)
    ensures
        r@ == endpoint_spec(host@, port),
{
    let mut out: Vec<char> = Vec::new();
    append_str(&mut out, "http://");
    append_str(&mut out, host);
    out.push(':');
    push_decimal(&mut out, port as u64);
    string_of(out.as_slice())
}

} // verus!
