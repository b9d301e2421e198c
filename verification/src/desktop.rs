//! The desktop companion's placeholder commands.
use vstd::prelude::*;
use crate::text::{append_str, string_of};

verus! {

/// What a placeholder command answers.
#[derive(Debug)]
pub struct PlaceholderResponse {
    pub ok: bool,
    pub message: String,
}

fn response(ok: bool, message: &str) -> (r: PlaceholderResponse)
    ensures
        r.ok == ok,
        r.message@ == message@,
{
    let mut out: Vec<char> = Vec::new();
    append_str(&mut out, message);
    PlaceholderResponse { ok, message: string_of(out.as_slice()) }
}

/// Clipboard paste is not wired yet.
pub fn paste_from_clipboard_placeholder() -> (r: PlaceholderResponse)
    ensures
        !r.ok,
        r.message@ == "Clipboard paste placeholder: wire native clipboard integration."@,
{
    response(false, "Clipboard paste placeholder: wire native clipboard integration.")
}

/// Window capture is not wired yet.
pub fn screenshot_placeholder() -> (r: PlaceholderResponse)
    ensures
        !r.ok,
        r.message@ == "Screenshot placeholder: wire window capture integration."@,
{
    response(false, "Screenshot placeholder: wire window capture integration.")
}

/// Acknowledges a notification request, echoing its title and body.
pub fn notification_placeholder(title: &str, body: &str) -> (r: PlaceholderResponse)
    ensures
        r.ok,
        r.message@ == "Notification placeholder received title='"@ + title@ + "' body='"@ + body@
            + "'."@,
{
    let mut out: Vec<char> = Vec::new();
    append_str(&mut out, "Notification placeholder received title='");
    append_str(&mut out, title);
    append_str(&mut out, "' body='");
    append_str(&mut out, body);
    append_str(&mut out, "'.");
    PlaceholderResponse { ok: true, message: string_of(out.as_slice()) }
}

} // verus!
