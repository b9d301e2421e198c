//! Windows toast notifications: the toast document, UTF-16 strings for the
//! Windows API, the Start-menu shortcut location, and the backend that falls
//! back to the terminal bell once toasts have failed.
use vstd::prelude::*;
use crate::paths::{joined, lemma_joined_not_verbatim, path_join, plain_component, verbatim_like};
use crate::text::{append_str, chars_of, string_of};

verus! {

/// The application user model id toasts are shown under.
pub const AUMID: &'static str = "com.openai.codex";

/// The Start-menu shortcut that carries the id.
pub const SHORTCUT_FILENAME: &'static str = "Codex.lnk";

/// The title line of every toast.
pub const TOAST_TITLE: &'static str = "Codex";

/// Element text with `&`, `<` and `>` escaped.
pub open spec fn xml_escape(s: Seq<char>) -> Seq<char>
    decreases s.len(),
{
    if s.len() == 0 {
        seq![]
    } else {
        xml_escape(s.drop_last()) + (if s.last() == '&' {
            "&amp;"@
        } else if s.last() == '<' {
            "&lt;"@
        } else if s.last() == '>' {
            "&gt;"@
        } else {
            seq![s.last()]
        })
    }
}

fn push_xml_escaped(out: &mut Vec<char>, s: &[char])
    ensures
        final(out)@ == old(out)@ + xml_escape(s@),
{
    let mut i: usize = 0;
    while i < s.len()
        invariant
            i <= s@.len(),
            out@ == old(out)@ + xml_escape(s@.take(i as int)),
        decreases s@.len() - i,
    {
        assert(s@.take(i + 1).drop_last() =~= s@.take(i as int));
        let c = s[i];
        if c == '&' {
            append_str(out, "&amp;");
        } else if c == '<' {
            append_str(out, "&lt;");
        } else if c == '>' {
            append_str(out, "&gt;");
        } else {
            out.push(c);
        }
        i = i + 1;
        assert(out@ =~= old(out)@ + xml_escape(s@.take(i as int)));
    }
    assert(s@.take(s@.len() as int) =~= s@);
}

/// Escapes what XML element text needs escaped.
pub fn escape_xml_text(input: &str) -> (r: String)
    ensures
        r@ == xml_escape(input@),
{
    let c = chars_of(input);
    let mut out: Vec<char> = Vec::new();
    push_xml_escaped(&mut out, c.as_slice());
    string_of(out.as_slice())
}

/// The toast document for a message.
pub open spec fn toast_xml_spec(message: Seq<char>) -> Seq<char> {
    "<toast><visual><binding template=\"ToastGeneric\"><text>"@ + TOAST_TITLE@ + "</text><text>"@
        + xml_escape(message) + "</text></binding></visual></toast>"@
}

/// The toast document: the title and the escaped message in a generic
/// binding.
pub fn toast_xml(message: &str) -> (r: String)
    ensures
        r@ == toast_xml_spec(message@),
{
    let mut out: Vec<char> = Vec::new();
    append_str(&mut out, "<toast><visual><binding template=\"ToastGeneric\"><text>");
    append_str(&mut out, TOAST_TITLE);
    append_str(&mut out, "</text><text>");
    let c = chars_of(message);
    push_xml_escaped(&mut out, c.as_slice());
    append_str(&mut out, "</text></binding></visual></toast>");
    string_of(out.as_slice())
}

// ---------------------------------------------------------------------------
// UTF-16.
// ---------------------------------------------------------------------------

/// The UTF-16 code units of a character.
pub open spec fn utf16_units(c: char) -> Seq<u16> {
    let u = c as u32;
    if u < 0x10000 {
        seq![u as u16]
    } else {
        let v = (u - 0x10000) as u32;
        seq![(0xD800 + v / 0x400) as u16, (0xDC00 + v % 0x400) as u16]
    }
}

/// The UTF-16 encoding of a text.
pub open spec fn utf16(s: Seq<char>) -> Seq<u16>
    decreases s.len(),
{
    if s.len() == 0 {
        seq![]
    } else {
        utf16(s.drop_last()) + utf16_units(s.last())
    }
}

/// The text in UTF-16 with a terminating zero, as Windows wide-string APIs
/// take it.
pub fn to_wide(value: &str) -> (r: Vec<u16>)
    ensures
        r@ == utf16(value@).push(0),
{
    let s = chars_of(value);
    let mut out: Vec<u16> = Vec::new();
    let mut i: usize = 0;
    while i < s.len()
        invariant
            i <= s@.len(),
            out@ == utf16(s@.take(i as int)),
        decreases s@.len() - i,
    {
        assert(s@.take(i + 1).drop_last() =~= s@.take(i as int));
        let u = s[i] as u32;
        if u < 0x10000 {
            out.push(u as u16);
        } else {
            let v = u - 0x10000;
            out.push((0xD800 + v / 0x400) as u16);
            out.push((0xDC00 + v % 0x400) as u16);
        }
        i = i + 1;
        assert(out@ =~= utf16(s@.take(i as int)));
    }
    assert(s@.take(s@.len() as int) =~= s@);
    out.push(0);
    out
}

// ---------------------------------------------------------------------------
// The Start-menu shortcut.
// ---------------------------------------------------------------------------

/// `Microsoft\Windows\Start Menu\Programs` under the roaming application
/// data directory.
pub fn start_menu_programs_dir(appdata: &str) -> (r: String)
    ensures
        !verbatim_like(appdata@) ==> exists|a: Seq<char>, b: Seq<char>, c: Seq<char>|
            joined(appdata@, "Microsoft"@, a) && joined(a, "Windows"@, b) && joined(b, "Start Menu"@, c)
                && joined(c, "Programs"@, r@),
{
    proof {
        reveal_strlit("Microsoft");
        reveal_strlit("Windows");
        reveal_strlit("Start Menu");
        reveal_strlit("Programs");
    }
    let a = path_join(appdata, "Microsoft");
    let b = path_join(a.as_str(), "Windows");
    let c = path_join(b.as_str(), "Start Menu");
    let r = path_join(c.as_str(), "Programs");
    proof {
        if !verbatim_like(appdata@) {
            assert(forall|k: int| 0 <= k < "Microsoft"@.len() ==> #[trigger] "Microsoft"@[k] != '?');
            lemma_joined_not_verbatim(appdata@, "Microsoft"@, a@);
            assert(forall|k: int| 0 <= k < "Windows"@.len() ==> #[trigger] "Windows"@[k] != '?');
            lemma_joined_not_verbatim(a@, "Windows"@, b@);
            assert(forall|k: int| 0 <= k < "Start Menu"@.len() ==> #[trigger] "Start Menu"@[k] != '?');
            lemma_joined_not_verbatim(b@, "Start Menu"@, c@);
        }
    }
    r
}

/// The shortcut file in the Start-menu programs directory.
pub fn start_menu_shortcut_path(programs_dir: &str) -> (r: String)
    ensures
        !verbatim_like(programs_dir@) ==> joined(programs_dir@, SHORTCUT_FILENAME@, r@),
{
    proof {
        reveal_strlit("Codex.lnk");
    }
    path_join(programs_dir, SHORTCUT_FILENAME)
}

// ---------------------------------------------------------------------------
// The backend.
// ---------------------------------------------------------------------------

/// What the caller does next to deliver a notification.
#[derive(Debug)]
pub enum NotifyStep {
    /// Show this toast document, then report how it went.
    ShowToast(String),
    /// Ring the terminal bell.
    Bell,
    /// Nothing more to do.
    Done,
}

/// Notifications through Windows toasts, falling back to the terminal bell
/// for good once a toast has failed.
#[derive(Debug)]
pub struct WindowsToastBackend {
    disabled: bool,
}

impl WindowsToastBackend {
    /// Whether toasts have been given up.
    pub closed spec fn toasts_disabled(&self) -> bool {
        self.disabled
    }

    /// A backend that still tries toasts.
    pub fn new() -> (r: Self)
        ensures
            !r.toasts_disabled(),
    {
        WindowsToastBackend { disabled: false }
    }

    /// Whether toasts have been given up.
    pub fn is_disabled(&self) -> (r: bool)
        ensures
            r == self.toasts_disabled(),
    {
        self.disabled
    }

    /// The first step of delivering `message`: the bell once toasts are
    /// given up, the toast document otherwise.
    pub fn notify(&mut self, message: &str) -> (r: NotifyStep)
        ensures
            final(self).toasts_disabled() == old(self).toasts_disabled(),
            old(self).toasts_disabled() ==> r is Bell,
            !old(self).toasts_disabled() ==> (r matches NotifyStep::ShowToast(x) && x@ == toast_xml_spec(
                message@,
            )),
    {
        if self.disabled {
            return NotifyStep::Bell;
        }
        NotifyStep::ShowToast(toast_xml(message))
    }

    /// Takes the outcome of showing a toast: done on success; on failure
    /// toasts are given up and the bell is rung instead.
    pub fn toast_finished(&mut self, succeeded: bool) -> (r: NotifyStep)
        ensures
            succeeded ==> r is Done && final(self).toasts_disabled() == old(self).toasts_disabled(),
            !succeeded ==> r is Bell && final(self).toasts_disabled(),
    {
        if succeeded {
            NotifyStep::Done
        } else {
            self.disabled = true;
            NotifyStep::Bell
        }
    }
}

} // verus!
