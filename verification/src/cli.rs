//! The `codex hub` command line: its commands and the lines each command
//! prints from the hub's answers.
use vstd::prelude::*;
use crate::hub::{opt_view, HubStatus};
use crate::hub_state::{PairingCode, DEFAULT_HOST, DEFAULT_PORT};
use crate::paths::{endpoint, endpoint_spec};
use crate::text::{append_str, dec_int, dec_nat, push_decimal, push_decimal_i64, string_of};

verus! {

/// `codex hub`.
#[derive(Debug)]
pub struct HubCli {
    pub subcommand: HubSubcommand,
}

/// The subcommands of `codex hub`.
#[derive(Debug)]
pub enum HubSubcommand {
    /// Start the local Codex hub daemon.
    Start(HubStartCommand),
    /// Stop the local Codex hub daemon.
    Stop,
    /// Show status for the local Codex hub daemon.
    Status,
    /// Generate a pairing code for companion clients.
    Pair,
    /// Internal: run the hub daemon process.
    Daemon(HubDaemonCommand),
}

/// `codex hub start`.
#[derive(Debug)]
pub struct HubStartCommand {
    /// Loopback host/IP the hub should bind to.
    pub host: String,
    /// Local TCP port for hub control and streaming.
    pub port: u16,
}

/// `codex hub daemon`.
#[derive(Debug)]
pub struct HubDaemonCommand {
    /// Explicit codex home path where daemon state is persisted.
    pub codex_home: String,
    /// Host/IP to bind.
    pub host: String,
    /// Port to bind (`0` allows OS-assigned port).
    pub port: u16,
    /// Shared admin token used for stop/pair commands.
    pub auth_token: String,
}

fn line(parts: Vec<char>) -> (r: String)
    ensures
        r@ == parts@,
{
    string_of(parts.as_slice())
}

/// The endpoint a status names, or the given fallback address.
pub open spec fn endpoint_or(e: Option<String>, host: Seq<char>, port: u16) -> Seq<char> {
    match opt_view(e) {
        Some(x) => x,
        None => endpoint_spec(host, port),
    }
}

fn push_endpoint_or(out: &mut Vec<char>, e: &Option<String>, host: &str, port: u16)
    ensures
        final(out)@ == old(out)@ + endpoint_or(*e, host@, port),
{
    match e {
        Some(x) => append_str(out, x.as_str()),
        None => {
            let d = endpoint(host, port);
            append_str(out, d.as_str());
        },
    }
}

/// What `start` prints: the endpoint the hub runs at, or the requested
/// address when the status names none.
pub fn start_report(status: &HubStatus, host: &str, port: u16) -> (r: String)
    ensures
        r@ == "Codex hub started at "@ + endpoint_or(status.endpoint, host@, port),
{
    let mut out: Vec<char> = Vec::new();
    append_str(&mut out, "Codex hub started at ");
    push_endpoint_or(&mut out, &status.endpoint, host, port);
    line(out)
}

/// The views of a list of lines.
pub open spec fn line_views(ls: Seq<String>) -> Seq<Seq<char>> {
    ls.map_values(|l: String| l@)
}

/// What `stop` prints.
pub open spec fn stop_report_spec(s: HubStatus) -> Seq<Seq<char>> {
    if s.running {
        match opt_view(s.endpoint) {
            Some(e) => seq!["Codex hub is still running at "@ + e],
            None => seq!["Codex hub is still running."@],
        }
    } else {
        seq!["Codex hub stopped."@] + match opt_view(s.reason) {
            Some(r) => seq!["Details: "@ + r],
            None => seq![],
        }
    }
}

/// The lines `stop` prints for the status it got back.
pub fn stop_report(status: &HubStatus) -> (r: Vec<String>)
    ensures
        line_views(r@) == stop_report_spec(*status),
{
    let mut r: Vec<String> = Vec::new();
    if status.running {
        let mut out: Vec<char> = Vec::new();
        match &status.endpoint {
            Some(e) => {
                append_str(&mut out, "Codex hub is still running at ");
                append_str(&mut out, e.as_str());
            },
            None => append_str(&mut out, "Codex hub is still running."),
        }
        r.push(line(out));
    } else {
        let mut first: Vec<char> = Vec::new();
        append_str(&mut first, "Codex hub stopped.");
        r.push(line(first));
        match &status.reason {
            Some(reason) => {
                let mut out: Vec<char> = Vec::new();
                append_str(&mut out, "Details: ");
                append_str(&mut out, reason.as_str());
                r.push(line(out));
            },
            None => {},
        }
    }
    assert(line_views(r@) =~= stop_report_spec(*status));
    r
}

/// What `status` prints.
pub open spec fn status_report_spec(s: HubStatus) -> Seq<Seq<char>> {
    if s.running {
        seq!["Codex hub is running at "@ + endpoint_or(s.endpoint, DEFAULT_HOST@, DEFAULT_PORT)]
            + match s.pid {
            Some(p) => seq!["PID: "@ + dec_nat(p as nat)],
            None => seq![],
        } + match s.started_at {
            Some(t) => seq!["Started at (unix seconds): "@ + dec_int(t as int)],
            None => seq![],
        }
    } else {
        seq!["Codex hub is not running."@] + match opt_view(s.endpoint) {
            Some(e) => seq!["Last known endpoint: "@ + e],
            None => seq![],
        } + match opt_view(s.reason) {
            Some(r) => seq!["Details: "@ + r],
            None => seq![],
        }
    }
}

/// The lines `status` prints.
pub fn status_report(status: &HubStatus) -> (r: Vec<String>)
    ensures
        line_views(r@) == status_report_spec(*status),
{
    let mut r: Vec<String> = Vec::new();
    if status.running {
        let mut first: Vec<char> = Vec::new();
        append_str(&mut first, "Codex hub is running at ");
        push_endpoint_or(&mut first, &status.endpoint, DEFAULT_HOST, DEFAULT_PORT);
        r.push(line(first));
        match status.pid {
            Some(p) => {
                let mut out: Vec<char> = Vec::new();
                append_str(&mut out, "PID: ");
                push_decimal(&mut out, p as u64);
                r.push(line(out));
            },
            None => {},
        }
        match status.started_at {
            Some(t) => {
                let mut out: Vec<char> = Vec::new();
                append_str(&mut out, "Started at (unix seconds): ");
                push_decimal_i64(&mut out, t);
                r.push(line(out));
            },
            None => {},
        }
    } else {
        let mut first: Vec<char> = Vec::new();
        append_str(&mut first, "Codex hub is not running.");
        r.push(line(first));
        match &status.endpoint {
            Some(e) => {
                let mut out: Vec<char> = Vec::new();
                append_str(&mut out, "Last known endpoint: ");
                append_str(&mut out, e.as_str());
                r.push(line(out));
            },
            None => {},
        }
        match &status.reason {
            Some(reason) => {
                let mut out: Vec<char> = Vec::new();
                append_str(&mut out, "Details: ");
                append_str(&mut out, reason.as_str());
                r.push(line(out));
            },
            None => {},
        }
    }
    assert(line_views(r@) =~= status_report_spec(*status));
    r
}

/// The lines `pair` prints: the code and when it expires.
pub fn pair_report(code: &PairingCode) -> (r: Vec<String>)
    ensures
        line_views(r@) == seq![
            "Pairing code: "@ + code.code@,
            "Expires at (unix seconds): "@ + dec_int(code.expires_at as int),
        ],
{
    let mut a: Vec<char> = Vec::new();
    append_str(&mut a, "Pairing code: ");
    append_str(&mut a, code.code.as_str());
    let mut b: Vec<char> = Vec::new();
    append_str(&mut b, "Expires at (unix seconds): ");
    push_decimal_i64(&mut b, code.expires_at);
    let mut r: Vec<String> = Vec::new();
    r.push(line(a));
    r.push(line(b));
    assert(line_views(r@) =~= seq![
        "Pairing code: "@ + code.code@,
        "Expires at (unix seconds): "@ + dec_int(code.expires_at as int),
    ]);
    r
}

} // verus!
