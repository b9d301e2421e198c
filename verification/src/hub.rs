//! The hub's request handling and lifecycle decisions: credentials and
//! pairing codes, bearer authorization, the health report, the status that
//! the CLI shows, and the answers of the daemon's HTTP endpoints.
use vstd::prelude::*;
use rand::Rng;
use crate::hub_state::{
    begin_pairing, configure_lan_in, list_devices_in, pair_device, pairing_refusal,
    revoke_device_in, without_device, has_device, next_bind_host, DeviceRole, HubDevice,
    HubDeviceRecord, HubStateRecord, LanConfig, PairCompleteResult, PairingCode, StateError,
    PAIR_CODE_TTL_SECONDS,
};
use crate::paths::{endpoint, endpoint_spec};
use crate::text::{
    append_str, chars_eq, chars_of, dec_int, dec_nat, push_decimal_i64, hex_bytes, push_decimal, is_blank, is_blank_chars, lemma_hex_bytes_len,
    push_hex, slice_chars, starts_with, starts_with_chars, string_of, trim, trim_chars,
};

verus! {

// ---------------------------------------------------------------------------
// Credentials and pairing codes.
// ---------------------------------------------------------------------------

/// Number of characters in a pairing code.
pub const PAIR_CODE_LENGTH: usize = 8;

/// Calls `rand::random::<[u8; N]>()`, which draws from the thread-local
/// generator. Nothing is claimed of the bytes.
#[verifier::external_body]
fn random_byte_array<const N: usize>() -> [u8; N] {
    rand::random()
}

/// Calls `rand::rng().random_range(0..upper)`. Claims: the result is below
/// `upper` (the range must not be empty, else `random_range` panics).
#[verifier::external_body]
fn random_index_below(upper: usize) -> (r: usize)
    requires
        upper > 0,
    ensures
        r < upper,
{
    rand::rng().random_range(0..upper)
}

/// A token: the lower-case hex rendering of the bytes.
pub fn hex_token_from_bytes(bytes: &[u8]) -> (r: String)
    ensures
        r@ == hex_bytes(bytes@),
        r@.len() == 2 * bytes@.len(),
{
    let mut out: Vec<char> = Vec::new();
    push_hex(&mut out, bytes);
    proof {
        lemma_hex_bytes_len(bytes@);
    }
    string_of(out.as_slice())
}

/// A fresh admin or device token: 24 random bytes in lower-case hex.
pub fn random_hex_token() -> (r: String)
    ensures
        exists|b: Seq<u8>| b.len() == 24 && r@ == hex_bytes(b),
        r@.len() == 48,
{
    let bytes: [u8; 24] = random_byte_array();
    hex_token_from_bytes(bytes.as_slice())
}

/// A device id: `dev-` and the hex rendering of the bytes.
pub fn device_id_from_bytes(bytes: &[u8]) -> (r: String)
    ensures
        r@ == "dev-"@ + hex_bytes(bytes@),
{
    let mut out: Vec<char> = Vec::new();
    append_str(&mut out, "dev-");
    push_hex(&mut out, bytes);
    string_of(out.as_slice())
}

/// A fresh device id: `dev-` and 10 random bytes in lower-case hex.
pub fn random_device_id() -> (r: String)
    ensures
        exists|b: Seq<u8>| b.len() == 10 && r@ == "dev-"@ + hex_bytes(b),
{
    let bytes: [u8; 10] = random_byte_array();
    device_id_from_bytes(bytes.as_slice())
}

/// The characters pairing codes are made of: upper-case letters and digits
/// without the easily confused `I`, `O`, `0` and `1`.
pub open spec fn pair_alphabet() -> Seq<char> {
    "ABCDEFGHJKLMNPQRSTUVWXYZ23456789"@
}

/// A pairing code from alphabet positions.
pub fn pair_code_from_indices(indices: &[usize]) -> (r: String)
    requires
        forall|k: int| 0 <= k < indices@.len() ==> #[trigger] indices@[k] < 32,
    ensures
        r@.len() == indices@.len(),
        forall|k: int| 0 <= k < indices@.len() ==> #[trigger] r@[k] == pair_alphabet()[indices@[k] as int],
{
    proof {
        reveal_strlit("ABCDEFGHJKLMNPQRSTUVWXYZ23456789");
    }
    let alphabet = chars_of("ABCDEFGHJKLMNPQRSTUVWXYZ23456789");
    let mut out: Vec<char> = Vec::new();
    let mut i: usize = 0;
    while i < indices.len()
        invariant
            i <= indices@.len(),
            alphabet@ == pair_alphabet(),
            alphabet@.len() == 32,
            forall|k: int| 0 <= k < indices@.len() ==> #[trigger] indices@[k] < 32,
            out@.len() == i,
            forall|k: int| 0 <= k < i ==> #[trigger] out@[k] == pair_alphabet()[indices@[k] as int],
        decreases indices@.len() - i,
    {
        out.push(alphabet[indices[i]]);
        i = i + 1;
    }
    string_of(out.as_slice())
}

/// A fresh pairing code: `PAIR_CODE_LENGTH` characters drawn from the
/// pairing alphabet.
pub fn random_pair_code() -> (r: String)
    ensures
        r@.len() == PAIR_CODE_LENGTH,
        forall|k: int| 0 <= k < r@.len() ==> pair_alphabet().contains(#[trigger] r@[k]),
{
    let mut indices: Vec<usize> = Vec::new();
    let mut i: usize = 0;
    while i < PAIR_CODE_LENGTH
        invariant
            i <= PAIR_CODE_LENGTH,
            indices@.len() == i,
            forall|k: int| 0 <= k < i ==> #[trigger] indices@[k] < 32,
        decreases PAIR_CODE_LENGTH - i,
    {
        indices.push(random_index_below(32));
        i = i + 1;
    }
    let r = pair_code_from_indices(indices.as_slice());
    proof {
        reveal_strlit("ABCDEFGHJKLMNPQRSTUVWXYZ23456789");
        assert forall|k: int| 0 <= k < r@.len() implies pair_alphabet().contains(#[trigger] r@[k]) by {
            assert(pair_alphabet()[indices@[k] as int] == r@[k]);
        }
    }
    r
}

/// Reads the system clock through `SystemTime::now().duration_since(UNIX_EPOCH)`.
/// Nothing is claimed of the value: it is the time.
#[verifier::external_body]
fn seconds_since_epoch() -> Option<u64> {
    std::time::SystemTime::now().duration_since(std::time::UNIX_EPOCH).ok().map(|d| d.as_secs())
}

/// Unix seconds from a clock reading: the whole seconds since the epoch
/// (cast to `i64` as `as` does), or 0 when the clock read before 1970.
pub open spec fn unix_seconds_of(reading: Option<u64>) -> i64 {
    match reading {
        Some(s) => s as i64,
        None => 0,
    }
}

/// Turns a reading of the clock into Unix seconds.
pub fn unix_seconds_from_reading(reading: Option<u64>) -> (r: i64)
    ensures
        r == unix_seconds_of(reading),
{
    match reading {
        Some(s) => {
            #[verifier::truncate]
            let t = s as i64;
            t
        },
        None => 0,
    }
}

/// The current time in Unix seconds, or 0 when the clock reads before 1970.
/// The value is whatever the clock reads: every `i64` is `unix_seconds_of`
/// some reading, so no clause could say more of it.
pub fn now_unix_seconds() -> i64 {
    unix_seconds_from_reading(seconds_since_epoch())
}

// ---------------------------------------------------------------------------
// Authorization.
// ---------------------------------------------------------------------------

/// `Bearer ` (with its space).
pub open spec fn bearer_prefix() -> Seq<char> {
    seq!['B', 'e', 'a', 'r', 'e', 'r', ' ']
}

/// The token of an `Authorization: Bearer <token>` header value.
pub open spec fn bearer_of(header: Option<Seq<char>>) -> Option<Seq<char>> {
    match header {
        Some(v) => if starts_with(v, bearer_prefix()) {
            Some(v.skip(7))
        } else {
            None
        },
        None => None,
    }
}

/// The view of an optional header value.
pub open spec fn header_view(h: Option<&str>) -> Option<Seq<char>> {
    match h {
        Some(v) => Some(v@),
        None => None,
    }
}

/// The bearer token of an `Authorization` header value (absent, or not
/// readable as text, is `None`).
pub fn bearer_token_from_header(authorization: Option<&str>) -> (r: Option<String>)
    ensures
        match bearer_of(header_view(authorization)) {
            Some(t) => r matches Some(s) && s@ == t,
            None => r is None,
        },
{
    match authorization {
        None => None,
        Some(v) => {
            let vc = chars_of(v);
            let prefix: Vec<char> = vec!['B', 'e', 'a', 'r', 'e', 'r', ' '];
            assert(prefix@ =~= bearer_prefix());
            if starts_with_chars(vc.as_slice(), prefix.as_slice()) {
                let rest = slice_chars(vc.as_slice(), 7, vc.len());
                assert(rest@ =~= vc@.skip(7));
                Some(string_of(rest.as_slice()))
            } else {
                None
            }
        },
    }
}

/// Whether the header carries exactly `Bearer <token>`.
pub fn is_authorized(authorization: Option<&str>, token: &str) -> (r: bool)
    ensures
        r == (bearer_of(header_view(authorization)) == Some(token@)),
{
    match bearer_token_from_header(authorization) {
        None => false,
        Some(supplied) => {
            let a = chars_of(supplied.as_str());
            let b = chars_of(token);
            chars_eq(a.as_slice(), b.as_slice())
        },
    }
}

/// Whether a token opens the event stream: the admin token or the token of a
/// paired device.
pub open spec fn stream_token_ok(state: HubStateRecord, t: Seq<char>) -> bool {
    t == state.auth_token@ || state.device_tokens().contains(t)
}

/// Whether the header's bearer token opens the event stream.
pub fn is_authorized_for_stream(authorization: Option<&str>, state: &HubStateRecord) -> (r: bool)
    ensures
        r == match bearer_of(header_view(authorization)) {
            Some(t) => stream_token_ok(*state, t),
            None => false,
        },
{
    let supplied = match bearer_token_from_header(authorization) {
        None => {
            return false;
        },
        Some(s) => s,
    };
    let sc = chars_of(supplied.as_str());
    let admin = chars_of(state.auth_token.as_str());
    if chars_eq(sc.as_slice(), admin.as_slice()) {
        return true;
    }
    let mut i: usize = 0;
    while i < state.devices.len()
        invariant
            i <= state.devices@.len(),
            sc@ == supplied@,
            bearer_of(header_view(authorization)) == Some(supplied@),
            forall|k: int| 0 <= k < i ==> (#[trigger] state.devices@[k]).device_token@ != supplied@,
        decreases state.devices@.len() - i,
    {
        let t = chars_of(state.devices[i].device_token.as_str());
        if chars_eq(t.as_slice(), sc.as_slice()) {
            assert(state.device_tokens()[i as int] == supplied@);
            assert(state.device_tokens().contains(supplied@));
            assert(bearer_of(header_view(authorization)) == Some(supplied@));
            return true;
        }
        i = i + 1;
    }
    proof {
        if state.device_tokens().contains(supplied@) {
            let k = choose|k: int| 0 <= k < state.device_tokens().len() && state.device_tokens()[k] == supplied@;
            assert(state.devices@[k].device_token@ == supplied@);
        }
    }
    false
}

// ---------------------------------------------------------------------------
// Health and status.
// ---------------------------------------------------------------------------

/// What `GET /health` answers.
#[derive(Debug, Clone, PartialEq, Eq)]
pub struct HealthResponse {
    pub status: String,
    pub pid: u32,
    pub started_at: i64,
    pub host: String,
    pub port: u16,
    pub lan_enabled: bool,
    pub device_count: usize,
}

/// The health report of a running daemon.
pub fn health_response(state: &HubStateRecord) -> (r: HealthResponse)
    ensures
        r.status@ == "ok"@,
        r.pid == state.pid,
        r.started_at == state.started_at,
        r.host == state.host,
        r.port == state.port,
        r.lan_enabled == state.lan_enabled,
        r.device_count == state.devices@.len(),
{
    HealthResponse {
        status: string_of(chars_of("ok").as_slice()),
        pid: state.pid,
        started_at: state.started_at,
        host: state.host.clone(),
        port: state.port,
        lan_enabled: state.lan_enabled,
        device_count: state.devices.len(),
    }
}

/// What the CLI reports about the hub.
#[derive(Debug, Clone, PartialEq, Eq)]
pub struct HubStatus {
    pub running: bool,
    pub endpoint: Option<String>,
    pub pid: Option<u32>,
    pub started_at: Option<i64>,
    pub lan_enabled: bool,
    pub device_count: usize,
    pub reason: Option<String>,
}

/// The view of an optional text.
pub open spec fn opt_view(s: Option<String>) -> Option<Seq<char>> {
    match s {
        Some(t) => Some(t@),
        None => None,
    }
}

fn text(s: &str) -> (r: String)
    ensures
        r@ == s@,
{
    string_of(chars_of(s).as_slice())
}

/// The status when there is no state file: not running, nothing known.
pub fn status_without_state(reason: Option<String>) -> (r: HubStatus)
    ensures
        !r.running,
        r.endpoint is None,
        r.pid is None,
        r.started_at is None,
        !r.lan_enabled,
        r.device_count == 0,
        r.reason == reason,
{
    HubStatus {
        running: false,
        endpoint: None,
        pid: None,
        started_at: None,
        lan_enabled: false,
        device_count: 0,
        reason,
    }
}

/// The status reported from a health answer: running, at the answer's
/// endpoint.
pub fn status_from_health(h: &HealthResponse) -> (r: HubStatus)
    ensures
        r.running,
        opt_view(r.endpoint) == Some(endpoint_spec(h.host@, h.port)),
        r.pid == Some(h.pid),
        r.started_at == Some(h.started_at),
        r.lan_enabled == h.lan_enabled,
        r.device_count == h.device_count,
        r.reason is None,
{
    HubStatus {
        running: true,
        endpoint: Some(endpoint(h.host.as_str(), h.port)),
        pid: Some(h.pid),
        started_at: Some(h.started_at),
        lan_enabled: h.lan_enabled,
        device_count: h.device_count,
        reason: None,
    }
}

/// The status of a hub that has state on disk but did not answer as healthy:
/// not running, with what the state file records and the given reason.
pub fn status_from_state(state: &HubStateRecord, reason: String) -> (r: HubStatus)
    ensures
        !r.running,
        opt_view(r.endpoint) == Some(endpoint_spec(state.host@, state.port)),
        r.pid == Some(state.pid),
        r.started_at == Some(state.started_at),
        r.lan_enabled == state.lan_enabled,
        r.device_count == state.devices@.len(),
        r.reason == Some(reason),
{
    HubStatus {
        running: false,
        endpoint: Some(endpoint(state.host.as_str(), state.port)),
        pid: Some(state.pid),
        started_at: Some(state.started_at),
        lan_enabled: state.lan_enabled,
        device_count: state.devices.len(),
        reason: Some(reason),
    }
}

/// How a health probe failed.
pub enum ProbeFailure {
    /// The hub answered with an error status.
    Unhealthy,
    /// The hub could not be reached.
    Unreachable,
}

/// The reason shown for a failed probe with the given error text.
pub open spec fn probe_reason(failure: ProbeFailure, detail: Seq<char>) -> Seq<char> {
    match failure {
        ProbeFailure::Unhealthy => "hub returned unhealthy status: "@ + detail,
        ProbeFailure::Unreachable => "hub not reachable: "@ + detail,
    }
}

/// The status after a failed health probe.
pub fn status_after_failed_probe(state: &HubStateRecord, failure: ProbeFailure, detail: &str) -> (r: HubStatus)
    ensures
        !r.running,
        opt_view(r.endpoint) == Some(endpoint_spec(state.host@, state.port)),
        r.pid == Some(state.pid),
        r.started_at == Some(state.started_at),
        r.lan_enabled == state.lan_enabled,
        r.device_count == state.devices@.len(),
        opt_view(r.reason) == Some(probe_reason(failure, detail@)),
{
    let mut reason: Vec<char> = Vec::new();
    match failure {
        ProbeFailure::Unhealthy => append_str(&mut reason, "hub returned unhealthy status: "),
        ProbeFailure::Unreachable => append_str(&mut reason, "hub not reachable: "),
    }
    append_str(&mut reason, detail);
    status_from_state(state, string_of(reason.as_slice()))
}

/// The answer of `stop` when there is no state file.
pub fn stop_status_without_state() -> (r: HubStatus)
    ensures
        !r.running,
        r.endpoint is None,
        r.pid is None,
        r.started_at is None,
        r.device_count == 0,
        opt_view(r.reason) == Some("codex hub is not running"@),
{
    status_without_state(Some(text("codex hub is not running")))
}

/// The answer of `stop` when the shutdown request could not be delivered:
/// the stale state is reported (and removed by the caller).
pub fn stop_status_stale(state: &HubStateRecord) -> (r: HubStatus)
    ensures
        !r.running,
        opt_view(r.endpoint) == Some(endpoint_spec(state.host@, state.port)),
        r.pid == Some(state.pid),
        r.started_at == Some(state.started_at),
        r.lan_enabled == state.lan_enabled,
        r.device_count == state.devices@.len(),
        opt_view(r.reason) == Some("hub was unreachable; removed stale state"@),
{
    status_from_state(state, text("hub was unreachable; removed stale state"))
}

// ---------------------------------------------------------------------------
// Lifecycle decisions of the CLI.
// ---------------------------------------------------------------------------

/// What `start` does given the current status.
pub enum StartDecision {
    /// A hub already runs; holds the error message.
    AlreadyRunning(String),
    /// Launch a daemon, first removing a stale state file when one is known.
    Launch { remove_stale_state: bool },
}

/// Decides what `start` does: refuse when a hub runs (naming its endpoint,
/// or the requested one when none is known), otherwise launch, clearing
/// stale state when the status names an endpoint.
pub fn decide_start(existing: &HubStatus, host: &str, port: u16) -> (r: StartDecision)
    ensures
        existing.running ==> (r matches StartDecision::AlreadyRunning(m) && m@
            == "codex hub is already running at "@ + match opt_view(existing.endpoint) {
            Some(e) => e,
            None => endpoint_spec(host@, port),
        }),
        !existing.running ==> r == (StartDecision::Launch { remove_stale_state: existing.endpoint is Some }),
{
    if existing.running {
        let mut m: Vec<char> = Vec::new();
        append_str(&mut m, "codex hub is already running at ");
        match &existing.endpoint {
            Some(e) => append_str(&mut m, e.as_str()),
            None => {
                let e = endpoint(host, port);
                append_str(&mut m, e.as_str());
            },
        }
        return StartDecision::AlreadyRunning(string_of(m.as_slice()));
    }
    StartDecision::Launch { remove_stale_state: existing.endpoint.is_some() }
}

/// How many times `start` polls the status before giving up.
pub const START_WAIT_ATTEMPTS: usize = 50;

/// How many times `stop` polls the status before giving up.
pub const STOP_WAIT_ATTEMPTS: usize = 30;

/// A bounded polling loop: the caller queries while `should_poll`, and
/// records each answer that is not yet the awaited one.
pub struct WaitLoop {
    pub attempts_left: usize,
}

impl WaitLoop {
    /// A loop that polls at most `attempts` times.
    pub fn new(attempts: usize) -> (r: Self)
        ensures
            r.attempts_left == attempts,
    {
        WaitLoop { attempts_left: attempts }
    }

    /// Whether another poll is allowed.
    pub fn should_poll(&self) -> (r: bool)
        ensures
            r == (self.attempts_left > 0),
    {
        self.attempts_left > 0
    }

    /// Records a poll that did not see the awaited state.
    pub fn record_miss(&mut self)
        requires
            old(self).attempts_left > 0,
        ensures
            final(self).attempts_left == old(self).attempts_left - 1,
    {
        self.attempts_left = self.attempts_left - 1;
    }

    /// Takes the status seen by a poll, while polls are left. When its
    /// `running` is the awaited one, the wait is over and that status is the
    /// answer (for `stop`, the caller then removes the state file); otherwise
    /// the miss is recorded, and the wait has timed out when no poll is left.
    pub fn observe(&mut self, status: HubStatus, awaited_running: bool) -> (r: PollOutcome)
        requires
            old(self).attempts_left > 0,
        ensures
            status.running == awaited_running ==> r == PollOutcome::Reached(status)
                && final(self).attempts_left == old(self).attempts_left,
            status.running != awaited_running ==> final(self).attempts_left == old(self).attempts_left - 1
                && (if final(self).attempts_left == 0 {
                r is TimedOut
            } else {
                r is KeepPolling
            }),
    {
        if status.running == awaited_running {
            return PollOutcome::Reached(status);
        }
        self.record_miss();
        if self.should_poll() {
            PollOutcome::KeepPolling
        } else {
            PollOutcome::TimedOut
        }
    }
}

/// What a poll of the hub's status leads to.
pub enum PollOutcome {
    /// The awaited state was seen; this is the status to report.
    Reached(HubStatus),
    /// Not yet: wait and poll again.
    KeepPolling,
    /// Not yet, and no poll is left.
    TimedOut,
}

// ---------------------------------------------------------------------------
// Pairing from the CLI.
// ---------------------------------------------------------------------------

/// Pairs a device with a fresh device id and token (see `pair_device`).
pub fn complete_pairing_in(
    state: &mut HubStateRecord,
    now: i64,
    code: &str,
    device_name: &str,
    role: DeviceRole,
) -> (r: Result<PairCompleteResult, StateError>)
    ensures
        match pairing_refusal(old(state).pairing, now, code@) {
            Some(e) => r == Err::<PairCompleteResult, StateError>(e) && *final(state) == *old(state),
            None => r matches Ok(res) && {
                &&& res.device.device_name@ == trim(device_name@)
                &&& res.device.role == role
                &&& res.device.paired_at == now
                &&& res.device.last_seen_at == now
                &&& res.device_token@.len() == 48
                &&& exists|b: Seq<u8>| b.len() == 24 && res.device_token@ == hex_bytes(b)
                &&& exists|b: Seq<u8>| b.len() == 10 && res.device.device_id@ == "dev-"@ + hex_bytes(b)
                &&& final(state).devices@ == old(state).devices@.push(
                    HubDeviceRecord { device: res.device, device_token: res.device_token },
                )
                &&& final(state).pairing is None
                &&& final(state).pinned_prompts == old(state).pinned_prompts
                &&& final(state).auth_token == old(state).auth_token
            },
        },
{
    let device_id = random_device_id();
    let device_token = random_hex_token();
    pair_device(state, now, code, device_name, role, device_id, device_token)
}

// ---------------------------------------------------------------------------
// The daemon's endpoints.
// ---------------------------------------------------------------------------

/// An error status of the daemon's endpoints.
#[derive(PartialEq, Eq, Structural, Debug)]
pub enum HttpStatus {
    BadRequest,
    Unauthorized,
    Forbidden,
    InternalServerError,
}

/// `POST /pair/start`: with the admin token, opens a pairing window with
/// `code`, valid for the TTL from `now`.
pub fn handle_pair_start(
    state: &mut HubStateRecord,
    authorization: Option<&str>,
    code: String,
    now: i64,
) -> (r: Result<PairingCode, HttpStatus>)
    requires
        now <= i64::MAX - PAIR_CODE_TTL_SECONDS,
    ensures
        bearer_of(header_view(authorization)) != Some(old(state).auth_token@) ==> r == Err::<
            PairingCode,
            HttpStatus,
        >(HttpStatus::Unauthorized) && *final(state) == *old(state),
        bearer_of(header_view(authorization)) == Some(old(state).auth_token@) ==> (r matches Ok(p) && {
            &&& p.code == code
            &&& p.expires_at == now + PAIR_CODE_TTL_SECONDS
            &&& final(state).pairing == Some(p)
            &&& final(state).devices == old(state).devices
            &&& final(state).auth_token == old(state).auth_token
        }),
{
    if !is_authorized(authorization, state.auth_token.as_str()) {
        return Err(HttpStatus::Unauthorized);
    }
    Ok(begin_pairing(state, code, now))
}

/// `POST /pair/start` as the daemon answers it: with the admin token, draws
/// a fresh pairing code and opens a pairing window with it until `now` plus
/// the TTL; without it, nothing changes.
pub fn pair_start_in(state: &mut HubStateRecord, authorization: Option<&str>, now: i64) -> (r: Result<
    PairingCode,
    HttpStatus,
>)
    requires
        now <= i64::MAX - PAIR_CODE_TTL_SECONDS,
    ensures
        bearer_of(header_view(authorization)) != Some(old(state).auth_token@) ==> r == Err::<
            PairingCode,
            HttpStatus,
        >(HttpStatus::Unauthorized) && *final(state) == *old(state),
        bearer_of(header_view(authorization)) == Some(old(state).auth_token@) ==> (r matches Ok(p) && {
            &&& p.code@.len() == PAIR_CODE_LENGTH
            &&& forall|k: int| 0 <= k < p.code@.len() ==> pair_alphabet().contains(#[trigger] p.code@[k])
            &&& p.expires_at == now + PAIR_CODE_TTL_SECONDS
            &&& final(state).pairing == Some(p)
            &&& final(state).devices == old(state).devices
            &&& final(state).auth_token == old(state).auth_token
        }),
{
    if !is_authorized(authorization, state.auth_token.as_str()) {
        return Err(HttpStatus::Unauthorized);
    }
    let code = random_pair_code();
    handle_pair_start(state, authorization, code, now)
}

/// `POST /pair/complete`: a wrong, expired or absent pairing is forbidden, a
/// blank device name a bad request; otherwise the device is paired with the
/// given id and token.
pub fn handle_pair_complete(
    state: &mut HubStateRecord,
    now: i64,
    code: &str,
    device_name: &str,
    role: DeviceRole,
    device_id: String,
    device_token: String,
) -> (r: Result<PairCompleteResult, HttpStatus>)
    ensures
        pairing_refusal(old(state).pairing, now, code@) is Some ==> r == Err::<
            PairCompleteResult,
            HttpStatus,
        >(HttpStatus::Forbidden) && *final(state) == *old(state),
        pairing_refusal(old(state).pairing, now, code@) is None && is_blank(device_name@) ==> r
            == Err::<PairCompleteResult, HttpStatus>(HttpStatus::BadRequest) && *final(state)
            == *old(state),
        pairing_refusal(old(state).pairing, now, code@) is None && !is_blank(device_name@) ==> (r matches Ok(res) && {
            &&& res.device.device_id == device_id
            &&& res.device.device_name@ == trim(device_name@)
            &&& res.device.role == role
            &&& res.device.paired_at == now
            &&& res.device.last_seen_at == now
            &&& res.device_token == device_token
            &&& final(state).devices@ == old(state).devices@.push(
                HubDeviceRecord { device: res.device, device_token: res.device_token },
            )
            &&& final(state).pairing is None
        }),
{
    let name = chars_of(device_name);
    match crate::hub_state::check_pairing_code(&state.pairing, now, code) {
        Err(_) => {
            return Err(HttpStatus::Forbidden);
        },
        Ok(()) => {},
    }
    if is_blank_chars(name.as_slice()) {
        return Err(HttpStatus::BadRequest);
    }
    match pair_device(state, now, code, device_name, role, device_id, device_token) {
        Ok(res) => Ok(res),
        Err(_) => Err(HttpStatus::Forbidden),
    }
}

/// `GET /device/list`: the paired devices, for the admin token only.
pub fn handle_device_list(state: &HubStateRecord, authorization: Option<&str>) -> (r: Result<Vec<HubDevice>, HttpStatus>)
    ensures
        bearer_of(header_view(authorization)) != Some(state.auth_token@) ==> r == Err::<
            Vec<HubDevice>,
            HttpStatus,
        >(HttpStatus::Unauthorized),
        bearer_of(header_view(authorization)) == Some(state.auth_token@) ==> (r matches Ok(ds) && ds@
            == state.devices@.map_values(|d: HubDeviceRecord| d.device)),
{
    if !is_authorized(authorization, state.auth_token.as_str()) {
        return Err(HttpStatus::Unauthorized);
    }
    Ok(list_devices_in(state))
}

/// `POST /device/revoke`: with the admin token, removes the devices with the
/// id and says whether there was one.
pub fn handle_device_revoke(state: &mut HubStateRecord, authorization: Option<&str>, device_id: &str) -> (r: Result<bool, HttpStatus>)
    ensures
        bearer_of(header_view(authorization)) != Some(old(state).auth_token@) ==> r == Err::<
            bool,
            HttpStatus,
        >(HttpStatus::Unauthorized) && *final(state) == *old(state),
        bearer_of(header_view(authorization)) == Some(old(state).auth_token@) ==> r == Ok::<
            bool,
            HttpStatus,
        >(has_device(old(state).devices@, device_id@)) && final(state).devices@ == without_device(
            old(state).devices@,
            device_id@,
        ) && final(state).same_but_devices(old(state)),
{
    if !is_authorized(authorization, state.auth_token.as_str()) {
        return Err(HttpStatus::Unauthorized);
    }
    Ok(revoke_device_in(state, device_id))
}

/// `POST /hub/configure-lan`: with the admin token, changes the LAN settings
/// as `configure_lan_in` does.
pub fn handle_configure_lan(
    state: &mut HubStateRecord,
    authorization: Option<&str>,
    enabled: bool,
    bind_host: Option<String>,
    bind_port: Option<u16>,
) -> (r: Result<LanConfig, HttpStatus>)
    ensures
        bearer_of(header_view(authorization)) != Some(old(state).auth_token@) ==> r == Err::<
            LanConfig,
            HttpStatus,
        >(HttpStatus::Unauthorized) && *final(state) == *old(state),
        bearer_of(header_view(authorization)) == Some(old(state).auth_token@) ==> (r matches Ok(c) && {
            &&& final(state).lan_enabled == enabled
            &&& final(state).lan_bind_host@ == next_bind_host(old(state).lan_bind_host@, bind_host)
            &&& final(state).lan_bind_port == match bind_port {
                Some(p) => p,
                None => old(state).lan_bind_port,
            }
            &&& c.enabled == enabled
            &&& c.bind_host@ == final(state).lan_bind_host@
            &&& c.bind_port == final(state).lan_bind_port
            &&& final(state).devices == old(state).devices
            &&& final(state).auth_token == old(state).auth_token
        }),
{
    if !is_authorized(authorization, state.auth_token.as_str()) {
        return Err(HttpStatus::Unauthorized);
    }
    Ok(configure_lan_in(state, enabled, bind_host, bind_port))
}

/// `POST /admin/shutdown`: allowed with the admin token only.
pub fn handle_shutdown(state: &HubStateRecord, authorization: Option<&str>) -> (r: Result<(), HttpStatus>)
    ensures
        r is Ok == (bearer_of(header_view(authorization)) == Some(state.auth_token@)),
        r is Err ==> r == Err::<(), HttpStatus>(HttpStatus::Unauthorized),
{
    if !is_authorized(authorization, state.auth_token.as_str()) {
        return Err(HttpStatus::Unauthorized);
    }
    Ok(())
}

// ---------------------------------------------------------------------------
// Launching the daemon.
// ---------------------------------------------------------------------------

/// What `start` needs: the Codex binary to launch, the Codex home and the
/// loopback address to bind.
#[derive(Debug, Clone, PartialEq, Eq)]
pub struct StartOptions {
    pub codex_bin: String,
    pub codex_home: String,
    pub host: String,
    pub port: u16,
}

/// What the daemon process runs with.
#[derive(Debug, Clone, PartialEq, Eq)]
pub struct DaemonOptions {
    pub codex_home: String,
    pub host: String,
    pub port: u16,
    pub auth_token: String,
}

/// The arguments the daemon process is launched with.
pub open spec fn daemon_args_spec(codex_home: Seq<char>, host: Seq<char>, port: u16, auth_token: Seq<char>) -> Seq<Seq<char>> {
    seq![
        "hub"@,
        "daemon"@,
        "--codex-home"@,
        codex_home,
        "--host"@,
        host,
        "--port"@,
        dec_nat(port as nat),
        "--auth-token"@,
        auth_token,
    ]
}

/// The command-line arguments that start the daemon for `options` with the
/// admin token `auth_token`.
pub fn daemon_args(options: &StartOptions, auth_token: &str) -> (r: Vec<String>)
    ensures
        r@.map_values(|a: String| a@) == daemon_args_spec(
            options.codex_home@,
            options.host@,
            options.port,
            auth_token@,
        ),
{
    let mut port: Vec<char> = Vec::new();
    push_decimal(&mut port, options.port as u64);
    let mut r: Vec<String> = Vec::new();
    r.push(text("hub"));
    r.push(text("daemon"));
    r.push(text("--codex-home"));
    r.push(options.codex_home.clone());
    r.push(text("--host"));
    r.push(options.host.clone());
    r.push(text("--port"));
    r.push(string_of(port.as_slice()));
    r.push(text("--auth-token"));
    r.push(text(auth_token));
    assert(r@.map_values(|a: String| a@) =~= daemon_args_spec(
        options.codex_home@,
        options.host@,
        options.port,
        auth_token@,
    ));
    r
}

// ---------------------------------------------------------------------------
// The event stream.
// ---------------------------------------------------------------------------

/// What happens on an open event-stream connection: a frame from the client,
/// the end of its stream or an error on it, a hub event to forward, the
/// broadcast channel falling behind or closing, or a failed send.
pub enum StreamEvent {
    InboundPing(Vec<u8>),
    InboundClose,
    InboundEnd,
    InboundOther,
    InboundError,
    Outbound(String),
    Lagged,
    BroadcastClosed,
    SendFailed,
}

/// What the connection does next.
pub enum StreamAction {
    SendPong(Vec<u8>),
    SendText(String),
    Ignore,
    Stop,
}

/// One step of the event stream: a ping is answered with a pong carrying its
/// payload, a hub event is forwarded as a text frame, other client frames and
/// a lagging channel are ignored, and everything else ends the connection.
pub fn stream_step(event: StreamEvent) -> (r: StreamAction)
    ensures
        match event {
            StreamEvent::InboundPing(p) => r == StreamAction::SendPong(p),
            StreamEvent::Outbound(m) => r == StreamAction::SendText(m),
            StreamEvent::InboundOther | StreamEvent::Lagged => r is Ignore,
            _ => r is Stop,
        },
{
    match event {
        StreamEvent::InboundPing(p) => StreamAction::SendPong(p),
        StreamEvent::Outbound(m) => StreamAction::SendText(m),
        StreamEvent::InboundOther | StreamEvent::Lagged => StreamAction::Ignore,
        _ => StreamAction::Stop,
    }
}

/// A text that `serde_json` writes as a JSON string without escapes: no `"`,
/// no `\\` and no control character below U+0020.
pub open spec fn plain_json_text(text: Seq<char>) -> bool {
    forall|k: int| 0 <= k < text.len() ==> #[trigger] text[k] != '"' && text[k] != '\\' && (text[k] as u32) >= 0x20
}

/// What `serde_json::to_string` makes of a `str`: the JSON string literal of
/// the text (`None` when serialization fails).
pub uninterp spec fn json_string_text(text: Seq<char>) -> Option<Seq<char>>;

/// Calls `serde_json::to_string` on a `str`. Claims: the result is
/// `json_string_text` of the text; for a plain text, which the crate's escape
/// table leaves as it is, that is the text between double quotes.
#[verifier::external_body]
fn json_string(text: &str) -> (r: Option<String>)
    ensures
        opt_view(r) == json_string_text(text@),
        plain_json_text(text@) ==> opt_view(r) == Some(seq!['"'] + text@ + seq!['"']),
{
    match serde_json::to_string(text) {
        Ok(t) => Some(t),
        Err(_) => None,
    }
}

/// The compact JSON of a hub event `{"at": at, "event": event, "payload":
/// payload}`, its keys in the sorted order in which `serde_json` writes a
/// map, given the JSON string literal of the event name and the payload's
/// JSON text.
pub open spec fn event_frame_spec(event_literal: Seq<char>, at: i64, payload: Seq<char>) -> Seq<char> {
    "{\"at\":"@ + dec_int(at as int) + ",\"event\":"@ + event_literal + ",\"payload\":"@ + payload + "}"@
}

/// The frame of a hub event as the stream sends it, or `None` when the event
/// name does not serialize (the event is then not sent).
pub fn hub_event_frame(event: &str, at: i64, payload_json: &str) -> (r: Option<String>)
    ensures
        match json_string_text(event@) {
            Some(lit) => r matches Some(f) && f@ == event_frame_spec(lit, at, payload_json@),
            None => r is None,
        },
        plain_json_text(event@) ==> (r matches Some(f) && f@ == event_frame_spec(
            seq!['"'] + event@ + seq!['"'],
            at,
            payload_json@,
        )),
{
    let lit = match json_string(event) {
        Some(l) => l,
        None => {
            return None;
        },
    };
    let mut out: Vec<char> = Vec::new();
    append_str(&mut out, "{\"at\":");
    push_decimal_i64(&mut out, at);
    append_str(&mut out, ",\"event\":");
    append_str(&mut out, lit.as_str());
    append_str(&mut out, ",\"payload\":");
    append_str(&mut out, payload_json);
    append_str(&mut out, "}");
    Some(string_of(out.as_slice()))
}

/// The first frame a stream client receives: `hub.connected` at the given
/// time, with an empty payload.
pub fn hub_connected_frame(at: i64) -> (r: Option<String>)
    ensures
        r matches Some(f) && f@ == event_frame_spec("\"hub.connected\""@, at, "{}"@),
{
    proof {
        reveal_strlit("hub.connected");
        reveal_strlit("\"hub.connected\"");
        assert(plain_json_text("hub.connected"@));
        assert(seq!['"'] + "hub.connected"@ + seq!['"'] =~= "\"hub.connected\""@);
    }
    hub_event_frame("hub.connected", at, "{}")
}

} // verus!
