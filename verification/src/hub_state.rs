//! The hub daemon's persisted state and the operations on it: pairing
//! devices, revoking them, LAN settings and pinned prompts.
use vstd::prelude::*;
use crate::text::{
    append_str, chars_eq, chars_of, eq_ignore_ascii_case, eq_ignore_ascii_case_chars, is_blank,
    is_blank_chars, string_of, trim, trim_chars,
};

verus! {

/// The host the hub binds by default.
pub const DEFAULT_HOST: &'static str = "127.0.0.1";

/// The port the hub binds by default.
pub const DEFAULT_PORT: u16 = 46710;

/// How long a pairing code stays valid, in seconds.
pub const PAIR_CODE_TTL_SECONDS: i64 = 600;

/// The LAN bind host a fresh state starts with.
pub fn default_lan_bind_host() -> (r: String)
    ensures
        r@ == DEFAULT_HOST@,
{
    string_of(chars_of(DEFAULT_HOST).as_slice())
}

/// The LAN bind port a fresh state starts with.
pub fn default_lan_bind_port() -> (r: u16)
    ensures
        r == DEFAULT_PORT,
{
    DEFAULT_PORT
}

/// What a paired device may do.
#[derive(Clone, Copy, PartialEq, Eq, Structural, Debug)]
pub enum DeviceRole {
    Observer,
    Operator,
    PromptOnly,
}

/// A pairing code and the moment it stops being valid.
#[derive(Debug, PartialEq, Eq)]
pub struct PairingCode {
    pub code: String,
    pub expires_at: i64,
}

impl Clone for PairingCode {
    fn clone(&self) -> (r: Self)
        ensures
            r == *self,
    {
        PairingCode { code: self.code.clone(), expires_at: self.expires_at }
    }
}

/// A paired companion device.
#[derive(Debug, PartialEq, Eq)]
pub struct HubDevice {
    pub device_id: String,
    pub device_name: String,
    pub role: DeviceRole,
    pub paired_at: i64,
    pub last_seen_at: i64,
}

impl Clone for HubDevice {
    fn clone(&self) -> (r: Self)
        ensures
            r == *self,
    {
        HubDevice {
            device_id: self.device_id.clone(),
            device_name: self.device_name.clone(),
            role: self.role,
            paired_at: self.paired_at,
            last_seen_at: self.last_seen_at,
        }
    }
}

/// A paired device and the token it authenticates with.
#[derive(Debug, PartialEq, Eq)]
pub struct HubDeviceRecord {
    pub device: HubDevice,
    pub device_token: String,
}

impl Clone for HubDeviceRecord {
    fn clone(&self) -> (r: Self)
        ensures
            r == *self,
    {
        HubDeviceRecord { device: self.device.clone(), device_token: self.device_token.clone() }
    }
}

/// What pairing a device hands back.
#[derive(Debug, Clone, PartialEq, Eq)]
pub struct PairCompleteResult {
    pub device: HubDevice,
    pub device_token: String,
}

/// The LAN exposure settings.
#[derive(Debug, Clone, PartialEq, Eq)]
pub struct LanConfig {
    pub enabled: bool,
    pub bind_host: String,
    pub bind_port: u16,
}

/// A prompt pinned to a thread.
pub struct PinnedPrompt {
    pub thread_id: String,
    pub prompt: String,
}

/// The state the daemon persists.
pub struct HubStateRecord {
    pub pid: u32,
    pub host: String,
    pub port: u16,
    pub started_at: i64,
    pub auth_token: String,
    pub pairing: Option<PairingCode>,
    pub lan_enabled: bool,
    pub lan_bind_host: String,
    pub lan_bind_port: u16,
    pub devices: Vec<HubDeviceRecord>,
    /// At most one entry per thread id.
    pub pinned_prompts: Vec<PinnedPrompt>,
}

/// Why an operation on the hub state was refused.
#[derive(PartialEq, Eq, Structural, Debug)]
pub enum StateError {
    NoActivePairing,
    PairingExpired,
    InvalidPairingCode,
    EmptyThreadId,
}

impl StateError {
    /// The error's message.
    pub fn message(&self) -> (r: String)
        ensures
            r@ == match self {
                StateError::NoActivePairing => "no active pairing request"@,
                StateError::PairingExpired => "pairing code has expired"@,
                StateError::InvalidPairingCode => "invalid pairing code"@,
                StateError::EmptyThreadId => "thread_id cannot be empty"@,
            },
    {
        let s = match self {
            StateError::NoActivePairing => "no active pairing request",
            StateError::PairingExpired => "pairing code has expired",
            StateError::InvalidPairingCode => "invalid pairing code",
            StateError::EmptyThreadId => "thread_id cannot be empty",
        };
        string_of(chars_of(s).as_slice())
    }
}

/// The pinned prompts as a map from thread id to prompt.
pub open spec fn pinned_map(ps: Seq<PinnedPrompt>) -> Map<Seq<char>, Seq<char>>
    decreases ps.len(),
{
    if ps.len() == 0 {
        Map::empty()
    } else {
        pinned_map(ps.drop_last()).insert(ps.last().thread_id@, ps.last().prompt@)
    }
}

/// No thread id is pinned twice.
pub open spec fn pinned_unique(ps: Seq<PinnedPrompt>) -> bool {
    forall|i: int, j: int| 0 <= i < j < ps.len() ==> #[trigger] ps[i].thread_id@ != #[trigger] ps[j].thread_id@
}

impl HubStateRecord {
    /// The state is well formed: no thread id is pinned twice.
    pub open spec fn wf(&self) -> bool {
        pinned_unique(self.pinned_prompts@)
    }

    /// The pinned prompts by thread id.
    pub open spec fn pinned(&self) -> Map<Seq<char>, Seq<char>> {
        pinned_map(self.pinned_prompts@)
    }

    /// The device tokens, in pairing order.
    pub open spec fn device_tokens(&self) -> Seq<Seq<char>> {
        self.devices@.map_values(|r: HubDeviceRecord| r.device_token@)
    }

    /// Every field but the devices is the same in both states.
    pub open spec fn same_but_devices(&self, other: &HubStateRecord) -> bool {
        &&& self.pid == other.pid
        &&& self.host == other.host
        &&& self.port == other.port
        &&& self.started_at == other.started_at
        &&& self.auth_token == other.auth_token
        &&& self.pairing == other.pairing
        &&& self.lan_enabled == other.lan_enabled
        &&& self.lan_bind_host == other.lan_bind_host
        &&& self.lan_bind_port == other.lan_bind_port
        &&& self.pinned_prompts == other.pinned_prompts
    }

    /// Whether no thread id is pinned twice (`wf`).
    pub fn pinned_prompts_unique(&self) -> (r: bool)
        ensures
            r == self.wf(),
    {
        let n = self.pinned_prompts.len();
        let mut j: usize = 0;
        while j < n
            invariant
                n == self.pinned_prompts@.len(),
                j <= n,
                forall|a: int, b: int| 0 <= a < b < j ==> #[trigger] self.pinned_prompts@[a].thread_id@
                    != #[trigger] self.pinned_prompts@[b].thread_id@,
            decreases n - j,
        {
            let tj = chars_of(self.pinned_prompts[j].thread_id.as_str());
            let mut i: usize = 0;
            while i < j
                invariant
                    n == self.pinned_prompts@.len(),
                    i <= j < n,
                    tj@ == self.pinned_prompts@[j as int].thread_id@,
                    forall|a: int| 0 <= a < i ==> #[trigger] self.pinned_prompts@[a].thread_id@
                        != self.pinned_prompts@[j as int].thread_id@,
                decreases j - i,
            {
                let ti = chars_of(self.pinned_prompts[i].thread_id.as_str());
                if chars_eq(ti.as_slice(), tj.as_slice()) {
                    return false;
                }
                i = i + 1;
            }
            j = j + 1;
        }
        true
    }

    /// The state a daemon starts with: nothing paired, LAN off on the default
    /// bind address, no pinned prompts.
    pub fn new(pid: u32, host: String, port: u16, started_at: i64, auth_token: String) -> (r: Self)
        ensures
            r.wf(),
            r.pid == pid,
            r.host == host,
            r.port == port,
            r.started_at == started_at,
            r.auth_token == auth_token,
            r.pairing is None,
            !r.lan_enabled,
            r.lan_bind_host@ == DEFAULT_HOST@,
            r.lan_bind_port == DEFAULT_PORT,
            r.devices@.len() == 0,
            r.pinned_prompts@.len() == 0,
            r.pinned() == Map::<Seq<char>, Seq<char>>::empty(),
    {
        HubStateRecord {
            pid,
            host,
            port,
            started_at,
            auth_token,
            pairing: None,
            lan_enabled: false,
            lan_bind_host: default_lan_bind_host(),
            lan_bind_port: default_lan_bind_port(),
            devices: Vec::new(),
            pinned_prompts: Vec::new(),
        }
    }
}

// ---------------------------------------------------------------------------
// Pairing.
// ---------------------------------------------------------------------------

/// Opens a pairing window: the code is valid until `now` plus the TTL.
pub fn begin_pairing(state: &mut HubStateRecord, code: String, now: i64) -> (r: PairingCode)
    requires
        now <= i64::MAX - PAIR_CODE_TTL_SECONDS,
    ensures
        r.code == code,
        r.expires_at == now + PAIR_CODE_TTL_SECONDS,
        final(state).pairing == Some(r),
        final(state).devices == old(state).devices,
        final(state).pinned_prompts == old(state).pinned_prompts,
        final(state).auth_token == old(state).auth_token,
        final(state).lan_enabled == old(state).lan_enabled,
        final(state).lan_bind_host == old(state).lan_bind_host,
        final(state).lan_bind_port == old(state).lan_bind_port,
        final(state).pid == old(state).pid,
        final(state).host == old(state).host,
        final(state).port == old(state).port,
        final(state).started_at == old(state).started_at,
{
    let pairing = PairingCode { code, expires_at: now + PAIR_CODE_TTL_SECONDS };
    state.pairing = Some(pairing.clone());
    pairing
}

/// Why `check_pairing_code` would refuse `code` at `now`, if it would.
pub open spec fn pairing_refusal(pairing: Option<PairingCode>, now: i64, code: Seq<char>) -> Option<StateError> {
    match pairing {
        None => Some(StateError::NoActivePairing),
        Some(p) => if p.expires_at < now {
            Some(StateError::PairingExpired)
        } else if !eq_ignore_ascii_case(p.code@, trim(code)) {
            Some(StateError::InvalidPairingCode)
        } else {
            None
        },
    }
}

/// Checks a pairing code: there must be an open pairing window that has not
/// expired, and its code must equal the trimmed `code` up to ASCII case.
pub fn check_pairing_code(pairing: &Option<PairingCode>, now: i64, code: &str) -> (r: Result<(), StateError>)
    ensures
        match pairing_refusal(*pairing, now, code@) {
            Some(e) => r == Err::<(), StateError>(e),
            None => r is Ok,
        },
{
    match pairing {
        None => Err(StateError::NoActivePairing),
        Some(p) => {
            if p.expires_at < now {
                return Err(StateError::PairingExpired);
            }
            let supplied = chars_of(code);
            let trimmed = trim_chars(supplied.as_slice());
            let expected = chars_of(p.code.as_str());
            if !eq_ignore_ascii_case_chars(expected.as_slice(), trimmed.as_slice()) {
                return Err(StateError::InvalidPairingCode);
            }
            Ok(())
        },
    }
}

/// Pairs a device with the fresh `device_id` and `device_token`: checks the
/// code, appends the device (its name trimmed, paired and last seen at
/// `now`) and closes the pairing window. A refused code changes nothing.
pub fn pair_device(
    state: &mut HubStateRecord,
    now: i64,
    code: &str,
    device_name: &str,
    role: DeviceRole,
    device_id: String,
    device_token: String,
) -> (r: Result<PairCompleteResult, StateError>)
    ensures
        match pairing_refusal(old(state).pairing, now, code@) {
            Some(e) => r == Err::<PairCompleteResult, StateError>(e) && *final(state) == *old(state),
            None => r matches Ok(res) && {
                &&& res.device.device_id == device_id
                &&& res.device.device_name@ == trim(device_name@)
                &&& res.device.role == role
                &&& res.device.paired_at == now
                &&& res.device.last_seen_at == now
                &&& res.device_token == device_token
                &&& final(state).devices@ == old(state).devices@.push(
                    HubDeviceRecord { device: res.device, device_token: res.device_token },
                )
                &&& final(state).pairing is None
                &&& final(state).pinned_prompts == old(state).pinned_prompts
                &&& final(state).auth_token == old(state).auth_token
                &&& final(state).lan_enabled == old(state).lan_enabled
                &&& final(state).lan_bind_host == old(state).lan_bind_host
                &&& final(state).lan_bind_port == old(state).lan_bind_port
                &&& final(state).pid == old(state).pid
                &&& final(state).host == old(state).host
                &&& final(state).port == old(state).port
                &&& final(state).started_at == old(state).started_at
            },
        },
{
    let checked = check_pairing_code(&state.pairing, now, code);
    match checked {
        Err(e) => {
            return Err(e);
        },
        Ok(()) => {},
    }
    let name_chars = chars_of(device_name);
    let name = string_of(trim_chars(name_chars.as_slice()).as_slice());
    let device = HubDevice { device_id, device_name: name, role, paired_at: now, last_seen_at: now };
    let record = HubDeviceRecord { device: device.clone(), device_token: device_token.clone() };
    state.devices.push(record);
    state.pairing = None;
    Ok(PairCompleteResult { device, device_token })
}

// ---------------------------------------------------------------------------
// Devices.
// ---------------------------------------------------------------------------

/// The devices whose id is not `id`, in order.
pub open spec fn without_device(ds: Seq<HubDeviceRecord>, id: Seq<char>) -> Seq<HubDeviceRecord>
    decreases ds.len(),
{
    if ds.len() == 0 {
        seq![]
    } else if ds.last().device.device_id@ == id {
        without_device(ds.drop_last(), id)
    } else {
        without_device(ds.drop_last(), id).push(ds.last())
    }
}

/// Whether some device has the id.
pub open spec fn has_device(ds: Seq<HubDeviceRecord>, id: Seq<char>) -> bool {
    exists|k: int| 0 <= k < ds.len() && (#[trigger] ds[k]).device.device_id@ == id
}

pub proof fn lemma_without_device(ds: Seq<HubDeviceRecord>, id: Seq<char>)
    ensures
        without_device(ds, id).len() <= ds.len(),
        without_device(ds, id).len() == ds.len() <==> !has_device(ds, id),
        forall|k: int| 0 <= k < without_device(ds, id).len() ==> (#[trigger] without_device(ds, id)[k]).device.device_id@ != id,
        forall|k: int| 0 <= k < without_device(ds, id).len() ==> ds.contains(#[trigger] without_device(ds, id)[k]),
        forall|k: int| 0 <= k < ds.len() && (#[trigger] ds[k]).device.device_id@ != id ==> without_device(ds, id).contains(ds[k]),
    decreases ds.len(),
{
    if ds.len() > 0 {
        let init = ds.drop_last();
        lemma_without_device(init, id);
        let w = without_device(ds, id);
        let wi = without_device(init, id);
        assert forall|k: int| 0 <= k < w.len() implies ds.contains(#[trigger] w[k]) by {
            if k < wi.len() {
                assert(wi[k] == w[k]);
                let j = choose|j: int| 0 <= j < init.len() && init[j] == wi[k];
                assert(ds[j] == init[j]);
            } else {
                assert(w[k] == ds.last());
                assert(ds[ds.len() - 1] == ds.last());
            }
        }
        assert forall|k: int| 0 <= k < ds.len() && (#[trigger] ds[k]).device.device_id@ != id implies w.contains(ds[k]) by {
            if k < ds.len() - 1 {
                assert(init[k] == ds[k]);
                let j = choose|j: int| 0 <= j < wi.len() && wi[j] == ds[k];
                assert(w[j] == wi[j]);
            } else {
                assert(w[w.len() - 1] == ds[k]);
            }
        }
        if has_device(ds, id) {
            let k = choose|k: int| 0 <= k < ds.len() && (#[trigger] ds[k]).device.device_id@ == id;
            if k < ds.len() - 1 {
                assert(init[k] == ds[k]);
                assert(has_device(init, id));
            }
        } else {
            assert forall|k: int| 0 <= k < init.len() implies (#[trigger] init[k]).device.device_id@ != id by {
                assert(init[k] == ds[k]);
            }
            assert(!has_device(init, id));
            assert(ds[ds.len() - 1] == ds.last());
        }
    }
}

/// Removes every device with the given id; says whether one was removed.
pub fn revoke_device_in(state: &mut HubStateRecord, device_id: &str) -> (revoked: bool)
    ensures
        final(state).devices@ == without_device(old(state).devices@, device_id@),
        revoked == has_device(old(state).devices@, device_id@),
        final(state).same_but_devices(old(state)),
{
    let ghost before = state.devices@;
    let id = chars_of(device_id);
    let mut kept: Vec<HubDeviceRecord> = Vec::new();
    let mut i: usize = 0;
    while i < state.devices.len()
        invariant
            i <= state.devices@.len(),
            state.devices@ == before,
            kept@ == without_device(before.take(i as int), device_id@),
            id@ == device_id@,
        decreases state.devices@.len() - i,
    {
        let rec = &state.devices[i];
        let rid = chars_of(rec.device.device_id.as_str());
        assert(before.take(i + 1).drop_last() =~= before.take(i as int));
        if !chars_eq(rid.as_slice(), id.as_slice()) {
            kept.push(rec.clone());
        }
        i = i + 1;
    }
    assert(before.take(before.len() as int) =~= before);
    proof {
        lemma_without_device(before, device_id@);
    }
    let revoked = kept.len() != state.devices.len();
    state.devices = kept;
    revoked
}

/// The devices of the state, in pairing order.
pub fn list_devices_in(state: &HubStateRecord) -> (r: Vec<HubDevice>)
    ensures
        r@ == state.devices@.map_values(|d: HubDeviceRecord| d.device),
{
    let mut r: Vec<HubDevice> = Vec::new();
    let mut i: usize = 0;
    while i < state.devices.len()
        invariant
            i <= state.devices@.len(),
            r@ == state.devices@.take(i as int).map_values(|d: HubDeviceRecord| d.device),
        decreases state.devices@.len() - i,
    {
        r.push(state.devices[i].device.clone());
        i = i + 1;
        assert(r@ =~= state.devices@.take(i as int).map_values(|d: HubDeviceRecord| d.device));
    }
    assert(state.devices@.take(state.devices@.len() as int) =~= state.devices@);
    r
}

// ---------------------------------------------------------------------------
// LAN settings.
// ---------------------------------------------------------------------------

/// The LAN bind host after a change request: the trimmed new host when it is
/// given and not blank, the current one otherwise.
pub open spec fn next_bind_host(current: Seq<char>, requested: Option<String>) -> Seq<char> {
    match requested {
        Some(h) => if trim(h@).len() > 0 {
            trim(h@)
        } else {
            current
        },
        None => current,
    }
}

/// Turns LAN exposure on or off and changes the bind address where asked;
/// returns the resulting settings.
pub fn configure_lan_in(
    state: &mut HubStateRecord,
    enabled: bool,
    bind_host: Option<String>,
    bind_port: Option<u16>,
) -> (r: LanConfig)
    ensures
        final(state).lan_enabled == enabled,
        final(state).lan_bind_host@ == next_bind_host(old(state).lan_bind_host@, bind_host),
        final(state).lan_bind_port == match bind_port {
            Some(p) => p,
            None => old(state).lan_bind_port,
        },
        r.enabled == final(state).lan_enabled,
        r.bind_host@ == final(state).lan_bind_host@,
        r.bind_port == final(state).lan_bind_port,
        final(state).devices == old(state).devices,
        final(state).pinned_prompts == old(state).pinned_prompts,
        final(state).pairing == old(state).pairing,
        final(state).auth_token == old(state).auth_token,
        final(state).pid == old(state).pid,
        final(state).host == old(state).host,
        final(state).port == old(state).port,
        final(state).started_at == old(state).started_at,
{
    state.lan_enabled = enabled;
    match bind_host {
        Some(h) => {
            let hc = chars_of(h.as_str());
            let t = trim_chars(hc.as_slice());
            if t.len() > 0 {
                state.lan_bind_host = string_of(t.as_slice());
            }
        },
        None => {},
    }
    match bind_port {
        Some(p) => {
            state.lan_bind_port = p;
        },
        None => {},
    }
    LanConfig {
        enabled: state.lan_enabled,
        bind_host: state.lan_bind_host.clone(),
        bind_port: state.lan_bind_port,
    }
}

// ---------------------------------------------------------------------------
// Pinned prompts.
// ---------------------------------------------------------------------------

/// Index of the entry pinned to `id`, if any.
fn find_pinned(ps: &Vec<PinnedPrompt>, id: &[char]) -> (r: Option<usize>)
    ensures
        match r {
            Some(i) => i < ps@.len() && ps@[i as int].thread_id@ == id@,
            None => forall|k: int| 0 <= k < ps@.len() ==> (#[trigger] ps@[k]).thread_id@ != id@,
        },
{
    let mut i: usize = 0;
    while i < ps.len()
        invariant
            i <= ps@.len(),
            forall|k: int| 0 <= k < i ==> (#[trigger] ps@[k]).thread_id@ != id@,
        decreases ps@.len() - i,
    {
        let t = chars_of(ps[i].thread_id.as_str());
        if chars_eq(t.as_slice(), id) {
            return Some(i);
        }
        i = i + 1;
    }
    None
}

pub proof fn lemma_pinned_map_absent(ps: Seq<PinnedPrompt>, id: Seq<char>)
    requires
        forall|k: int| 0 <= k < ps.len() ==> (#[trigger] ps[k]).thread_id@ != id,
    ensures
        !pinned_map(ps).contains_key(id),
    decreases ps.len(),
{
    if ps.len() > 0 {
        let init = ps.drop_last();
        assert forall|k: int| 0 <= k < init.len() implies (#[trigger] init[k]).thread_id@ != id by {
            assert(init[k] == ps[k]);
        }
        lemma_pinned_map_absent(init, id);
        assert(ps[ps.len() - 1] == ps.last());
    }
}

pub proof fn lemma_pinned_map_at(ps: Seq<PinnedPrompt>, i: int)
    requires
        pinned_unique(ps),
        0 <= i < ps.len(),
    ensures
        pinned_map(ps).contains_key(ps[i].thread_id@),
        pinned_map(ps)[ps[i].thread_id@] == ps[i].prompt@,
    decreases ps.len(),
{
    let init = ps.drop_last();
    if i < ps.len() - 1 {
        assert(init[i] == ps[i]);
        assert(pinned_unique(init)) by {
            assert forall|a: int, b: int| 0 <= a < b < init.len() implies #[trigger] init[a].thread_id@ != #[trigger] init[b].thread_id@ by {
                assert(init[a] == ps[a]);
                assert(init[b] == ps[b]);
            }
        }
        lemma_pinned_map_at(init, i);
        assert(ps[ps.len() - 1] == ps.last());
        assert(ps.last().thread_id@ != ps[i].thread_id@);
    }
}

proof fn lemma_pinned_map_push(ps: Seq<PinnedPrompt>, p: PinnedPrompt)
    ensures
        pinned_map(ps.push(p)) == pinned_map(ps).insert(p.thread_id@, p.prompt@),
{
    assert(ps.push(p).drop_last() =~= ps);
}

/// The map of a sequence with the entry at `i` removed, when entries are
/// unique.
proof fn lemma_pinned_map_remove(ps: Seq<PinnedPrompt>, i: int)
    requires
        pinned_unique(ps),
        0 <= i < ps.len(),
    ensures
        pinned_map(ps.remove(i)) == pinned_map(ps).remove(ps[i].thread_id@),
        pinned_unique(ps.remove(i)),
    decreases ps.len(),
{
    let id = ps[i].thread_id@;
    let r = ps.remove(i);
    assert(pinned_unique(r)) by {
        assert forall|a: int, b: int| 0 <= a < b < r.len() implies #[trigger] r[a].thread_id@ != #[trigger] r[b].thread_id@ by {
            let a2 = if a < i { a } else { a + 1 };
            let b2 = if b < i { b } else { b + 1 };
            assert(r[a] == ps[a2]);
            assert(r[b] == ps[b2]);
        }
    }
    if i == ps.len() - 1 {
        assert(r =~= ps.drop_last());
        assert forall|k: int| 0 <= k < r.len() implies (#[trigger] r[k]).thread_id@ != id by {
            assert(r[k] == ps[k]);
        }
        lemma_pinned_map_absent(r, id);
        assert(pinned_map(r) =~= pinned_map(ps).remove(id));
    } else {
        let init = ps.drop_last();
        assert(pinned_unique(init)) by {
            assert forall|a: int, b: int| 0 <= a < b < init.len() implies #[trigger] init[a].thread_id@ != #[trigger] init[b].thread_id@ by {
                assert(init[a] == ps[a]);
                assert(init[b] == ps[b]);
            }
        }
        assert(init[i] == ps[i]);
        lemma_pinned_map_remove(init, i);
        assert(r =~= init.remove(i).push(ps.last()));
        lemma_pinned_map_push(init.remove(i), ps.last());
        assert(ps[ps.len() - 1] == ps.last());
        assert(ps.last().thread_id@ != id);
        assert(pinned_map(r) =~= pinned_map(ps).remove(id));
    }
}

/// Pins `prompt` to the trimmed `thread_id`, or unpins it when the prompt is
/// blank. A blank thread id is refused and changes nothing.
pub fn set_pinned_prompt_in(state: &mut HubStateRecord, thread_id: &str, prompt: String) -> (r: Result<(), StateError>)
    requires
        old(state).wf(),
    ensures
        final(state).wf(),
        trim(thread_id@).len() == 0 ==> r == Err::<(), StateError>(StateError::EmptyThreadId)
            && *final(state) == *old(state),
        trim(thread_id@).len() > 0 ==> r is Ok && final(state).pinned() == (if is_blank(prompt@) {
            old(state).pinned().remove(trim(thread_id@))
        } else {
            old(state).pinned().insert(trim(thread_id@), prompt@)
        }),
        final(state).devices == old(state).devices,
        final(state).pairing == old(state).pairing,
        final(state).auth_token == old(state).auth_token,
        final(state).lan_enabled == old(state).lan_enabled,
        final(state).lan_bind_host == old(state).lan_bind_host,
        final(state).lan_bind_port == old(state).lan_bind_port,
        final(state).pid == old(state).pid,
        final(state).host == old(state).host,
        final(state).port == old(state).port,
        final(state).started_at == old(state).started_at,
{
    let tc = chars_of(thread_id);
    let id = trim_chars(tc.as_slice());
    if id.len() == 0 {
        return Err(StateError::EmptyThreadId);
    }
    let pc = chars_of(prompt.as_str());
    let blank = is_blank_chars(pc.as_slice());
    let found = find_pinned(&state.pinned_prompts, id.as_slice());
    let ghost ps = state.pinned_prompts@;
    match found {
        Some(i) => {
            proof {
                lemma_pinned_map_remove(ps, i as int);
            }
            let _old = state.pinned_prompts.remove(i);
            assert(state.pinned_prompts@ =~= ps.remove(i as int));
        },
        None => {
            proof {
                lemma_pinned_map_absent(ps, id@);
                assert(pinned_map(ps) =~= pinned_map(ps).remove(id@));
            }
        },
    }
    let ghost removed = state.pinned_prompts@;
    assert(pinned_map(removed) == pinned_map(ps).remove(id@));
    assert(forall|k: int| 0 <= k < removed.len() ==> (#[trigger] removed[k]).thread_id@ != id@) by {
        assert forall|k: int| 0 <= k < removed.len() implies (#[trigger] removed[k]).thread_id@ != id@ by {
            if pinned_map(removed).contains_key(removed[k].thread_id@) {
            }
            lemma_pinned_map_at(removed, k);
        }
    }
    if !blank {
        let entry = PinnedPrompt { thread_id: string_of(id.as_slice()), prompt };
        let ghost e = entry;
        state.pinned_prompts.push(entry);
        proof {
            lemma_pinned_map_push(removed, e);
            assert(pinned_map(ps).remove(id@).insert(id@, prompt@) =~= pinned_map(ps).insert(id@, prompt@));
            let n = state.pinned_prompts@;
            assert forall|a: int, b: int| 0 <= a < b < n.len() implies #[trigger] n[a].thread_id@ != #[trigger] n[b].thread_id@ by {
                if b == n.len() - 1 {
                    assert(n[a] == removed[a]);
                } else {
                    assert(n[a] == removed[a]);
                    assert(n[b] == removed[b]);
                }
            }
        }
    }
    Ok(())
}

/// The prompt pinned to exactly `thread_id`, if any.
pub fn get_pinned_prompt_in(state: &HubStateRecord, thread_id: &str) -> (r: Option<String>)
    requires
        state.wf(),
    ensures
        match r {
            Some(p) => state.pinned().contains_key(thread_id@) && p@ == state.pinned()[thread_id@],
            None => !state.pinned().contains_key(thread_id@),
        },
{
    let id = chars_of(thread_id);
    match find_pinned(&state.pinned_prompts, id.as_slice()) {
        Some(i) => {
            proof {
                lemma_pinned_map_at(state.pinned_prompts@, i as int);
            }
            Some(state.pinned_prompts[i].prompt.clone())
        },
        None => {
            proof {
                lemma_pinned_map_absent(state.pinned_prompts@, id@);
            }
            None
        },
    }
}

} // verus!
