use codex_companion::cli::{pair_report, start_report, status_report, stop_report};
use codex_companion::hub::{
    bearer_token_from_header, daemon_args, decide_start, device_id_from_bytes, handle_configure_lan,
    handle_device_list, handle_device_revoke, handle_pair_complete, handle_pair_start,
    handle_shutdown, health_response, hex_token_from_bytes, is_authorized,
    is_authorized_for_stream, now_unix_seconds, pair_code_from_indices, random_device_id,
    random_hex_token, random_pair_code, status_after_failed_probe, hub_connected_frame, hub_event_frame, pair_start_in, stream_step, StreamAction, StreamEvent, unix_seconds_from_reading, status_from_health,
    status_without_state, stop_status_stale, stop_status_without_state, complete_pairing_in,
    HttpStatus, HubStatus, ProbeFailure, StartDecision, StartOptions, WaitLoop, PollOutcome,
    PAIR_CODE_LENGTH, START_WAIT_ATTEMPTS,
};
use codex_companion::hub_state::{
    begin_pairing, configure_lan_in, default_lan_bind_host, default_lan_bind_port,
    get_pinned_prompt_in, list_devices_in, pair_device, revoke_device_in, set_pinned_prompt_in,
    DeviceRole, HubStateRecord, PairingCode, StateError, DEFAULT_HOST, DEFAULT_PORT,
};
use codex_companion::paths::{endpoint, runtime_dir, state_path};

fn fresh_state() -> HubStateRecord {
    HubStateRecord::new(42, "127.0.0.1".to_string(), 46710, 1000, "admin".to_string())
}

fn paired_state() -> HubStateRecord {
    let mut s = fresh_state();
    begin_pairing(&mut s, "ABCD2345".to_string(), 1000);
    pair_device(&mut s, 1001, "abcd2345", "  phone ", DeviceRole::Observer, "dev-1".to_string(), "tok-1".to_string())
        .ok()
        .unwrap();
    begin_pairing(&mut s, "WXYZ6789".to_string(), 1002);
    pair_device(&mut s, 1003, "WXYZ6789", "tablet", DeviceRole::Operator, "dev-2".to_string(), "tok-2".to_string())
        .ok()
        .unwrap();
    s
}

#[test]
fn endpoint_formats_host_and_port() {
    assert_eq!(endpoint("127.0.0.1", 46710), "http://127.0.0.1:46710");
    assert_eq!(endpoint("h", 0), "http://h:0");
}

#[test]
fn runtime_paths_live_under_codex_home() {
    assert_eq!(runtime_dir("/home/u/.codex"), "/home/u/.codex/hub");
    assert_eq!(state_path("/home/u/.codex"), "/home/u/.codex/hub/state.json");
    assert_eq!(runtime_dir("/home/u/.codex/"), "/home/u/.codex/hub");
}

#[test]
fn fresh_state_has_defaults() {
    let s = fresh_state();
    assert!(s.pairing.is_none());
    assert!(!s.lan_enabled);
    assert_eq!(s.lan_bind_host, DEFAULT_HOST);
    assert_eq!(s.lan_bind_port, DEFAULT_PORT);
    assert_eq!(default_lan_bind_host(), "127.0.0.1");
    assert_eq!(default_lan_bind_port(), 46710);
    assert!(s.devices.is_empty());
}

#[test]
fn pairing_accepts_trimmed_code_ignoring_case_once() {
    let mut s = fresh_state();
    let p = begin_pairing(&mut s, "ABCD2345".to_string(), 1000);
    assert_eq!(p.expires_at, 1600);
    let r = pair_device(&mut s, 1100, " abcd2345 ", " laptop ", DeviceRole::Operator, "dev-x".to_string(), "tok".to_string());
    let res = r.ok().unwrap();
    assert_eq!(res.device.device_name, "laptop");
    assert_eq!(res.device.device_id, "dev-x");
    assert_eq!(res.device.paired_at, 1100);
    assert_eq!(res.device_token, "tok");
    assert!(s.pairing.is_none());
    assert_eq!(s.devices.len(), 1);
    // The code is single-use.
    let again = pair_device(&mut s, 1100, "ABCD2345", "x", DeviceRole::Observer, "d".to_string(), "t".to_string());
    assert_eq!(again.err(), Some(StateError::NoActivePairing));
    assert_eq!(s.devices.len(), 1);
}

#[test]
fn pairing_refuses_expired_and_wrong_codes() {
    let mut s = fresh_state();
    begin_pairing(&mut s, "ABCD2345".to_string(), 1000);
    let wrong = pair_device(&mut s, 1000, "ABCD2346", "x", DeviceRole::Observer, "d".to_string(), "t".to_string());
    assert_eq!(wrong.err(), Some(StateError::InvalidPairingCode));
    let late = pair_device(&mut s, 1601, "ABCD2345", "x", DeviceRole::Observer, "d".to_string(), "t".to_string());
    assert_eq!(late.err(), Some(StateError::PairingExpired));
    // At the expiry second itself the code still works.
    let ok = pair_device(&mut s, 1600, "ABCD2345", "x", DeviceRole::Observer, "d".to_string(), "t".to_string());
    assert!(ok.is_ok());
    assert_eq!(StateError::NoActivePairing.message(), "no active pairing request");
    assert_eq!(StateError::PairingExpired.message(), "pairing code has expired");
    assert_eq!(StateError::InvalidPairingCode.message(), "invalid pairing code");
    assert_eq!(StateError::EmptyThreadId.message(), "thread_id cannot be empty");
}

#[test]
fn complete_pairing_with_fresh_credentials() {
    let mut s = fresh_state();
    begin_pairing(&mut s, "ABCD2345".to_string(), 1000);
    let res = complete_pairing_in(&mut s, 1000, "abcd2345", "", DeviceRole::PromptOnly).ok().unwrap();
    assert!(res.device.device_id.starts_with("dev-"));
    assert_eq!(res.device.device_id.len(), 24);
    assert_eq!(res.device_token.len(), 48);
    assert_eq!(res.device.device_name, "");
    assert_eq!(s.devices[0].device_token, res.device_token);
}

#[test]
fn revoking_removes_only_that_device() {
    let mut s = paired_state();
    assert!(revoke_device_in(&mut s, "dev-1"));
    assert_eq!(s.devices.len(), 1);
    assert_eq!(s.devices[0].device.device_id, "dev-2");
    assert!(!revoke_device_in(&mut s, "dev-1"));
    assert_eq!(s.devices.len(), 1);
}

#[test]
fn revoked_token_no_longer_opens_the_stream() {
    let mut s = paired_state();
    assert!(is_authorized_for_stream(Some("Bearer tok-1"), &s));
    assert!(is_authorized_for_stream(Some("Bearer admin"), &s));
    revoke_device_in(&mut s, "dev-1");
    assert!(!is_authorized_for_stream(Some("Bearer tok-1"), &s));
    assert!(is_authorized_for_stream(Some("Bearer tok-2"), &s));
    assert!(!is_authorized_for_stream(None, &s));
    assert!(!is_authorized_for_stream(Some("tok-2"), &s));
}

#[test]
fn bearer_authorization_needs_the_exact_token() {
    assert!(is_authorized(Some("Bearer secret"), "secret"));
    assert!(!is_authorized(Some("Bearer secret "), "secret"));
    assert!(!is_authorized(Some("bearer secret"), "secret"));
    assert!(!is_authorized(None, "secret"));
    assert_eq!(bearer_token_from_header(Some("Bearer abc")), Some("abc".to_string()));
    assert_eq!(bearer_token_from_header(Some("Basic abc")), None);
}

#[test]
fn lan_configuration_keeps_host_when_blank() {
    let mut s = fresh_state();
    let c = configure_lan_in(&mut s, true, Some("  0.0.0.0 ".to_string()), Some(5000));
    assert!(c.enabled);
    assert_eq!(c.bind_host, "0.0.0.0");
    assert_eq!(c.bind_port, 5000);
    let c = configure_lan_in(&mut s, false, Some("   ".to_string()), None);
    assert!(!c.enabled);
    assert_eq!(c.bind_host, "0.0.0.0");
    assert_eq!(c.bind_port, 5000);
}

#[test]
fn pinned_prompts_read_after_write() {
    let mut s = fresh_state();
    assert!(set_pinned_prompt_in(&mut s, " t1 ", "keep going".to_string()).is_ok());
    assert_eq!(get_pinned_prompt_in(&s, "t1"), Some("keep going".to_string()));
    assert_eq!(get_pinned_prompt_in(&s, " t1 "), None);
    assert!(set_pinned_prompt_in(&mut s, "t2", "other".to_string()).is_ok());
    assert!(set_pinned_prompt_in(&mut s, "t1", "replaced".to_string()).is_ok());
    assert_eq!(get_pinned_prompt_in(&s, "t1"), Some("replaced".to_string()));
    assert_eq!(s.pinned_prompts.len(), 2);
    assert!(set_pinned_prompt_in(&mut s, "t1", "   ".to_string()).is_ok());
    assert_eq!(get_pinned_prompt_in(&s, "t1"), None);
    assert_eq!(get_pinned_prompt_in(&s, "t2"), Some("other".to_string()));
    assert_eq!(set_pinned_prompt_in(&mut s, "  ", "x".to_string()), Err(StateError::EmptyThreadId));
}

#[test]
fn devices_are_listed_in_pairing_order() {
    let s = paired_state();
    let ds = list_devices_in(&s);
    assert_eq!(ds.len(), 2);
    assert_eq!(ds[0].device_name, "phone");
    assert_eq!(ds[1].role, DeviceRole::Operator);
}

#[test]
fn endpoints_require_the_admin_token() {
    let mut s = paired_state();
    assert_eq!(handle_device_list(&s, Some("Bearer tok-1")).err(), Some(HttpStatus::Unauthorized));
    assert_eq!(handle_device_list(&s, Some("Bearer admin")).ok().map(|d| d.len()), Some(2));
    assert_eq!(handle_shutdown(&s, None), Err(HttpStatus::Unauthorized));
    assert_eq!(handle_shutdown(&s, Some("Bearer admin")), Ok(()));
    assert_eq!(handle_device_revoke(&mut s, Some("Bearer nope"), "dev-1"), Err(HttpStatus::Unauthorized));
    assert_eq!(s.devices.len(), 2);
    assert_eq!(handle_device_revoke(&mut s, Some("Bearer admin"), "dev-1"), Ok(true));
    assert_eq!(handle_device_revoke(&mut s, Some("Bearer admin"), "dev-1"), Ok(false));
    assert_eq!(
        handle_configure_lan(&mut s, None, true, None, None).err(),
        Some(HttpStatus::Unauthorized)
    );
    let c = handle_configure_lan(&mut s, Some("Bearer admin"), true, None, Some(9)).ok().unwrap();
    assert!(c.enabled && c.bind_port == 9);
}

#[test]
fn pair_endpoints_answer_as_documented() {
    let mut s = fresh_state();
    assert_eq!(handle_pair_start(&mut s, Some("Bearer x"), "ABCD2345".to_string(), 10).err(), Some(HttpStatus::Unauthorized));
    let p = handle_pair_start(&mut s, Some("Bearer admin"), "ABCD2345".to_string(), 10).ok().unwrap();
    assert_eq!(p.expires_at, 610);
    let bad = handle_pair_complete(&mut s, 20, "ZZZZ", "n", DeviceRole::Observer, "d".to_string(), "t".to_string());
    assert_eq!(bad.err(), Some(HttpStatus::Forbidden));
    let blank = handle_pair_complete(&mut s, 20, "ABCD2345", "  ", DeviceRole::Observer, "d".to_string(), "t".to_string());
    assert_eq!(blank.err(), Some(HttpStatus::BadRequest));
    let ok = handle_pair_complete(&mut s, 20, "ABCD2345", "n", DeviceRole::Observer, "d".to_string(), "t".to_string());
    assert!(ok.is_ok());
    let late = handle_pair_complete(&mut s, 20, "ABCD2345", "n", DeviceRole::Observer, "d".to_string(), "t".to_string());
    assert_eq!(late.err(), Some(HttpStatus::Forbidden));
}

#[test]
fn tokens_and_codes_have_their_shapes() {
    assert_eq!(hex_token_from_bytes(&[0x00, 0xab, 0x7f]), "00ab7f");
    assert_eq!(device_id_from_bytes(&[0x01, 0xff]), "dev-01ff");
    assert_eq!(pair_code_from_indices(&[0, 8, 31, 24]), "AJ92");
    let t = random_hex_token();
    assert_eq!(t.len(), 48);
    assert!(t.chars().all(|c| c.is_ascii_hexdigit() && !c.is_ascii_uppercase()));
    let id = random_device_id();
    assert!(id.starts_with("dev-") && id.len() == 24);
    let code = random_pair_code();
    assert_eq!(code.len(), PAIR_CODE_LENGTH);
    assert!(code.chars().all(|c| "ABCDEFGHJKLMNPQRSTUVWXYZ23456789".contains(c)));
    assert!(now_unix_seconds() > 1_600_000_000);
}

#[test]
fn clock_readings_become_unix_seconds() {
    assert_eq!(unix_seconds_from_reading(Some(1_700_000_000)), 1_700_000_000);
    assert_eq!(unix_seconds_from_reading(None), 0);
}

#[test]
fn health_and_status_reports() {
    let s = paired_state();
    let h = health_response(&s);
    assert_eq!(h.status, "ok");
    assert_eq!(h.device_count, 2);
    let st = status_from_health(&h);
    assert!(st.running);
    assert_eq!(st.endpoint, Some("http://127.0.0.1:46710".to_string()));
    assert_eq!(st.pid, Some(42));
    let down = status_after_failed_probe(&s, ProbeFailure::Unreachable, "refused");
    assert!(!down.running);
    assert_eq!(down.reason, Some("hub not reachable: refused".to_string()));
    let sick = status_after_failed_probe(&s, ProbeFailure::Unhealthy, "500");
    assert_eq!(sick.reason, Some("hub returned unhealthy status: 500".to_string()));
    let none = status_without_state(None);
    assert!(!none.running && none.endpoint.is_none() && none.device_count == 0);
    assert_eq!(stop_status_without_state().reason, Some("codex hub is not running".to_string()));
    assert_eq!(stop_status_stale(&s).reason, Some("hub was unreachable; removed stale state".to_string()));
}

#[test]
fn start_refuses_a_running_hub() {
    let running = HubStatus {
        running: true,
        endpoint: Some("http://h:1".to_string()),
        pid: Some(1),
        started_at: Some(2),
        lan_enabled: false,
        device_count: 0,
        reason: None,
    };
    match decide_start(&running, "127.0.0.1", 46710) {
        StartDecision::AlreadyRunning(m) => assert_eq!(m, "codex hub is already running at http://h:1"),
        _ => panic!("must refuse"),
    }
    let stale = HubStatus { running: false, ..running };
    assert!(matches!(decide_start(&stale, "h", 1), StartDecision::Launch { remove_stale_state: true }));
    let nothing = status_without_state(None);
    assert!(matches!(decide_start(&nothing, "h", 1), StartDecision::Launch { remove_stale_state: false }));
}

#[test]
fn wait_loop_polls_a_bounded_number_of_times() {
    let mut w = WaitLoop::new(START_WAIT_ATTEMPTS);
    let mut polls = 0;
    while w.should_poll() {
        polls += 1;
        w.record_miss();
    }
    assert_eq!(polls, 50);
}

#[test]
fn daemon_is_launched_with_its_options() {
    let o = StartOptions {
        codex_bin: "/bin/codex".to_string(),
        codex_home: "/home/u/.codex".to_string(),
        host: "127.0.0.1".to_string(),
        port: 46710,
    };
    assert_eq!(
        daemon_args(&o, "tok"),
        vec!["hub", "daemon", "--codex-home", "/home/u/.codex", "--host", "127.0.0.1", "--port", "46710", "--auth-token", "tok"]
    );
}

#[test]
fn cli_reports() {
    let s = paired_state();
    let up = status_from_health(&health_response(&s));
    assert_eq!(
        status_report(&up),
        vec!["Codex hub is running at http://127.0.0.1:46710", "PID: 42", "Started at (unix seconds): 1000"]
    );
    let down = stop_status_stale(&s);
    assert_eq!(
        status_report(&down),
        vec![
            "Codex hub is not running.",
            "Last known endpoint: http://127.0.0.1:46710",
            "Details: hub was unreachable; removed stale state"
        ]
    );
    assert_eq!(stop_report(&down), vec!["Codex hub stopped.", "Details: hub was unreachable; removed stale state"]);
    assert_eq!(stop_report(&up), vec!["Codex hub is still running at http://127.0.0.1:46710"]);
    assert_eq!(start_report(&status_without_state(None), "h", 7), "Codex hub started at http://h:7");
    let code = PairingCode { code: "ABCD2345".to_string(), expires_at: -5 };
    assert_eq!(pair_report(&code), vec!["Pairing code: ABCD2345", "Expires at (unix seconds): -5"]);
}

#[test]
fn pair_start_draws_a_code_and_opens_a_window() {
    let mut s = fresh_state();
    assert_eq!(pair_start_in(&mut s, Some("Bearer nope"), 1000).err(), Some(HttpStatus::Unauthorized));
    assert_eq!(s.pairing, None);
    let p = pair_start_in(&mut s, Some("Bearer admin"), 1000).ok().unwrap();
    assert_eq!(p.code.chars().count(), PAIR_CODE_LENGTH);
    assert!(p.code.chars().all(|c| "ABCDEFGHJKLMNPQRSTUVWXYZ23456789".contains(c)));
    assert_eq!(p.expires_at, 1600);
    assert_eq!(s.pairing, Some(p));
}

#[test]
fn stream_steps_answer_each_event() {
    assert!(matches!(stream_step(StreamEvent::InboundPing(vec![1, 2])), StreamAction::SendPong(p) if p == vec![1, 2]));
    assert!(matches!(stream_step(StreamEvent::Outbound("m".to_string())), StreamAction::SendText(t) if t == "m"));
    assert!(matches!(stream_step(StreamEvent::InboundOther), StreamAction::Ignore));
    assert!(matches!(stream_step(StreamEvent::Lagged), StreamAction::Ignore));
    for e in [
        StreamEvent::InboundClose,
        StreamEvent::InboundEnd,
        StreamEvent::InboundError,
        StreamEvent::BroadcastClosed,
        StreamEvent::SendFailed,
    ] {
        assert!(matches!(stream_step(e), StreamAction::Stop));
    }
}

#[test]
fn connected_frame_is_compact_json() {
    assert_eq!(
        hub_connected_frame(1700000000),
        Some("{\"at\":1700000000,\"event\":\"hub.connected\",\"payload\":{}}".to_string())
    );
    assert_eq!(hub_connected_frame(-5), Some("{\"at\":-5,\"event\":\"hub.connected\",\"payload\":{}}".to_string()));
    // A name that needs escaping goes through serde_json's string escaping.
    assert_eq!(
        hub_event_frame("a\"b", 3, "{\"k\":1}"),
        Some("{\"at\":3,\"event\":\"a\\\"b\",\"payload\":{\"k\":1}}".to_string())
    );
}

#[test]
fn polling_stops_at_the_awaited_status_or_times_out() {
    let mut w = WaitLoop::new(2);
    let stopped = status_without_state(None);
    assert!(matches!(w.observe(stopped, false), PollOutcome::Reached(s) if !s.running));
    assert_eq!(w.attempts_left, 2);
    let mut running = status_without_state(None);
    running.running = true;
    assert!(matches!(w.observe(running.clone(), false), PollOutcome::KeepPolling));
    assert!(matches!(w.observe(running.clone(), false), PollOutcome::TimedOut));
    assert_eq!(w.attempts_left, 0);
    let mut s = WaitLoop::new(1);
    assert!(matches!(s.observe(running, true), PollOutcome::Reached(r) if r.running));
    assert!(!stop_status_without_state().lan_enabled);
}
