use maze_ssh::agent::{consent_outcome, handle_message, needs_consent, AgentAction, AllowMode, ConsentDecision};
use maze_ssh::bridge::{watchdog_step, BridgeConfig, BridgeHistoryEvent, BridgeHistoryEventKind, DistroBridgeConfig, RelayMode, WatchdogAction, WatchdogEntry};
use maze_ssh::bridge_config::{
    diagnostic_cmd_to_argv, import_bridge_config, set_bridge_enabled, set_distro_socket_path,
    validate_diagnostic_cmd, validate_socket_path,
};
use maze_ssh::bundler::{parse_expected_checksum, progress_step, sha256_hex, update_status, verify_download};
use maze_ssh::error::MazeSshError;
use maze_ssh::health::{check_provider, eq_ignore_ascii_case_str};
use maze_ssh::history::{append_event, history_file_name, read_events, read_logs};
use maze_ssh::policy::{add_always_rule, has_always_rule, remove_rule, PolicyRule, SessionRules};
use maze_ssh::protocol::{AgentMessage, AgentResponse};
use maze_ssh::provider::{BridgeProvider, RelayBinary};
use maze_ssh::security::{
    check_agent_expiry, check_inactivity_and_lock, check_pin_lockout, ensure_unlocked,
    get_agent_time_remaining, record_pin_attempt, AgentMode, AuditEntry, SecuritySettings,
    SecurityState, VaultUnlockMode,
};
use maze_ssh::state::AppState;

fn security() -> SecurityState {
    SecurityState {
        is_locked: false,
        pin_is_set: true,
        last_activity: 0,
        agent_activated_at: None,
        settings: SecuritySettings {
            auto_lock_timeout_minutes: Some(5),
            agent_key_timeout_minutes: Some(10),
            lock_on_minimize: false,
            vault_unlock_mode: VaultUnlockMode::SameAsPin,
            agent_mode: AgentMode::FileSystem,
        },
        failed_pin_attempts: 0,
        last_failed_attempt: None,
    }
}

fn entry(name: &str) -> DistroBridgeConfig {
    DistroBridgeConfig {
        distro_name: name.to_string(),
        enabled: false,
        socket_path: None,
        provider: BridgeProvider::WindowsOpenSsh,
        allow_agent_forwarding: false,
        relay_mode: RelayMode::Systemd,
        auto_restart: true,
        max_restarts: 5,
    }
}

// ── Security ──

#[test]
fn five_failed_pins_lock_out_for_a_minute() {
    let mut s = security();
    for _ in 0..5 {
        record_pin_attempt(&mut s, false, 1_000);
    }
    match check_pin_lockout(&s, 11_000) {
        Err(MazeSshError::SecurityError(m)) => assert_eq!(m, "Too many failed attempts. Try again in 50 seconds."),
        other => panic!("unexpected {:?}", other),
    }
    assert!(check_pin_lockout(&s, 61_000).is_ok());
}

#[test]
fn failed_pin_reports_attempts_left() {
    let mut s = security();
    let text = record_pin_attempt(&mut s, false, 5);
    assert_eq!(text, "Invalid PIN (4 attempts remaining)");
    let ok = record_pin_attempt(&mut s, true, 6);
    assert_eq!(ok, "success");
    assert_eq!(s.failed_pin_attempts, 0);
    assert!(!s.is_locked);
}

#[test]
fn locked_app_refuses_commands() {
    let mut s = security();
    s.is_locked = true;
    assert!(matches!(ensure_unlocked(&mut s, 10), Err(MazeSshError::AppLocked)));
    let mut u = security();
    assert!(ensure_unlocked(&mut u, 10).is_ok());
    assert_eq!(u.last_activity, 10);
}

#[test]
fn inactivity_locks_after_timeout() {
    let mut s = security();
    assert_eq!(check_inactivity_and_lock(&mut s, 299_999), None);
    assert!(!s.is_locked);
    assert_eq!(check_inactivity_and_lock(&mut s, 300_000), Some(5));
    assert!(s.is_locked);
}

#[test]
fn agent_keys_expire() {
    let mut s = security();
    s.agent_activated_at = Some(1_000);
    assert_eq!(get_agent_time_remaining(&s, 61_000), Some(540));
    assert_eq!(check_agent_expiry(&mut s, 600_999), None);
    assert_eq!(check_agent_expiry(&mut s, 601_000), Some(10));
    assert_eq!(s.agent_activated_at, None);
}

// ── Policy ──

#[test]
fn session_rules_allow_and_clear() {
    let mut r = SessionRules::new();
    assert!(!r.is_allowed("k1"));
    r.allow("k1");
    assert!(r.is_allowed("k1"));
    r.clear();
    assert!(!r.is_allowed("k1"));
}

#[test]
fn always_rules_are_not_duplicated() {
    let mut rules: Vec<PolicyRule> = Vec::new();
    assert!(add_always_rule(&mut rules, "k1", "Key", "t"));
    assert!(!add_always_rule(&mut rules, "k1", "Key", "t"));
    assert_eq!(rules.len(), 1);
    assert!(has_always_rule(&rules, "k1"));
    let rules = remove_rule(rules, "k1");
    assert!(!has_always_rule(&rules, "k1"));
}

// ── History ──

fn event(i: usize) -> BridgeHistoryEvent {
    BridgeHistoryEvent { timestamp: format!("t{}", i), event: BridgeHistoryEventKind::BridgeStarted, detail: None }
}

#[test]
fn history_keeps_the_last_200() {
    let mut events = Vec::new();
    for i in 0..205 {
        events = append_event(events, event(i));
    }
    assert_eq!(events.len(), 200);
    assert_eq!(events[0].timestamp, "t5");
    let newest = read_events(events, 2);
    assert_eq!(newest.len(), 2);
    assert_eq!(newest[0].timestamp, "t204");
    assert_eq!(newest[1].timestamp, "t203");
}

#[test]
fn history_file_name_is_safe() {
    assert_eq!(history_file_name("Ubuntu 22/04"), "bridge-history-Ubuntu_22_04.json");
}

#[test]
fn audit_logs_filter_and_page() {
    let mk = |a: &str, r: &str| AuditEntry {
        timestamp: String::new(),
        action: a.to_string(),
        profile_name: None,
        result: r.to_string(),
        distro: None,
        provider: None,
    };
    let entries = vec![mk("lock", "1"), mk("unlock", "2"), mk("lock", "3"), mk("lock", "4")];
    let page = read_logs(entries, 1, 1, Some("lock"));
    assert_eq!(page.len(), 1);
    assert_eq!(page[0].result, "3");
}

// ── State ──

#[test]
fn watchdog_entries_are_recorded_per_distro() {
    let mut st = AppState::new(0);
    assert!(st.watchdog_entry("Ubuntu").is_none());
    let e = WatchdogEntry { was_active: true, restart_count: 2, last_restart_at: Some(7) };
    st.set_watchdog_entry("Ubuntu", e);
    let got = st.watchdog_entry("Ubuntu").unwrap();
    assert_eq!(got.restart_count, 2);
    assert!(st.watchdog_entry("Debian").is_none());
}

#[test]
fn watchdog_restarts_until_the_cap() {
    let (e, a) = watchdog_step(None, true, 2, 0);
    assert_eq!(a, WatchdogAction::Init);
    let (e, a) = watchdog_step(Some(e), false, 2, 1);
    assert_eq!(a, WatchdogAction::Restart);
    assert_eq!(e.restart_count, 1);
    let (e, a) = watchdog_step(Some(e), false, 2, 2);
    assert_eq!(a, WatchdogAction::Restart);
    let (_, a) = watchdog_step(Some(e), false, 2, 3);
    assert_eq!(a, WatchdogAction::AlreadyPaused);
}

// ── Agent ──

#[test]
fn agent_refuses_to_add_keys() {
    match handle_message(AgentMessage::AddIdentity { raw: vec![1] }) {
        AgentAction::Respond(AgentResponse::Failure) => {},
        _ => panic!("expected failure"),
    }
    match handle_message(AgentMessage::RemoveAllIdentities) {
        AgentAction::Respond(AgentResponse::Success) => {},
        _ => panic!("expected success"),
    }
}

#[test]
fn consent_decides_key_and_mode() {
    let d = ConsentDecision { approved: true, selected_key_id: String::new(), allow_mode: "session".into() };
    let (k, m) = consent_outcome(&d, "req").unwrap();
    assert_eq!(k, "req");
    assert_eq!(m, AllowMode::Session);
    let d = ConsentDecision { approved: false, selected_key_id: "x".into(), allow_mode: "always".into() };
    assert!(consent_outcome(&d, "req").is_none());
    assert!(!needs_consent(true, false));
    assert!(needs_consent(false, false));
}

// ── Bundler ──

#[test]
fn sha256_known_vector() {
    assert_eq!(sha256_hex(b"abc"), "ba7816bf8f01cfea414140de5dae2223b00361a396177a9cb410ff61f20015ad");
}

#[test]
fn checksum_file_is_read() {
    let text = "ba7816bf8f01cfea414140de5dae2223b00361a396177a9cb410ff61f20015ad  npiperelay.exe\n";
    assert_eq!(
        parse_expected_checksum(text, "npiperelay.exe").unwrap(),
        "ba7816bf8f01cfea414140de5dae2223b00361a396177a9cb410ff61f20015ad"
    );
    assert!(parse_expected_checksum(text, "other.exe").is_none());
}

#[test]
fn download_with_wrong_checksum_is_refused() {
    let good = Some("ba7816bf8f01cfea414140de5dae2223b00361a396177a9cb410ff61f20015ad".to_string());
    assert!(verify_download(b"abc", &good, "a.exe", "v1").is_ok());
    assert!(matches!(verify_download(b"abd", &good, "a.exe", "v1"), Err(MazeSshError::BridgeError(_))));
}

#[test]
fn progress_moves_in_steps() {
    assert_eq!(progress_step(50, 100, 0), Some(50));
    assert_eq!(progress_step(52, 100, 50), None);
}

#[test]
fn update_available_when_versions_differ() {
    let s = update_status(RelayBinary::Npiperelay, &Some("v1".into()), &Some("v2".into()));
    assert!(s.update_available);
    let s = update_status(RelayBinary::Npiperelay, &Some("v2".into()), &Some("v2".into()));
    assert!(!s.update_available);
}

// ── Health ──

#[test]
fn windows_openssh_is_available_when_running() {
    let st = check_provider(&BridgeProvider::WindowsOpenSsh, &[Some(" running\n".to_string())]);
    assert!(st.available);
    let st = check_provider(&BridgeProvider::WindowsOpenSsh, &[Some("Stopped".to_string())]);
    assert!(!st.available);
    assert!(eq_ignore_ascii_case_str("RuNNing", "running"));
}

// ── Bridge configuration ──

#[test]
fn socket_paths_are_checked() {
    assert!(validate_socket_path("/tmp/agent.sock").is_ok());
    assert!(validate_socket_path("/run/user/1000/a.sock").is_ok());
    match validate_socket_path("/tmp/../etc/x") {
        Err(MazeSshError::BridgeError(m)) => assert_eq!(m, "Socket path cannot contain '.' or '..' path components"),
        other => panic!("unexpected {:?}", other),
    }
    match validate_socket_path("/home/a.sock") {
        Err(MazeSshError::BridgeError(m)) => assert_eq!(m, "Socket path must start with /tmp/ or /run/user/"),
        other => panic!("unexpected {:?}", other),
    }
    assert!(validate_socket_path("/tmp/a b").is_err());
}

#[test]
fn socket_path_of_unknown_distro_adds_entry() {
    let mut c = BridgeConfig { distros: vec![] };
    set_distro_socket_path(&mut c, "Ubuntu", "/tmp/x.sock".to_string()).unwrap();
    assert_eq!(c.distros.len(), 1);
    assert_eq!(c.distros[0].socket_path.as_deref(), Some("/tmp/x.sock"));
    assert!(!c.distros[0].enabled);
}

#[test]
fn enabling_twice_keeps_one_entry() {
    let mut c = BridgeConfig { distros: vec![] };
    set_bridge_enabled(&mut c, "Ubuntu", true);
    set_bridge_enabled(&mut c, "Ubuntu", true);
    assert_eq!(c.distros.len(), 1);
    assert!(c.distros[0].enabled);
    set_bridge_enabled(&mut c, "Debian", false);
    assert_eq!(c.distros.len(), 1);
}

#[test]
fn diagnostic_fixes_are_allowlisted() {
    assert!(validate_diagnostic_cmd("sudo apt install socat").is_ok());
    assert!(validate_diagnostic_cmd("rm -f /tmp/maze.sock").is_ok());
    assert!(validate_diagnostic_cmd("rm -rf /").is_err());
    assert_eq!(diagnostic_cmd_to_argv("rm -f /tmp/x.sock"), vec!["rm", "-f", "/tmp/x.sock"]);
    assert_eq!(
        diagnostic_cmd_to_argv("systemctl --user start maze-ssh-relay.service"),
        vec!["systemctl", "--user", "start", "maze-ssh-relay.service"]
    );
}

#[test]
fn import_replaces_and_appends() {
    let mut c = BridgeConfig { distros: vec![entry("Ubuntu")] };
    let mut replaced = entry("Ubuntu");
    replaced.enabled = true;
    let imported = BridgeConfig { distros: vec![replaced, entry("Debian")] };
    assert_eq!(import_bridge_config(&mut c, imported).unwrap(), 2);
    assert_eq!(c.distros.len(), 2);
    assert!(c.distros[0].enabled);
    assert_eq!(c.distros[1].distro_name, "Debian");
}

#[test]
fn import_with_blank_name_changes_nothing() {
    let mut c = BridgeConfig { distros: vec![entry("Ubuntu")] };
    let imported = BridgeConfig { distros: vec![entry("Debian"), entry("  ")] };
    match import_bridge_config(&mut c, imported) {
        Err(MazeSshError::BridgeError(m)) => assert_eq!(m, "Imported config contains a distro with an empty name"),
        other => panic!("unexpected {:?}", other),
    }
    assert_eq!(c.distros.len(), 1);
}
