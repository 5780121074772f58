use maze_ssh::agent::{consent_wait_step, ConsentDecision, ConsentEvent, ConsentWait};
use maze_ssh::bridge::{
    watchdog_poll, WatchdogAction,
    distros_to_watch, generate_bashrc_block, generate_fish_block, rc_with_bridge_block, watchdog_restarted, wsl2_distro_names, BridgeConfig,
    DistroBridgeConfig, RelayMode, WatchdogEntry, WslDistro,
};
use maze_ssh::bridge_config::{
    diagnostic_fix_output, set_agent_forwarding, set_auto_restart, set_distro_provider,
};
use maze_ssh::bundler::{record_version, release_info, ReleaseAsset};
use maze_ssh::error::MazeSshError;
use maze_ssh::health::check_all_providers;
use maze_ssh::policy::clear_all_rules;
use maze_ssh::provider::{BinaryVersion, BridgeProvider, RelayBinary};
use maze_ssh::relay::{bootstrap_commands, is_windows_agent_running, stop_relay_commands};
use maze_ssh::wsl::run_in_wsl_args;
use maze_ssh::security::{get_lock_state, AgentMode, SecuritySettings, SecurityState, VaultUnlockMode};

fn entry(name: &str, enabled: bool, auto_restart: bool) -> DistroBridgeConfig {
    DistroBridgeConfig {
        distro_name: name.to_string(),
        enabled,
        socket_path: None,
        provider: BridgeProvider::WindowsOpenSsh,
        allow_agent_forwarding: false,
        relay_mode: RelayMode::Systemd,
        auto_restart,
        max_restarts: 5,
    }
}

#[test]
fn fish_block_sets_the_socket() {
    let b = generate_fish_block("/tmp/a.sock", &RelayMode::Systemd);
    assert_eq!(
        b,
        "# >>> maze-ssh-bridge >>>\nset -x SSH_AUTH_SOCK \"/tmp/a.sock\"\n# <<< maze-ssh-bridge <<<\n"
    );
    let d = generate_fish_block("/tmp/a.sock", &RelayMode::Daemon);
    assert!(d.starts_with("# >>> maze-ssh-bridge >>>\nset -x MAZE_SSH_SOCKET \"/tmp/a.sock\"\n"));
    assert!(d.ends_with("set -x SSH_AUTH_SOCK $MAZE_SSH_SOCKET\n# <<< maze-ssh-bridge <<<\n"));
}

#[test]
fn watchdog_watches_enabled_auto_restart_distros() {
    let config = BridgeConfig {
        distros: vec![entry("A", true, true), entry("B", false, true), entry("C", true, false), entry("D", true, true)],
    };
    assert_eq!(distros_to_watch(&config), vec!["A", "D"]);
    let e = WatchdogEntry { was_active: false, restart_count: 2, last_restart_at: Some(9) };
    let r = watchdog_restarted(e);
    assert!(r.was_active);
    assert_eq!(r.restart_count, 2);
    assert_eq!(r.last_restart_at, Some(9));
}

#[test]
fn only_wsl2_distros_are_named() {
    let listed = vec![
        WslDistro { name: "Ubuntu".to_string(), state: "Running".to_string(), version: 2, is_default: true },
        WslDistro { name: "Legacy".to_string(), state: "Stopped".to_string(), version: 1, is_default: false },
        WslDistro { name: "Debian".to_string(), state: "Stopped".to_string(), version: 2, is_default: false },
    ];
    assert_eq!(wsl2_distro_names(&listed), vec!["Ubuntu", "Debian"]);
}

#[test]
fn provider_switch_needs_teardown_of_a_running_bridge() {
    let mut config = BridgeConfig { distros: vec![entry("Ubuntu", true, true)] };
    assert_eq!(
        set_distro_provider(&mut config, "Ubuntu", BridgeProvider::Pageant, true),
        Err(MazeSshError::BridgeError("Teardown the current bridge before switching providers".to_string()))
    );
    assert_eq!(config.distros[0].provider, BridgeProvider::WindowsOpenSsh);
    assert_eq!(set_distro_provider(&mut config, "Ubuntu", BridgeProvider::Pageant, false), Ok(()));
    assert_eq!(config.distros[0].provider, BridgeProvider::Pageant);
    assert!(config.distros[0].auto_restart);
    assert_eq!(set_distro_provider(&mut config, "Arch", BridgeProvider::OnePassword, true), Ok(()));
    assert_eq!(config.distros.len(), 2);
    assert_eq!(config.distros[1].distro_name, "Arch");
    assert!(!config.distros[1].enabled);
}

#[test]
fn forwarding_and_auto_restart_flags() {
    let mut config = BridgeConfig { distros: vec![entry("Ubuntu", true, true)] };
    set_agent_forwarding(&mut config, "Ubuntu", true);
    set_auto_restart(&mut config, "Ubuntu", false);
    assert!(config.distros[0].allow_agent_forwarding);
    assert!(!config.distros[0].auto_restart);
    set_auto_restart(&mut config, "Nope", true);
    assert_eq!(config.distros.len(), 1);
}

#[test]
fn fix_output_joins_stderr() {
    assert_eq!(diagnostic_fix_output("done\n", ""), "done");
    assert_eq!(diagnostic_fix_output("ok", "warn\n"), "ok\nstderr: warn");
}

fn asset(name: &str, url: &str) -> ReleaseAsset {
    ReleaseAsset { name: Some(name.to_string()), browser_download_url: Some(url.to_string()) }
}

#[test]
fn release_assets_are_picked_by_name() {
    let assets = vec![
        asset("readme.txt", "u0"),
        asset("npiperelay.exe", "u1"),
        asset("checksums.txt", "u2"),
    ];
    let info = release_info(RelayBinary::Npiperelay, Some("v1.2".to_string()), Some(assets.clone())).unwrap();
    assert_eq!(info.tag, "v1.2");
    assert_eq!(info.download_url, "u1");
    assert_eq!(info.checksum_url.as_deref(), Some("u2"));
    assert_eq!(
        release_info(RelayBinary::WslSshPageant, Some("v1.2".to_string()), Some(assets)).unwrap_err(),
        MazeSshError::BridgeError("Asset 'wsl-ssh-pageant.exe' not found in release v1.2".to_string())
    );
    assert_eq!(
        release_info(RelayBinary::Npiperelay, None, Some(vec![])).unwrap_err(),
        MazeSshError::BridgeError("No tag_name in GitHub response".to_string())
    );
    assert_eq!(
        release_info(RelayBinary::Npiperelay, Some("v".to_string()), None).unwrap_err(),
        MazeSshError::BridgeError("No assets in GitHub response".to_string())
    );
}

#[test]
fn recording_a_version_touches_one_binary() {
    let mut v = BinaryVersion { npiperelay: None, wsl_ssh_pageant: Some("v0".to_string()) };
    record_version(&mut v, RelayBinary::Npiperelay, "v9");
    assert_eq!(v.npiperelay.as_deref(), Some("v9"));
    assert_eq!(v.wsl_ssh_pageant.as_deref(), Some("v0"));
}

#[test]
fn provider_probes_decide_availability() {
    let yes = |s: &str| Some(s.to_string());
    let st = check_all_providers(&[yes("Running\r\n")], &[yes("True"), yes("false")], &[yes(" TRUE ")]);
    assert_eq!(st.len(), 3);
    assert!(st[0].available);
    assert!(!st[1].available);
    assert!(st[2].available);
    assert!(is_windows_agent_running(&[yes("running")]));
    assert!(!is_windows_agent_running(&[None]));
    assert!(!is_windows_agent_running(&[]));
}

#[test]
fn relay_command_lists() {
    assert_eq!(stop_relay_commands(RelayMode::Systemd), vec![vec!["systemctl", "--user", "stop", "maze-ssh-relay.service"]]);
    assert_eq!(stop_relay_commands(RelayMode::Daemon), vec![vec!["bash", "-c", "pkill -f maze-ssh-relay.sh || true"]]);
    let (prepare, start) = bootstrap_commands(RelayMode::Systemd);
    assert!(!prepare.is_empty());
    assert!(!start.is_empty());
}

#[test]
fn misc_small_queries() {
    assert!(clear_all_rules().is_empty());
    assert_eq!(RelayBinary::Npiperelay.github_repo(), "jstarks/npiperelay");
    assert_eq!(RelayBinary::WslSshPageant.github_repo(), "benpye/wsl-ssh-pageant");
    let s = SecurityState {
        is_locked: true,
        pin_is_set: true,
        last_activity: 0,
        agent_activated_at: None,
        settings: SecuritySettings {
            auto_lock_timeout_minutes: None,
            agent_key_timeout_minutes: None,
            lock_on_minimize: false,
            vault_unlock_mode: VaultUnlockMode::SameAsPin,
            agent_mode: AgentMode::FileSystem,
        },
        failed_pin_attempts: 0,
        last_failed_attempt: None,
    };
    let l = get_lock_state(&s);
    assert!(l.is_locked && l.pin_is_set);
}

#[test]
fn wsl_commands_name_the_distro() {
    let args = vec!["systemctl".to_string(), "--user".to_string()];
    assert_eq!(run_in_wsl_args("Ubuntu-22.04", &args).unwrap(), vec!["-d", "Ubuntu-22.04", "--", "systemctl", "--user"]);
    assert_eq!(
        run_in_wsl_args("  ", &args).unwrap_err(),
        MazeSshError::WslCommandFailed("Distro name cannot be empty".to_string())
    );
    assert!(run_in_wsl_args("a;rm -rf /", &args).is_err());
}

#[test]
fn shell_setup_twice_is_setup_once() {
    for mode in [RelayMode::Systemd, RelayMode::Daemon] {
        for block in [generate_bashrc_block("/tmp/s.sock", &mode), generate_fish_block("/tmp/s.sock", &mode)] {
            for content in [
                "",
                "alias ll='ls -l'\n",
                "export A=1\r\nexport B=2\r\n\n\n",
                "x\n# >>> maze-ssh-bridge >>>\nold\n# <<< maze-ssh-bridge <<<\ny",
            ] {
                let once = rc_with_bridge_block(content, &block);
                assert_eq!(rc_with_bridge_block(&once, &block), once);
            }
        }
    }
}

#[test]
fn watchdog_does_nothing_while_locked() {
    let e = WatchdogEntry { was_active: true, restart_count: 0, last_restart_at: None };
    assert!(watchdog_poll(true, Some(e), false, 5, 10).is_none());
    let (next, action) = watchdog_poll(false, Some(e), false, 5, 10).unwrap();
    assert_eq!(action, WatchdogAction::Restart);
    assert_eq!(next.restart_count, 1);
    assert_eq!(next.last_restart_at, Some(10));
}

#[test]
fn consent_times_out_into_a_refusal() {
    assert!(matches!(consent_wait_step(1_000, ConsentEvent::Tick(60_999)), ConsentWait::Wait));
    assert!(matches!(consent_wait_step(1_000, ConsentEvent::Tick(61_000)), ConsentWait::Refuse));
    assert!(matches!(consent_wait_step(1_000, ConsentEvent::Closed), ConsentWait::Refuse));
    let d = ConsentDecision { approved: true, selected_key_id: String::new(), allow_mode: "once".to_string() };
    match consent_wait_step(1_000, ConsentEvent::Answered(d)) {
        ConsentWait::Decide(d) => assert!(d.approved),
        _ => panic!("answer not applied"),
    }
}
