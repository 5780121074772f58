use maze_ssh::bridge::{
    configure_agent_forwarding, generate_bashrc_block, generate_relay_script,
    generate_systemd_unit, get_distro_status, get_relay_logs, get_shell_injections,
    max_restarts_for, preview_windows_ssh_host, rc_with_bridge_block, rc_without_bridge_block,
    relay_log_command, relay_script_is_stale, remove_marker_block, remove_single_shell_injection,
    resolve_relay_mode, resolve_socket_path, run_diagnostics, ssh_test_argv, test_ssh_via_bridge,
    watchdog_step, windows_path_to_wsl, windows_ssh_config_with_host,
    windows_ssh_config_without_host, BridgeConfig, DiagnosticProbes, DistroBridgeConfig,
    DistroProbes, RelayMode, WatchdogAction, WatchdogEntry, WslDistro, BRIDGE_MARKER_BEGIN,
};
use maze_ssh::error::MazeSshError;
use maze_ssh::provider::BridgeProvider;
use maze_ssh::wsl::CmdOutput;

fn out(stdout: &str, stderr: &str, success: bool) -> Option<CmdOutput> {
    Some(CmdOutput { stdout: stdout.to_string(), stderr: stderr.to_string(), success })
}

fn distro_cfg(name: &str, mode: RelayMode, socket: Option<&str>) -> DistroBridgeConfig {
    DistroBridgeConfig {
        distro_name: name.to_string(),
        enabled: true,
        socket_path: socket.map(|s| s.to_string()),
        provider: BridgeProvider::WindowsOpenSsh,
        allow_agent_forwarding: false,
        relay_mode: mode,
        auto_restart: true,
        max_restarts: 3,
    }
}

#[test]
fn test_windows_path_to_wsl() {
    assert_eq!(
        windows_path_to_wsl(r"C:\Users\test\.maze-ssh\bin\npiperelay.exe"),
        "/mnt/c/Users/test/.maze-ssh/bin/npiperelay.exe"
    );
    assert_eq!(windows_path_to_wsl(r"D:\some\path"), "/mnt/d/some/path");
}

#[test]
fn test_remove_marker_block() {
    let content = "line1\n# >>> maze-ssh-bridge >>>\nexport SSH_AUTH_SOCK=\"/tmp/test.sock\"\n# <<< maze-ssh-bridge <<<\nline2\n";
    let cleaned = remove_marker_block(content);
    assert!(!cleaned.contains("maze-ssh-bridge"));
    assert!(cleaned.contains("line1"));
    assert!(cleaned.contains("line2"));
}

#[test]
fn test_remove_marker_block_no_markers() {
    let content = "line1\nline2\n";
    let cleaned = remove_marker_block(content);
    assert_eq!(cleaned, content);
}

#[test]
fn test_remove_marker_block_orphaned_begin_preserved() {
    let content = "line1\n# >>> maze-ssh-bridge >>>\nline2\nline3\n";
    let cleaned = remove_marker_block(content);
    assert!(cleaned.contains("line1"));
    assert!(cleaned.contains("maze-ssh-bridge"));
    assert!(cleaned.contains("line2"));
    assert!(cleaned.contains("line3"));
}

#[test]
fn test_remove_block_between_multiple_blocks() {
    let content = "a\n# >>> maze-ssh-bridge >>>\nblock1\n# <<< maze-ssh-bridge <<<\nb\n# >>> maze-ssh-bridge >>>\nblock2\n# <<< maze-ssh-bridge <<<\nc\n";
    let cleaned = remove_marker_block(content);
    assert!(cleaned.contains('a'));
    assert!(cleaned.contains('b'));
    assert!(cleaned.contains('c'));
    assert!(!cleaned.contains("block1"));
    assert!(!cleaned.contains("block2"));
}

#[test]
fn test_generate_relay_script_openssh() {
    let script = generate_relay_script(
        &BridgeProvider::WindowsOpenSsh,
        "/mnt/c/Users/test/.maze-ssh/bin/npiperelay.exe",
        "/tmp/maze-ssh-agent.sock",
    );
    assert!(script.contains("socat UNIX-LISTEN"));
    assert!(script.contains("//./pipe/openssh-ssh-agent"));
    assert!(script.contains("/tmp/maze-ssh-agent.sock"));
}

#[test]
fn test_generate_relay_script_onepassword() {
    let script = generate_relay_script(
        &BridgeProvider::OnePassword,
        "/mnt/c/Users/test/.maze-ssh/bin/npiperelay.exe",
        "/tmp/maze-ssh-agent.sock",
    );
    assert!(script.contains("socat UNIX-LISTEN"));
    assert!(script.contains("//./pipe/op-ssh-sign-pipe"));
    assert!(script.contains("1Password"));
}

#[test]
fn test_generate_relay_script_pageant() {
    let script = generate_relay_script(
        &BridgeProvider::Pageant,
        "/mnt/c/Users/test/.maze-ssh/bin/wsl-ssh-pageant.exe",
        "/tmp/maze-ssh-agent.sock",
    );
    assert!(!script.contains("socat"));
    assert!(script.contains("wsl-ssh-pageant.exe"));
    assert!(script.contains("--wsl"));
    assert!(script.contains("Pageant"));
}

// ── Further cases ──

#[test]
fn remove_marker_block_normalizes_crlf_and_final_newline() {
    assert_eq!(remove_marker_block("a\r\nb"), "a\nb\n");
    assert_eq!(remove_marker_block(""), "");
}

#[test]
fn remove_marker_block_accepts_indented_markers() {
    let content = "x\n   # >>> maze-ssh-bridge >>>  \ninner\n\t# <<< maze-ssh-bridge <<<\ny\n";
    assert_eq!(remove_marker_block(content), "x\ny\n");
}

#[test]
fn rc_block_upsert_is_idempotent_on_clean_profile() {
    let block = generate_bashrc_block("/tmp/s.sock", &RelayMode::Systemd);
    let once = rc_with_bridge_block("alias ll='ls -l'\n", &block);
    let twice = rc_with_bridge_block(&once, &block);
    assert_eq!(once, twice);
    assert_eq!(
        once,
        "alias ll='ls -l'\n# >>> maze-ssh-bridge >>>\nexport SSH_AUTH_SOCK=\"/tmp/s.sock\"\n# <<< maze-ssh-bridge <<<\n"
    );
}

#[test]
fn rc_without_block_only_when_marker_present() {
    assert_eq!(rc_without_bridge_block("plain\n"), None);
    let with = format!("a\n{}\nx\n# <<< maze-ssh-bridge <<<\n", BRIDGE_MARKER_BEGIN);
    assert_eq!(rc_without_bridge_block(&with), Some("a\n".to_string()));
}

#[test]
fn agent_forwarding_on_and_off() {
    let on = configure_agent_forwarding("Host x\n", true).unwrap();
    assert_eq!(on, "Host x\n# >>> maze-ssh-forward >>>\nHost *\n  ForwardAgent yes\n# <<< maze-ssh-forward <<<\n");
    assert_eq!(configure_agent_forwarding(&on, false), Some("Host x\n".to_string()));
    assert_eq!(configure_agent_forwarding("Host x\n", false), None);
}

#[test]
fn single_injection_removal_checks_allowlist() {
    let r = remove_single_shell_injection("/etc/passwd", "x\n");
    assert_eq!(r, Err(MazeSshError::BridgeError("RC file not in allowlist: /etc/passwd".to_string())));
    let ok = remove_single_shell_injection("~/.zshrc", "a\n# >>> maze-ssh-bridge >>>\n# <<< maze-ssh-bridge <<<\n");
    assert_eq!(ok, Ok("a\n".to_string()));
}

#[test]
fn shell_injections_report_blocks() {
    let bashrc = Some("x\n# >>> maze-ssh-bridge >>>\nexport A=1\n# <<< maze-ssh-bridge <<<\ny\n".to_string());
    let inj = get_shell_injections(&[bashrc, None, None, Some("nothing".to_string())], &Some("# >>> maze-ssh-forward >>>\n".to_string()));
    assert_eq!(inj.len(), 4);
    assert_eq!(inj[0].shell, "bash");
    assert_eq!(
        inj[0].injected_block.as_deref(),
        Some("# >>> maze-ssh-bridge >>>\nexport A=1\n# <<< maze-ssh-bridge <<<")
    );
    assert_eq!(inj[1].injected_block, None);
    assert_eq!(inj[3].rc_file, "~/.profile");
    assert!(inj[3].has_forward_block);
    assert!(!inj[0].has_forward_block);
}

#[test]
fn windows_host_block_and_upsert() {
    let config = BridgeConfig { distros: vec![distro_cfg("Ubuntu 22", RelayMode::Systemd, Some("/tmp/a.sock"))] };
    let block = preview_windows_ssh_host("Ubuntu 22", &config);
    assert_eq!(
        block,
        "# >>> maze-ssh-wsl-Ubuntu 22 >>>\nHost maze-wsl-ubuntu-22\n    ProxyCommand wsl -d Ubuntu 22 -- socat - UNIX-CONNECT:/tmp/a.sock\n    StrictHostKeyChecking accept-new\n# <<< maze-ssh-wsl-Ubuntu 22 <<<\n"
    );
    let once = windows_ssh_config_with_host("Host a\n", "Ubuntu 22", &config);
    assert_eq!(once, format!("Host a\n{}", block));
    assert_eq!(windows_ssh_config_with_host(&once, "Ubuntu 22", &config), once);
    assert_eq!(windows_ssh_config_without_host(&once, "Ubuntu 22"), "Host a\n");
}

#[test]
fn config_resolution_defaults() {
    let config = BridgeConfig { distros: vec![distro_cfg("Debian", RelayMode::Daemon, None)] };
    assert_eq!(resolve_relay_mode(&config, "Debian"), RelayMode::Daemon);
    assert_eq!(resolve_relay_mode(&config, "Other"), RelayMode::Systemd);
    assert_eq!(resolve_socket_path(&config, "Debian"), "/tmp/maze-ssh-agent.sock");
    assert_eq!(max_restarts_for(&config, "Debian"), 3);
    assert_eq!(max_restarts_for(&config, "Other"), 5);
}

#[test]
fn systemd_unit_text() {
    let unit = generate_systemd_unit(&BridgeProvider::Pageant, "/tmp/x.sock");
    assert!(unit.starts_with("[Unit]\nDescription=Maze SSH Agent Relay (Pageant -> WSL)\n"));
    assert!(unit.contains("Environment=MAZE_SSH_SOCKET=/tmp/x.sock\n"));
}

#[test]
fn stale_script_ignores_trailing_whitespace() {
    assert!(!relay_script_is_stale("a\nb\n", "a  \nb"));
    assert!(relay_script_is_stale("a\nb\n", "a\nc\n"));
}

#[test]
fn relay_logs_command_and_output() {
    assert_eq!(
        relay_log_command(500),
        "journalctl --user -u maze-ssh-relay --no-pager -n 200 2>&1 || echo '(journalctl not available)'"
    );
    assert!(relay_log_command(50).contains("-n 50 "));
    let o = CmdOutput { stdout: "  \n".to_string(), stderr: "err".to_string(), success: false };
    assert_eq!(get_relay_logs(&o), "err");
}

#[test]
fn ssh_test_validation_and_argv() {
    let config = BridgeConfig::default();
    assert_eq!(
        ssh_test_argv("Ubuntu", &config, "", "git", 22),
        Err(MazeSshError::BridgeError("Host cannot be empty".to_string()))
    );
    assert!(matches!(ssh_test_argv("Ubuntu", &config, "a;b", "git", 22), Err(MazeSshError::BridgeError(_))));
    assert_eq!(
        ssh_test_argv("Ubuntu", &config, "github.com", "", 22),
        Err(MazeSshError::BridgeError("User cannot be empty".to_string()))
    );
    let long = "u".repeat(65);
    assert_eq!(
        ssh_test_argv("Ubuntu", &config, "github.com", &long, 22),
        Err(MazeSshError::BridgeError("User too long (max 64 chars)".to_string()))
    );
    let argv = ssh_test_argv("Ubuntu", &config, "github.com", "git", 2222).unwrap();
    assert_eq!(argv.len(), 13);
    assert_eq!(argv[1], "SSH_AUTH_SOCK=/tmp/maze-ssh-agent.sock");
    assert_eq!(argv[11], "2222");
    assert_eq!(argv[12], "git@github.com");
}

#[test]
fn ssh_test_classification() {
    let o = CmdOutput {
        stdout: String::new(),
        stderr: "Hi user! You've successfully authenticated, but GitHub does not provide shell access.\n".to_string(),
        success: false,
    };
    let r = test_ssh_via_bridge("github.com", "git", 22, &o);
    assert!(r.connected);
    assert!(r.authenticated);
    assert_eq!(r.exit_code, 1);
    assert!(r.command.ends_with("-p 22 git@github.com"));
    let refused = CmdOutput { stdout: String::new(), stderr: "Connection refused".to_string(), success: false };
    let r2 = test_ssh_via_bridge("h", "u", 22, &refused);
    assert!(!r2.connected);
    assert!(!r2.authenticated);
    assert_eq!(r2.output, "Connection refused");
}

fn probes() -> DistroProbes {
    DistroProbes {
        listed: Some(vec![WslDistro { name: "Ubuntu".into(), state: "Running".into(), version: 2, is_default: true }]),
        which_socat: out("/usr/bin/socat", "", true),
        systemctl_status: out("", "", true),
        which_zsh: out("", "", false),
        which_fish: None,
        script_test: out("", "", true),
        unit_test: out("", "", true),
        is_active: out("active\n", "", true),
        socket_test: out("", "", true),
        ssh_add: out("The agent has no identities.\n", "", false),
        installed_script: None,
        relay_wsl_path: "/mnt/c/r.exe".into(),
    }
}

#[test]
fn distro_status_healthy_and_stopped() {
    let config = BridgeConfig { distros: vec![distro_cfg("Ubuntu", RelayMode::Systemd, None)] };
    let st = get_distro_status("Ubuntu", &config, &probes());
    assert!(st.distro_running && st.enabled && st.service_active && st.socket_exists);
    assert!(st.agent_reachable);
    assert_eq!(st.wsl_version, 2);
    assert_eq!(st.detected_shells.len(), 3);
    assert!(st.relay_script_stale);
    assert_eq!(st.error, None);

    let mut p = probes();
    p.listed = Some(vec![WslDistro { name: "Ubuntu".into(), state: "Stopped".into(), version: 2, is_default: true }]);
    let st2 = get_distro_status("Ubuntu", &config, &p);
    assert!(!st2.distro_running);
    assert_eq!(st2.error.as_deref(), Some("Distro is not running"));

    let mut p3 = probes();
    p3.which_socat = out("", "", false);
    let st3 = get_distro_status("Ubuntu", &config, &p3);
    assert_eq!(st3.error.as_deref(), Some("socat not installed"));
}

#[test]
fn diagnostics_first_failure_and_keys() {
    let config = BridgeConfig { distros: vec![distro_cfg("Ubuntu", RelayMode::Systemd, None)] };
    let p = DiagnosticProbes {
        provider_available: true,
        provider_error: None,
        binary_installed: true,
        binary_path: "C:/bin/npiperelay.exe".into(),
        echo: out("ok\n", "", true),
        is_active: out("inactive\n", "", false),
        socket_test: out("", "", true),
        script_test: out("", "", true),
        ssh_add: out("256 SHA256:abc key (ED25519)\n\n", "", true),
    };
    let r = run_diagnostics("Ubuntu", &config, &p);
    assert_eq!(r.steps.len(), 6);
    assert!(r.steps[2].passed);
    assert!(!r.steps[3].passed);
    assert_eq!(r.steps[3].remediation_cmd.as_deref(), Some("systemctl --user start maze-ssh-relay.service"));
    assert_eq!(r.keys_visible, vec!["256 SHA256:abc key (ED25519)".to_string()]);
    assert_eq!(r.steps[5].detail.as_deref(), Some("1 key(s) accessible"));
    assert_eq!(r.suggestions, vec!["Start the relay service: click Start, or re-run bootstrap.".to_string()]);
}

#[test]
fn watchdog_caps_restarts() {
    let (e, a) = watchdog_step(None, true, 2, 0);
    assert_eq!(a, WatchdogAction::Init);
    let (e, a) = watchdog_step(Some(e), false, 2, 10);
    assert_eq!(a, WatchdogAction::Restart);
    assert_eq!(e.restart_count, 1);
    let (e, a) = watchdog_step(Some(e), false, 2, 20);
    assert_eq!(a, WatchdogAction::Restart);
    let (e, a) = watchdog_step(Some(e), false, 2, 30);
    assert_eq!(a, WatchdogAction::AlreadyPaused);
    assert_eq!(e.restart_count, 2);
    let (e, _) = watchdog_step(Some(e), true, 2, 40);
    assert_eq!(e, WatchdogEntry { was_active: true, restart_count: 0, last_restart_at: Some(20) });
}
