//! WSL bridge configuration: per-distro settings, the relay script, the systemd unit
//! and the shell blocks that the bridge installs, and the marker-based editing of
//! text files that those blocks live in.
use vstd::prelude::*;

use crate::error::MazeSshError;
use crate::markers::{
    appended, ends_cr, extract_marker_block, first_block, is_marked_block, join_lines, kept_lines,
    lemma_block_injection_idempotent, lemma_join_push, lemma_joined_block_is_marked, lemma_trim_chars_from,
    lemma_trim_keeps_first, lemma_trim_visible_ends, no_nl, remove_block_between, without_blocks,
};
use crate::provider::{
    provider_name, provider_pipe, BridgeProvider, ProviderModel, ProviderStatus, RelayBinaryStatus,
};
use crate::markers::join_sep;
use crate::text::{
    alnum, alnum_or, chars_eq, chars_of, contains_sub, decimal, is_ws, lines, lines_of, lowercase, split_nl,
    push_char, push_chars, push_decimal, str_contains, string_of, to_lowercase, trim, trim_chars,
    trim_end, trim_end_chars, trim_end_str, trim_str, views,
};
use crate::wsl::{detect_shells, has_socat, has_systemd, ran_ok, systemd_running, CmdOutput, ShellProfile};

verus! {

// ── Constants ──
pub const DEFAULT_SOCKET_PATH: &'static str = "/tmp/maze-ssh-agent.sock";

pub const RELAY_SCRIPT_PATH: &'static str = ".local/bin/maze-ssh-relay.sh";

pub const SYSTEMD_UNIT_PATH: &'static str = ".config/systemd/user/maze-ssh-relay.service";

pub const BRIDGE_MARKER_BEGIN: &'static str = "# >>> maze-ssh-bridge >>>";

pub const BRIDGE_MARKER_END: &'static str = "# <<< maze-ssh-bridge <<<";

pub const FORWARD_MARKER_BEGIN: &'static str = "# >>> maze-ssh-forward >>>";

pub const FORWARD_MARKER_END: &'static str = "# <<< maze-ssh-forward <<<";

/// How the relay service is managed in WSL.
#[derive(Debug, Clone, Copy, PartialEq, Eq, Structural)]
pub enum RelayMode {
    /// Managed via `systemd --user` (requires systemd in WSL)
    Systemd,
    /// Background daemon launched from the shell profile
    Daemon,
}

impl Default for RelayMode {
    fn default() -> (m: Self)
        ensures
            m == RelayMode::Systemd,
    {
        RelayMode::Systemd
    }
}

/// Bridge settings of one distro.
#[derive(Debug)]
pub struct DistroBridgeConfig {
    pub distro_name: String,
    pub enabled: bool,
    /// Socket path inside WSL (default: `/tmp/maze-ssh-agent.sock`)
    pub socket_path: Option<String>,
    /// Which SSH agent provider to bridge
    pub provider: BridgeProvider,
    /// Allow SSH agent forwarding to remote hosts
    pub allow_agent_forwarding: bool,
    /// How the relay service is managed
    pub relay_mode: RelayMode,
    /// Restart the relay automatically if it stops
    pub auto_restart: bool,
    /// Watchdog restarts before giving up
    pub max_restarts: u8,
}

/// Persisted bridge configuration.
#[derive(Debug, Default)]
pub struct BridgeConfig {
    pub distros: Vec<DistroBridgeConfig>,
}

/// A WSL distribution as `wsl -l -v` lists it.
#[derive(Debug, Clone)]
pub struct WslDistro {
    pub name: String,
    /// "Running" or "Stopped"
    pub state: String,
    /// 1 or 2
    pub version: u8,
    pub is_default: bool,
}

/// The first configuration entry for the distro named `name`.
pub open spec fn find_cfg(ds: Seq<DistroBridgeConfig>, name: Seq<char>) -> Option<DistroBridgeConfig>
    decreases ds.len(),
{
    if ds.len() == 0 {
        None
    } else if ds[0].distro_name@ == name {
        Some(ds[0])
    } else {
        find_cfg(ds.drop_first(), name)
    }
}

/// Index of the first configuration entry for `name`.
pub(crate) fn find_index(ds: &Vec<DistroBridgeConfig>, name: &str) -> (r: Option<usize>)
    ensures
        match r {
            Some(i) => i < ds@.len() && find_cfg(ds@, name@) == Some(ds@[i as int]) && ds@[i as int].distro_name@ == name@
                && forall|j: int| 0 <= j < i ==> ds@[j].distro_name@ != name@,
            None => find_cfg(ds@, name@) is None && forall|j: int| 0 <= j < ds@.len() ==> ds@[j].distro_name@ != name@,
        },
{
    let mut i: usize = 0;
    let n = name.to_string();
    assert(ds@.skip(0) == ds@);
    while i < ds.len()
        invariant
            i <= ds@.len(),
            n@ == name@,
            find_cfg(ds@, name@) == find_cfg(ds@.skip(i as int), name@),
            forall|j: int| 0 <= j < i ==> ds@[j].distro_name@ != name@,
        decreases ds@.len() - i,
    {
        assert(ds@.skip(i as int)[0] == ds@[i as int]);
        assert(ds@.skip(i as int).drop_first() == ds@.skip(i as int + 1));
        if ds[i].distro_name == n {
            return Some(i);
        }
        i = i + 1;
    }
    None
}

pub open spec fn mode_of(config: BridgeConfig, distro: Seq<char>) -> RelayMode {
    match find_cfg(config.distros@, distro) {
        Some(d) => d.relay_mode,
        None => RelayMode::Systemd,
    }
}

pub open spec fn provider_of(config: BridgeConfig, distro: Seq<char>) -> ProviderModel {
    match find_cfg(config.distros@, distro) {
        Some(d) => d.provider@,
        None => ProviderModel::WindowsOpenSsh,
    }
}

pub open spec fn socket_of(config: BridgeConfig, distro: Seq<char>) -> Seq<char> {
    match find_cfg(config.distros@, distro) {
        Some(d) => match d.socket_path {
            Some(p) => p@,
            None => DEFAULT_SOCKET_PATH@,
        },
        None => DEFAULT_SOCKET_PATH@,
    }
}

/// Relay mode configured for the distro (systemd when it has no entry).
pub fn resolve_relay_mode(config: &BridgeConfig, distro: &str) -> (m: RelayMode)
    ensures
        m == mode_of(*config, distro@),
{
    match find_index(&config.distros, distro) {
        Some(i) => config.distros[i].relay_mode,
        None => RelayMode::default(),
    }
}

/// Provider configured for the distro (Windows OpenSSH when it has no entry).
pub fn resolve_provider(config: &BridgeConfig, distro: &str) -> (p: BridgeProvider)
    ensures
        p@ == provider_of(*config, distro@),
{
    match find_index(&config.distros, distro) {
        Some(i) => config.distros[i].provider.duplicate(),
        None => BridgeProvider::default(),
    }
}

/// Socket path configured for the distro (the default path when none is set).
pub fn resolve_socket_path(config: &BridgeConfig, distro: &str) -> (s: String)
    ensures
        s@ == socket_of(*config, distro@),
{
    match find_index(&config.distros, distro) {
        Some(i) => match &config.distros[i].socket_path {
            Some(p) => p.clone(),
            None => DEFAULT_SOCKET_PATH.to_string(),
        },
        None => DEFAULT_SOCKET_PATH.to_string(),
    }
}

// ── Windows paths ──

pub open spec fn slash_char(c: char) -> char {
    if c == '\\' {
        '/'
    } else {
        c
    }
}

/// `s` with every backslash replaced by a slash.
pub open spec fn to_slashes(s: Seq<char>) -> Seq<char> {
    s.map_values(|c: char| slash_char(c))
}

pub open spec fn ascii_lower(c: char) -> char {
    if 'A' <= c <= 'Z' {
        ((c as u32) + 32) as char
    } else {
        c
    }
}

/// The WSL `/mnt/<drive>/...` form of a Windows path; a path without a drive letter
/// only has its backslashes turned into slashes.
pub open spec fn wsl_path(s: Seq<char>) -> Seq<char> {
    if s.len() >= 2 && (s[0] as u32) < 128 && s[1] == ':' {
        "/mnt/"@ + seq![ascii_lower(s[0])] + to_slashes(s.skip(2))
    } else {
        to_slashes(s)
    }
}

fn push_slashed(out: &mut String, s: &[char], from: usize)
    requires
        from <= s@.len(),
    ensures
        final(out)@ == old(out)@ + to_slashes(s@.skip(from as int)),
{
    let mut i = from;
    while i < s.len()
        invariant
            from <= i <= s@.len(),
            out@ == old(out)@ + to_slashes(s@.skip(from as int).take(i - from)),
        decreases s@.len() - i,
    {
        let c = s[i];
        push_char(out, if c == '\\' { '/' } else { c });
        assert(to_slashes(s@.skip(from as int).take(i + 1 - from)) =~= to_slashes(
            s@.skip(from as int).take(i - from),
        ).push(slash_char(c)));
        i = i + 1;
    }
    assert(s@.skip(from as int).take(s@.len() - from) =~= s@.skip(from as int));
}

/// Convert a Windows path to the WSL `/mnt/c/...` equivalent.
pub fn windows_path_to_wsl(path: &str) -> (r: String)
    ensures
        r@ == wsl_path(path@),
{
    let s = chars_of(path);
    let mut out = String::new();
    if s.len() >= 2 && (s[0] as u32) < 128 && s[1] == ':' {
        out.append("/mnt/");
        let c = s[0];
        let d = if 'A' <= c && c <= 'Z' {
            ((c as u8) + 32) as char
        } else {
            c
        };
        assert(d == ascii_lower(c)) by {
            if 'A' <= c <= 'Z' {
                assert(((c as u8) + 32) as char == ((c as u32) + 32) as char);
            }
        }
        push_char(&mut out, d);
        push_slashed(&mut out, s.as_slice(), 2);
    } else {
        push_slashed(&mut out, s.as_slice(), 0);
        assert(s@.skip(0) == s@);
    }
    out
}

// ── Generated files ──

/// The relay script for a provider.
pub open spec fn relay_script(p: ProviderModel, relay: Seq<char>, socket: Seq<char>) -> Seq<char> {
    if p is Pageant {
        "#!/bin/bash\n# Maze SSH Agent Relay ("@ + provider_name(p)
            + ") — DO NOT EDIT (managed by Maze SSH)\nSOCKET=\""@ + socket + "\"\nPAGEANT=\""@
            + relay
            + "\"\n\n# Clean up stale socket\nrm -f \"$SOCKET\"\n\n# Bridge: wsl-ssh-pageant connects to Pageant and exposes a Unix socket\nexec \"$PAGEANT\" --wsl \"$SOCKET\"\n"@
    } else {
        "#!/bin/bash\n# Maze SSH Agent Relay ("@ + provider_name(p)
            + ") — DO NOT EDIT (managed by Maze SSH)\nSOCKET=\""@ + socket + "\"\nRELAY=\""@ + relay
            + "\"\n\n# Clean up stale socket\nrm -f \"$SOCKET\"\n\n# Bridge: socat listens on Unix socket, pipes to relay which talks to Windows named pipe\nexec socat UNIX-LISTEN:\"$SOCKET\",fork,mode=0600 \\\n  EXEC:\"$RELAY -ei -s "@
            + (match provider_pipe(p) {
            Some(x) => x,
            None => Seq::empty(),
        }) + "\",nofork\n"@
    }
}

/// Generate the relay script, dispatched by provider type.
pub fn generate_relay_script(provider: &BridgeProvider, relay_binary_wsl: &str, socket_path: &str) -> (r: String)
    ensures
        r@ == relay_script(provider@, relay_binary_wsl@, socket_path@),
{
    let mut s = String::new();
    s.append("#!/bin/bash\n# Maze SSH Agent Relay (");
    s.append(provider.display_name());
    s.append(") — DO NOT EDIT (managed by Maze SSH)\nSOCKET=\"");
    s.append(socket_path);
    match provider {
        BridgeProvider::Pageant => {
            s.append("\"\nPAGEANT=\"");
            s.append(relay_binary_wsl);
            s.append(
                "\"\n\n# Clean up stale socket\nrm -f \"$SOCKET\"\n\n# Bridge: wsl-ssh-pageant connects to Pageant and exposes a Unix socket\nexec \"$PAGEANT\" --wsl \"$SOCKET\"\n",
            );
        },
        _ => {
            let pipe = match provider.named_pipe() {
                Some(x) => x,
                None => String::new(),
            };
            s.append("\"\nRELAY=\"");
            s.append(relay_binary_wsl);
            s.append(
                "\"\n\n# Clean up stale socket\nrm -f \"$SOCKET\"\n\n# Bridge: socat listens on Unix socket, pipes to relay which talks to Windows named pipe\nexec socat UNIX-LISTEN:\"$SOCKET\",fork,mode=0600 \\\n  EXEC:\"$RELAY -ei -s ",
            );
            s.append(pipe.as_str());
            s.append("\",nofork\n");
        },
    }
    s
}

/// The systemd user unit for a provider.
pub open spec fn systemd_unit(p: ProviderModel, socket: Seq<char>) -> Seq<char> {
    "[Unit]\nDescription="@ + ("Maze SSH Agent Relay ("@ + provider_name(p) + " -> WSL)"@)
        + "\nAfter=default.target\n\n[Service]\nType=simple\nExecStart=%h/"@ + RELAY_SCRIPT_PATH@
        + "\nRestart=on-failure\nRestartSec=3\nEnvironment=MAZE_SSH_SOCKET="@ + socket
        + "\n\n[Install]\nWantedBy=default.target\n"@
}

pub fn generate_systemd_unit(provider: &BridgeProvider, socket_path: &str) -> (r: String)
    ensures
        r@ == systemd_unit(provider@, socket_path@),
{
    let mut s = String::new();
    s.append("[Unit]\nDescription=");
    let d = provider.service_description();
    s.append(d.as_str());
    s.append("\nAfter=default.target\n\n[Service]\nType=simple\nExecStart=%h/");
    s.append(RELAY_SCRIPT_PATH);
    s.append("\nRestart=on-failure\nRestartSec=3\nEnvironment=MAZE_SSH_SOCKET=");
    s.append(socket_path);
    s.append("\n\n[Install]\nWantedBy=default.target\n");
    s
}

/// The block that bash-like shell profiles get.
pub open spec fn bashrc_block(socket: Seq<char>, mode: RelayMode) -> Seq<char> {
    match mode {
        RelayMode::Systemd => BRIDGE_MARKER_BEGIN@ + "\nexport SSH_AUTH_SOCK=\""@ + socket + "\"\n"@
            + BRIDGE_MARKER_END@ + "\n"@,
        RelayMode::Daemon => BRIDGE_MARKER_BEGIN@ + "\nexport MAZE_SSH_SOCKET=\""@ + socket
            + "\"\nif [ ! -S \"$MAZE_SSH_SOCKET\" ]; then\n    nohup \"$HOME\"/.local/bin/maze-ssh-relay.sh &>/dev/null &\n    sleep 0.5\nfi\nexport SSH_AUTH_SOCK=\"$MAZE_SSH_SOCKET\"\n"@
            + BRIDGE_MARKER_END@ + "\n"@,
    }
}

pub fn generate_bashrc_block(socket_path: &str, relay_mode: &RelayMode) -> (r: String)
    ensures
        r@ == bashrc_block(socket_path@, *relay_mode),
{
    let mut s = String::new();
    s.append(BRIDGE_MARKER_BEGIN);
    match relay_mode {
        RelayMode::Systemd => {
            s.append("\nexport SSH_AUTH_SOCK=\"");
            s.append(socket_path);
            s.append("\"\n");
        },
        RelayMode::Daemon => {
            s.append("\nexport MAZE_SSH_SOCKET=\"");
            s.append(socket_path);
            s.append(
                "\"\nif [ ! -S \"$MAZE_SSH_SOCKET\" ]; then\n    nohup \"$HOME\"/.local/bin/maze-ssh-relay.sh &>/dev/null &\n    sleep 0.5\nfi\nexport SSH_AUTH_SOCK=\"$MAZE_SSH_SOCKET\"\n",
            );
        },
    }
    s.append(BRIDGE_MARKER_END);
    s.append("\n");
    s
}

/// The block that the fish shell configuration gets.
pub open spec fn fish_block(socket: Seq<char>, mode: RelayMode) -> Seq<char> {
    match mode {
        RelayMode::Systemd => BRIDGE_MARKER_BEGIN@ + "\nset -x SSH_AUTH_SOCK \""@ + socket + "\"\n"@
            + BRIDGE_MARKER_END@ + "\n"@,
        RelayMode::Daemon => BRIDGE_MARKER_BEGIN@ + "\nset -x MAZE_SSH_SOCKET \""@ + socket
            + "\"\nif not test -S $MAZE_SSH_SOCKET\n    nohup \"$HOME\"/.local/bin/maze-ssh-relay.sh &>/dev/null &\n    sleep 0.5\nend\nset -x SSH_AUTH_SOCK $MAZE_SSH_SOCKET\n"@
            + BRIDGE_MARKER_END@ + "\n"@,
    }
}

pub fn generate_fish_block(socket_path: &str, relay_mode: &RelayMode) -> (r: String)
    ensures
        r@ == fish_block(socket_path@, *relay_mode),
{
    let mut s = String::new();
    s.append(BRIDGE_MARKER_BEGIN);
    match relay_mode {
        RelayMode::Systemd => {
            s.append("\nset -x SSH_AUTH_SOCK \"");
            s.append(socket_path);
            s.append("\"\n");
        },
        RelayMode::Daemon => {
            s.append("\nset -x MAZE_SSH_SOCKET \"");
            s.append(socket_path);
            s.append(
                "\"\nif not test -S $MAZE_SSH_SOCKET\n    nohup \"$HOME\"/.local/bin/maze-ssh-relay.sh &>/dev/null &\n    sleep 0.5\nend\nset -x SSH_AUTH_SOCK $MAZE_SSH_SOCKET\n",
            );
        },
    }
    s.append(BRIDGE_MARKER_END);
    s.append("\n");
    s
}

// ── Runtime types ──

/// Detailed bridge status for one WSL distro.
#[derive(Debug)]
pub struct DistroBridgeStatus {
    pub distro_name: String,
    pub wsl_version: u8,
    pub distro_running: bool,
    pub enabled: bool,
    /// Which provider this distro is configured to bridge
    pub provider: BridgeProvider,
    /// Relay script (and, under systemd, the unit) exist in the distro
    pub relay_installed: bool,
    /// The relay service or process is running
    pub service_active: bool,
    /// Unix socket file present
    pub socket_exists: bool,
    /// `ssh-add -l` reaches the agent through the bridged socket
    pub agent_reachable: bool,
    pub allow_agent_forwarding: bool,
    /// socat binary available in distro
    pub socat_installed: bool,
    /// systemd --user functional in distro
    pub systemd_available: bool,
    pub relay_mode: RelayMode,
    pub auto_restart: bool,
    /// Watchdog restarts since the last healthy observation
    pub watchdog_restart_count: u8,
    /// The installed relay script differs from what the configuration generates
    pub relay_script_stale: bool,
    pub max_restarts: u8,
    /// Shells detected as installed in the distro
    pub detected_shells: Vec<ShellProfile>,
    /// Resolved socket path (from config, or default)
    pub socket_path: String,
    /// The first problem found by the checks, if any
    pub error: Option<String>,
}

/// Content of a Maze SSH injection block in one shell RC file.
#[derive(Debug, Clone)]
pub struct ShellInjection {
    pub shell: String,
    pub rc_file: String,
    /// The injected block text, or None if no Maze SSH markers were found
    pub injected_block: Option<String>,
    /// True if a ForwardAgent block is present (reported on the profile entry)
    pub has_forward_block: bool,
}

/// Result of an end-to-end SSH connectivity test through the bridge socket.
#[derive(Debug, Clone)]
pub struct SshHostTestResult {
    /// The command that was run, with the socket path elided
    pub command: String,
    /// Combined stdout + stderr output, trimmed
    pub output: String,
    /// A transport connection was established
    pub connected: bool,
    /// SSH authentication was accepted (heuristic)
    pub authenticated: bool,
    pub exit_code: i32,
}

/// Result of a step-by-step bridge connectivity test.
#[derive(Debug)]
pub struct DiagnosticsResult {
    pub distro: String,
    pub steps: Vec<DiagnosticsStep>,
    /// Key lines from `ssh-add -l` through the bridged socket
    pub keys_visible: Vec<String>,
    /// Remediation hint for the first failing step
    pub suggestions: Vec<String>,
}

/// One step in a bridge diagnostics run.
#[derive(Debug, Clone)]
pub struct DiagnosticsStep {
    pub name: String,
    pub passed: bool,
    pub detail: Option<String>,
    /// WSL command that fixes this step's failure
    pub remediation_cmd: Option<String>,
}

/// Full bridge overview for the dashboard.
#[derive(Debug)]
pub struct BridgeOverview {
    pub wsl_available: bool,
    pub npiperelay_installed: bool,
    pub windows_agent_running: bool,
    pub provider_statuses: Vec<ProviderStatus>,
    pub relay_binaries: Vec<RelayBinaryStatus>,
    pub distros: Vec<DistroBridgeStatus>,
}

/// One entry in the per-distro health history.
#[derive(Debug, Clone)]
pub struct BridgeHistoryEvent {
    /// RFC-3339 UTC timestamp
    pub timestamp: String,
    pub event: BridgeHistoryEventKind,
    /// Optional context (restart count, error text, provider name, …)
    pub detail: Option<String>,
}

#[derive(Debug, Clone, Copy, PartialEq, Eq, Structural)]
pub enum BridgeHistoryEventKind {
    BridgeStarted,
    BridgeStopped,
    WatchdogRestart,
    WatchdogPaused,
    RelayRefreshed,
    BridgeBootstrapped,
    BridgeTeardown,
}

// ── Marker-block editing of shell profiles and SSH config ──

/// Removes the bridge block(s) from a shell profile.
pub fn remove_marker_block(content: &str) -> (r: String)
    ensures
        r@ == without_blocks(content@, BRIDGE_MARKER_BEGIN@, BRIDGE_MARKER_END@),
{
    remove_block_between(content, BRIDGE_MARKER_BEGIN, BRIDGE_MARKER_END)
}

fn append_block(cleaned: &str, block: &str) -> (r: String)
    ensures
        r@ == appended(cleaned@, block@),
{
    let mut r = trim_end_str(cleaned);
    push_char(&mut r, '\n');
    r.append(block);
    r
}

/// A shell profile with its bridge block replaced by `block` (appended at the end).
pub fn rc_with_bridge_block(current: &str, block: &str) -> (r: String)
    ensures
        r@ == appended(without_blocks(current@, BRIDGE_MARKER_BEGIN@, BRIDGE_MARKER_END@), block@),
{
    let cleaned = remove_marker_block(current);
    append_block(cleaned.as_str(), block)
}

/// A shell profile with its bridge block removed; `None` when it holds no begin
/// marker, so that the file is left as it is.
pub fn rc_without_bridge_block(current: &str) -> (r: Option<String>)
    ensures
        !contains_sub(current@, BRIDGE_MARKER_BEGIN@) ==> r is None,
        contains_sub(current@, BRIDGE_MARKER_BEGIN@) ==> (r matches Some(c) && c@ == without_blocks(
            current@,
            BRIDGE_MARKER_BEGIN@,
            BRIDGE_MARKER_END@,
        )),
{
    if str_contains(current, BRIDGE_MARKER_BEGIN) {
        Some(remove_marker_block(current))
    } else {
        None
    }
}

/// The block that turns on SSH agent forwarding for every host.
pub open spec fn forward_block() -> Seq<char> {
    FORWARD_MARKER_BEGIN@ + "\nHost *\n  ForwardAgent yes\n"@ + FORWARD_MARKER_END@ + "\n"@
}

/// The new `~/.ssh/config` text for turning agent forwarding on or off, or `None`
/// when the file is to be left as it is (turning it off where it was never on).
pub fn configure_agent_forwarding(current: &str, enable: bool) -> (r: Option<String>)
    ensures
        enable ==> (r matches Some(c) && c@ == appended(
            without_blocks(current@, FORWARD_MARKER_BEGIN@, FORWARD_MARKER_END@),
            forward_block(),
        )),
        !enable && contains_sub(current@, FORWARD_MARKER_BEGIN@) ==> (r matches Some(c) && c@
            == without_blocks(current@, FORWARD_MARKER_BEGIN@, FORWARD_MARKER_END@)),
        !enable && !contains_sub(current@, FORWARD_MARKER_BEGIN@) ==> r is None,
{
    let cleaned = remove_block_between(current, FORWARD_MARKER_BEGIN, FORWARD_MARKER_END);
    if enable {
        let mut block = FORWARD_MARKER_BEGIN.to_string();
        block.append("\nHost *\n  ForwardAgent yes\n");
        block.append(FORWARD_MARKER_END);
        block.append("\n");
        Some(append_block(cleaned.as_str(), block.as_str()))
    } else if str_contains(current, FORWARD_MARKER_BEGIN) {
        Some(cleaned)
    } else {
        None
    }
}

/// The shell profiles whose bridge block may be removed one by one.
pub open spec fn allowed_rc_file(rc: Seq<char>) -> bool {
    rc == "~/.bashrc"@ || rc == "~/.zshrc"@ || rc == "~/.profile"@ || rc == "~/.config/fish/config.fish"@
}

pub fn is_allowed_rc_file(rc_file: &str) -> (r: bool)
    ensures
        r == allowed_rc_file(rc_file@),
{
    let f = rc_file.to_string();
    f == "~/.bashrc".to_string() || f == "~/.zshrc".to_string() || f == "~/.profile".to_string()
        || f == "~/.config/fish/config.fish".to_string()
}

/// The new text of one allowlisted RC file (`content`) with its bridge block removed.
pub fn remove_single_shell_injection(rc_file: &str, content: &str) -> (r: Result<String, MazeSshError>)
    ensures
        allowed_rc_file(rc_file@) ==> (r matches Ok(c) && c@ == without_blocks(
            content@,
            BRIDGE_MARKER_BEGIN@,
            BRIDGE_MARKER_END@,
        )),
        !allowed_rc_file(rc_file@) ==> (r matches Err(MazeSshError::BridgeError(m)) && m@
            == "RC file not in allowlist: "@ + rc_file@),
{
    if !is_allowed_rc_file(rc_file) {
        let mut m = "RC file not in allowlist: ".to_string();
        m.append(rc_file);
        return Err(MazeSshError::BridgeError(m));
    }
    Ok(remove_marker_block(content))
}

/// The shells and RC files whose injection blocks are reported, in order.
pub open spec fn injection_shell(k: int) -> Seq<char> {
    if k == 0 {
        "bash"@
    } else if k == 1 {
        "zsh"@
    } else if k == 2 {
        "fish"@
    } else {
        "profile"@
    }
}

pub open spec fn injection_rc_file(k: int) -> Seq<char> {
    if k == 0 {
        "~/.bashrc"@
    } else if k == 1 {
        "~/.zshrc"@
    } else if k == 2 {
        "~/.config/fish/config.fish"@
    } else {
        "~/.profile"@
    }
}

/// The text read from the `k`-th RC file, when it could be read.
pub open spec fn rc_content(contents: Seq<Option<String>>, k: int) -> Option<Seq<char>> {
    if k < contents.len() {
        match contents[k] {
            Some(c) => Some(c@),
            None => None,
        }
    } else {
        None
    }
}

pub open spec fn opt_view(o: Option<String>) -> Option<Seq<char>> {
    match o {
        Some(s) => Some(s@),
        None => None,
    }
}

fn injection(shell: &str, rc_file: &str, content: &Option<String>, fwd: bool) -> (r: ShellInjection)
    ensures
        r.shell@ == shell@,
        r.rc_file@ == rc_file@,
        r.has_forward_block == fwd,
        opt_view(r.injected_block) == (match *content {
            Some(c) => first_block(lines(c@), BRIDGE_MARKER_BEGIN@, BRIDGE_MARKER_END@),
            None => None,
        }),
{
    let injected_block = match content {
        Some(c) => extract_marker_block(c.as_str(), BRIDGE_MARKER_BEGIN, BRIDGE_MARKER_END),
        None => None,
    };
    ShellInjection {
        shell: shell.to_string(),
        rc_file: rc_file.to_string(),
        injected_block,
        has_forward_block: fwd,
    }
}

fn nth_content(contents: &[Option<String>], k: usize) -> (r: Option<String>)
    ensures
        opt_view(r) == rc_content(contents@, k as int),
{
    if k < contents.len() {
        match &contents[k] {
            Some(c) => Some(c.clone()),
            None => None,
        }
    } else {
        None
    }
}

/// The bridge block of each RC file, from the texts read from `~/.bashrc`,
/// `~/.zshrc`, the fish config and `~/.profile` (in that order; `None` for a file
/// that could not be read), and whether `~/.ssh/config` holds a forwarding block,
/// which is reported on the profile entry.
pub fn get_shell_injections(rc_contents: &[Option<String>], ssh_config: &Option<String>) -> (v: Vec<ShellInjection>)
    ensures
        v@.len() == 4,
        forall|k: int|
            0 <= k < 4 ==> {
                &&& (#[trigger] v@[k]).shell@ == injection_shell(k)
                &&& v@[k].rc_file@ == injection_rc_file(k)
                &&& opt_view(v@[k].injected_block) == (match rc_content(rc_contents@, k) {
                    Some(c) => first_block(lines(c), BRIDGE_MARKER_BEGIN@, BRIDGE_MARKER_END@),
                    None => None,
                })
                &&& v@[k].has_forward_block == (k == 3 && (match *ssh_config {
                    Some(c) => contains_sub(c@, FORWARD_MARKER_BEGIN@),
                    None => false,
                }))
            },
{
    let fwd = match ssh_config {
        Some(c) => str_contains(c.as_str(), FORWARD_MARKER_BEGIN),
        None => false,
    };
    let mut v: Vec<ShellInjection> = Vec::new();
    v.push(injection("bash", "~/.bashrc", &nth_content(rc_contents, 0), false));
    v.push(injection("zsh", "~/.zshrc", &nth_content(rc_contents, 1), false));
    v.push(injection("fish", "~/.config/fish/config.fish", &nth_content(rc_contents, 2), false));
    v.push(injection("profile", "~/.profile", &nth_content(rc_contents, 3), fwd));
    v
}

// ── Windows `~/.ssh/config` host block ──

pub open spec fn dash_char(c: char) -> char {
    if c == ' ' {
        '-'
    } else {
        c
    }
}

/// The host alias of a distro: `maze-wsl-` and the lower-cased name with spaces
/// turned into hyphens.
pub open spec fn host_alias(distro: Seq<char>) -> Seq<char> {
    "maze-wsl-"@ + lowercase(distro).map_values(|c: char| dash_char(c))
}

pub open spec fn host_begin(distro: Seq<char>) -> Seq<char> {
    "# >>> maze-ssh-wsl-"@ + distro + " >>>"@
}

pub open spec fn host_end(distro: Seq<char>) -> Seq<char> {
    "# <<< maze-ssh-wsl-"@ + distro + " <<<"@
}

/// The Host block for the Windows-side `~/.ssh/config`.
pub open spec fn host_block(distro: Seq<char>, socket: Seq<char>) -> Seq<char> {
    host_begin(distro) + "\nHost "@ + host_alias(distro) + "\n    ProxyCommand wsl -d "@ + distro
        + " -- socat - UNIX-CONNECT:"@ + socket + "\n    StrictHostKeyChecking accept-new\n"@
        + host_end(distro) + "\n"@
}

fn host_marker(distro: &str, opening: bool) -> (r: String)
    ensures
        opening ==> r@ == host_begin(distro@),
        !opening ==> r@ == host_end(distro@),
{
    let mut r = if opening {
        "# >>> maze-ssh-wsl-".to_string()
    } else {
        "# <<< maze-ssh-wsl-".to_string()
    };
    r.append(distro);
    r.append(if opening {
        " >>>"
    } else {
        " <<<"
    });
    r
}

fn alias_of(distro: &str) -> (r: String)
    ensures
        r@ == host_alias(distro@),
{
    let lower = to_lowercase(distro);
    let c = chars_of(lower.as_str());
    let mut r = "maze-wsl-".to_string();
    let ghost base = r@;
    let mut i: usize = 0;
    while i < c.len()
        invariant
            i <= c@.len(),
            c@ == lowercase(distro@),
            base == "maze-wsl-"@,
            r@ == base + c@.take(i as int).map_values(|x: char| dash_char(x)),
        decreases c@.len() - i,
    {
        let x = c[i];
        push_char(&mut r, if x == ' ' { '-' } else { x });
        assert(c@.take(i + 1).map_values(|x: char| dash_char(x)) =~= c@.take(i as int).map_values(
            |x: char| dash_char(x),
        ).push(dash_char(x)));
        i = i + 1;
    }
    assert(c@.take(c@.len() as int) =~= c@);
    r
}

/// The Host block text for the Windows-side `~/.ssh/config`, whose `ProxyCommand`
/// reaches the distro's bridge socket through `wsl -d <distro>`.
pub fn generate_windows_wsl_host_block(distro: &str, config: &BridgeConfig) -> (r: String)
    ensures
        r@ == host_block(distro@, socket_of(*config, distro@)),
{
    let socket_path = resolve_socket_path(config, distro);
    let alias = alias_of(distro);
    let mut r = host_marker(distro, true);
    r.append("\nHost ");
    r.append(alias.as_str());
    r.append("\n    ProxyCommand wsl -d ");
    r.append(distro);
    r.append(" -- socat - UNIX-CONNECT:");
    r.append(socket_path.as_str());
    r.append("\n    StrictHostKeyChecking accept-new\n");
    let end = host_marker(distro, false);
    r.append(end.as_str());
    r.append("\n");
    r
}

/// A preview of the Windows SSH config Host block.
pub fn preview_windows_ssh_host(distro: &str, config: &BridgeConfig) -> (r: String)
    ensures
        r@ == host_block(distro@, socket_of(*config, distro@)),
{
    generate_windows_wsl_host_block(distro, config)
}

/// The Windows `~/.ssh/config` text with the distro's Host block written or refreshed.
pub fn windows_ssh_config_with_host(current: &str, distro: &str, config: &BridgeConfig) -> (r: String)
    ensures
        r@ == appended(
            without_blocks(current@, host_begin(distro@), host_end(distro@)),
            host_block(distro@, socket_of(*config, distro@)),
        ),
{
    let begin = host_marker(distro, true);
    let end = host_marker(distro, false);
    let cleaned = remove_block_between(current, begin.as_str(), end.as_str());
    let block = generate_windows_wsl_host_block(distro, config);
    append_block(cleaned.as_str(), block.as_str())
}

/// The Windows `~/.ssh/config` text with the distro's Host block removed.
pub fn windows_ssh_config_without_host(current: &str, distro: &str) -> (r: String)
    ensures
        r@ == without_blocks(current@, host_begin(distro@), host_end(distro@)),
{
    let begin = host_marker(distro, true);
    let end = host_marker(distro, false);
    remove_block_between(current, begin.as_str(), end.as_str())
}

// ── Relay script drift ──

/// A script as it is compared: its lines with trailing whitespace removed, joined
/// by newlines.
pub open spec fn normalized_script(s: Seq<char>) -> Seq<char> {
    join_sep(lines(s).map_values(|l: Seq<char>| trim_end(l)))
}

fn normalize_script(s: &str) -> (r: Vec<char>)
    ensures
        r@ == normalized_script(s@),
{
    let ls = lines_of(chars_of(s).as_slice());
    let ghost t = lines(s@).map_values(|l: Seq<char>| trim_end(l));
    let mut out: Vec<char> = Vec::new();
    let mut k: usize = 0;
    assert(t.take(0) =~= Seq::<Seq<char>>::empty());
    while k < ls.len()
        invariant
            k <= ls@.len(),
            views(ls@) == lines(s@),
            t == lines(s@).map_values(|l: Seq<char>| trim_end(l)),
            out@ == join_sep(t.take(k as int)),
        decreases ls@.len() - k,
    {
        let piece = trim_end_chars(ls[k].as_slice());
        assert(t[k as int] == trim_end(ls@[k as int]@));
        let ghost before = out@;
        if k > 0 {
            out.push('\n');
        }
        let mut j: usize = 0;
        let ghost mid = out@;
        while j < piece.len()
            invariant
                j <= piece@.len(),
                out@ == mid + piece@.take(j as int),
            decreases piece@.len() - j,
        {
            out.push(piece[j]);
            assert(piece@.take(j + 1) =~= piece@.take(j as int).push(piece@[j as int]));
            j = j + 1;
        }
        assert(piece@.take(piece@.len() as int) =~= piece@);
        assert(t.take(k + 1).drop_last() =~= t.take(k as int));
        if k == 0 {
            assert(t.take(1) =~= seq![t[0]]);
            assert(out@ =~= piece@);
        } else {
            assert(out@ =~= before + seq!['\n'] + piece@);
        }
        k = k + 1;
    }
    assert(t.take(ls@.len() as int) =~= t);
    out
}

/// Whether an installed relay script differs from the expected one, comparing
/// line by line with trailing whitespace ignored.
pub fn relay_script_is_stale(expected: &str, installed: &str) -> (r: bool)
    ensures
        r == (normalized_script(expected@) != normalized_script(installed@)),
{
    let a = normalize_script(expected);
    let b = normalize_script(installed);
    !chars_eq(a.as_slice(), b.as_slice())
}

// ── Relay logs ──

/// The shell command that prints the last `min(lines, 200)` journal lines of the relay.
pub open spec fn relay_log_command_text(lines: u32) -> Seq<char> {
    let n: nat = if lines < 200 {
        lines as nat
    } else {
        200
    };
    "journalctl --user -u maze-ssh-relay --no-pager -n "@ + decimal(n)
        + " 2>&1 || echo '(journalctl not available)'"@
}

pub fn relay_log_command(lines: u32) -> (r: String)
    ensures
        r@ == relay_log_command_text(lines),
{
    let n: u32 = if lines < 200 {
        lines
    } else {
        200
    };
    let mut r = "journalctl --user -u maze-ssh-relay --no-pager -n ".to_string();
    push_decimal(&mut r, n as u64);
    r.append(" 2>&1 || echo '(journalctl not available)'");
    r
}

/// The relay log text from the output of the journal command: its standard output,
/// or its error output when the standard output is blank.
pub fn get_relay_logs(output: &CmdOutput) -> (r: String)
    ensures
        r@ == (if trim(output.stdout@).len() == 0 {
            output.stderr@
        } else {
            output.stdout@
        }),
{
    let t = trim_str(output.stdout.as_str());
    if t.as_str().is_empty() {
        output.stderr.clone()
    } else {
        output.stdout.clone()
    }
}

// ── SSH test through the bridge ──

pub open spec fn host_char(c: char) -> bool {
    alnum(c) || c == '-' || c == '.' || c == '_' || c == '[' || c == ']'
}

pub open spec fn user_char(c: char) -> bool {
    alnum(c) || c == '-' || c == '.' || c == '_' || c == '@'
}

/// Why an SSH test target is refused, or `None` when it is accepted.
pub open spec fn ssh_target_error(host: Seq<char>, user: Seq<char>) -> Option<Seq<char>> {
    if host.len() == 0 {
        Some("Host cannot be empty"@)
    } else if !(forall|i: int| 0 <= i < host.len() ==> host_char(#[trigger] host[i])) {
        Some("Host contains invalid characters (allowed: a-z A-Z 0-9 - . _ [ ])"@)
    } else if user.len() == 0 {
        Some("User cannot be empty"@)
    } else if vstd::utf8::encode_utf8(user).len() as usize > 64 {
        Some("User too long (max 64 chars)"@)
    } else if !(forall|i: int| 0 <= i < user.len() ==> user_char(#[trigger] user[i])) {
        Some("User contains invalid characters"@)
    } else {
        None
    }
}

/// The command run for the SSH test, as an argument vector (never through a shell).
pub open spec fn ssh_test_args(socket: Seq<char>, user: Seq<char>, host: Seq<char>, port: u16) -> Seq<Seq<char>> {
    seq![
        "env"@,
        "SSH_AUTH_SOCK="@ + socket,
        "ssh"@,
        "-T"@,
        "-o"@,
        "StrictHostKeyChecking=accept-new"@,
        "-o"@,
        "BatchMode=yes"@,
        "-o"@,
        "ConnectTimeout=8"@,
        "-p"@,
        decimal(port as nat),
        user + "@"@ + host,
    ]
}

fn all_chars(s: &str, extra: &str) -> (r: bool)
    ensures
        r == (forall|i: int| 0 <= i < s@.len() ==> #[trigger] alnum_or(s@[i], extra@)),
{
    let c = chars_of(s);
    let e = chars_of(extra);
    let mut i: usize = 0;
    while i < c.len()
        invariant
            i <= c@.len(),
            c@ == s@,
            e@ == extra@,
            forall|k: int| 0 <= k < i ==> #[trigger] alnum_or(c@[k], extra@),
        decreases c@.len() - i,
    {
        if !crate::text::is_alnum_or(c[i], e.as_slice()) {
            return false;
        }
        i = i + 1;
    }
    true
}

/// Validates the SSH test target and builds the command to run in the distro.
pub fn ssh_test_argv(distro: &str, config: &BridgeConfig, host: &str, user: &str, port: u16) -> (r: Result<Vec<String>, MazeSshError>)
    ensures
        match r {
            Ok(v) => ssh_target_error(host@, user@) is None && v@.map_values(|a: String| a@)
                == ssh_test_args(socket_of(*config, distro@), user@, host@, port),
            Err(e) => e matches MazeSshError::BridgeError(m) && ssh_target_error(host@, user@)
                == Some(m@),
        },
{
    if host.is_empty() {
        return Err(MazeSshError::BridgeError("Host cannot be empty".to_string()));
    }
    if !all_chars(host, "-._[]") {
        proof {
            reveal_strlit("-._[]");
            assert forall|c: char| alnum_or(c, "-._[]"@) == host_char(c) by {
                assert("-._[]"@ =~= seq!['-', '.', '_', '[', ']']);
            }
        }
        return Err(
            MazeSshError::BridgeError(
                "Host contains invalid characters (allowed: a-z A-Z 0-9 - . _ [ ])".to_string(),
            ),
        );
    }
    proof {
        reveal_strlit("-._[]");
        assert forall|c: char| alnum_or(c, "-._[]"@) == host_char(c) by {
            assert("-._[]"@ =~= seq!['-', '.', '_', '[', ']']);
        }
    }
    if user.is_empty() {
        return Err(MazeSshError::BridgeError("User cannot be empty".to_string()));
    }
    if user.len() > 64 {
        return Err(MazeSshError::BridgeError("User too long (max 64 chars)".to_string()));
    }
    proof {
        reveal_strlit("-._@");
        assert forall|c: char| alnum_or(c, "-._@"@) == user_char(c) by {
            assert("-._@"@ =~= seq!['-', '.', '_', '@']);
        }
    }
    if !all_chars(user, "-._@") {
        return Err(MazeSshError::BridgeError("User contains invalid characters".to_string()));
    }
    let socket_path = resolve_socket_path(config, distro);
    let mut socket_env = "SSH_AUTH_SOCK=".to_string();
    socket_env.append(socket_path.as_str());
    let mut port_str = String::new();
    push_decimal(&mut port_str, port as u64);
    let mut destination = user.to_string();
    destination.append("@");
    destination.append(host);
    let mut v: Vec<String> = Vec::new();
    v.push("env".to_string());
    v.push(socket_env);
    v.push("ssh".to_string());
    v.push("-T".to_string());
    v.push("-o".to_string());
    v.push("StrictHostKeyChecking=accept-new".to_string());
    v.push("-o".to_string());
    v.push("BatchMode=yes".to_string());
    v.push("-o".to_string());
    v.push("ConnectTimeout=8".to_string());
    v.push("-p".to_string());
    v.push(port_str);
    v.push(destination);
    assert(v@.map_values(|a: String| a@) =~= ssh_test_args(socket_of(*config, distro@), user@, host@, port));
    Ok(v)
}

/// A transport connection was made unless the output reports a refusal, a timeout,
/// an unreachable route or an unresolvable name.
pub open spec fn ssh_connected(lower: Seq<char>) -> bool {
    !contains_sub(lower, "connection refused"@) && !contains_sub(lower, "connection timed out"@)
        && !contains_sub(lower, "timed out"@) && !contains_sub(lower, "no route to host"@)
        && !contains_sub(lower, "could not resolve hostname"@)
}

/// Authentication was accepted when the command succeeded or the output says so.
pub open spec fn ssh_authenticated(success: bool, lower: Seq<char>) -> bool {
    success || contains_sub(lower, "successfully authenticated"@) || contains_sub(
        lower,
        "pty allocation request failed"@,
    ) || contains_sub(lower, "welcome to"@) || contains_sub(lower, "you've successfully authenticated"@)
}

pub open spec fn ssh_test_display(user: Seq<char>, host: Seq<char>, port: u16) -> Seq<char> {
    "env SSH_AUTH_SOCK=<socket> ssh -T -o StrictHostKeyChecking=accept-new -o BatchMode=yes -o ConnectTimeout=8 -p "@
        + decimal(port as nat) + " "@ + user + "@"@ + host
}

/// The result of an SSH test through the bridge from the output of its command.
pub fn test_ssh_via_bridge(host: &str, user: &str, port: u16, output: &CmdOutput) -> (r: SshHostTestResult)
    ensures
        r.command@ == ssh_test_display(user@, host@, port),
        r.output@ == trim(output.stdout@ + output.stderr@),
        r.connected == ssh_connected(lowercase(output.stdout@ + output.stderr@)),
        r.authenticated == ssh_authenticated(output.success, lowercase(output.stdout@ + output.stderr@)),
        r.exit_code == (if output.success {
            0i32
        } else {
            1i32
        }),
{
    let mut combined = output.stdout.clone();
    combined.append(output.stderr.as_str());
    let lower = to_lowercase(combined.as_str());
    let l = lower.as_str();
    let connected = !str_contains(l, "connection refused") && !str_contains(l, "connection timed out")
        && !str_contains(l, "timed out") && !str_contains(l, "no route to host") && !str_contains(
        l,
        "could not resolve hostname",
    );
    let authenticated = output.success || str_contains(l, "successfully authenticated")
        || str_contains(l, "pty allocation request failed") || str_contains(l, "welcome to")
        || str_contains(l, "you've successfully authenticated");
    let exit_code: i32 = if output.success {
        0
    } else {
        1
    };
    let mut command = "env SSH_AUTH_SOCK=<socket> ssh -T -o StrictHostKeyChecking=accept-new -o BatchMode=yes -o ConnectTimeout=8 -p ".to_string();
    push_decimal(&mut command, port as u64);
    command.append(" ");
    command.append(user);
    command.append("@");
    command.append(host);
    SshHostTestResult {
        command,
        output: trim_str(combined.as_str()),
        connected,
        authenticated,
        exit_code,
    }
}

// ── Distro status ──

/// The readings the status of a distro is computed from, each the outcome of a
/// command run in the distro (`None` when it could not run).
#[derive(Debug)]
pub struct DistroProbes {
    /// The distros `wsl -l -v` lists; `None` when listing failed
    pub listed: Option<Vec<WslDistro>>,
    /// `which socat`
    pub which_socat: Option<CmdOutput>,
    /// `systemctl --user status`
    pub systemctl_status: Option<CmdOutput>,
    /// `which zsh` and `which fish`
    pub which_zsh: Option<CmdOutput>,
    pub which_fish: Option<CmdOutput>,
    /// `test -e` on the relay script and on the systemd unit
    pub script_test: Option<CmdOutput>,
    pub unit_test: Option<CmdOutput>,
    /// `systemctl --user is-active maze-ssh-relay.service`
    pub is_active: Option<CmdOutput>,
    /// `test -S` on the socket
    pub socket_test: Option<CmdOutput>,
    /// `ssh-add -l` through the socket
    pub ssh_add: Option<CmdOutput>,
    /// `cat` of the installed relay script
    pub installed_script: Option<CmdOutput>,
    /// WSL path of the provider's relay binary
    pub relay_wsl_path: String,
}

/// The first listed distro named `name`.
pub open spec fn find_listed(ds: Seq<WslDistro>, name: Seq<char>) -> Option<WslDistro>
    decreases ds.len(),
{
    if ds.len() == 0 {
        None
    } else if ds[0].name@ == name {
        Some(ds[0])
    } else {
        find_listed(ds.drop_first(), name)
    }
}

/// (WSL version, running) of the distro, from the listing.
pub open spec fn listed_state(listed: Option<Vec<WslDistro>>, name: Seq<char>) -> (u8, bool) {
    match listed {
        Some(v) => match find_listed(v@, name) {
            Some(d) => (d.version, d.state@ == "Running"@),
            None => (0, false),
        },
        None => (0, false),
    }
}

fn listed_state_of(listed: &Option<Vec<WslDistro>>, name: &str) -> (r: (u8, bool))
    ensures
        r == listed_state(*listed, name@),
{
    match listed {
        None => (0, false),
        Some(v) => {
            let n = name.to_string();
            let mut i: usize = 0;
            assert(v@.skip(0) == v@);
            while i < v.len()
                invariant
                    i <= v@.len(),
                    n@ == name@,
                    *listed == Some(*v),
                    find_listed(v@, name@) == find_listed(v@.skip(i as int), name@),
                decreases v@.len() - i,
            {
                assert(v@.skip(i as int)[0] == v@[i as int]);
                assert(v@.skip(i as int).drop_first() == v@.skip(i as int + 1));
                if v[i].name == n {
                    let running = v[i].state == "Running".to_string();
                    assert(find_listed(v@.skip(i as int), name@) == Some(v@[i as int]));
                    assert(running == (v@[i as int].state@ == "Running"@));
                    return (v[i].version, running);
                }
                i = i + 1;
            }
            (0, false)
        },
    }
}

/// Whether some entry for the distro is enabled.
pub open spec fn distro_enabled(config: BridgeConfig, name: Seq<char>) -> bool {
    exists|i: int|
        0 <= i < config.distros@.len() && (#[trigger] config.distros@[i]).distro_name@ == name
            && config.distros@[i].enabled
}

fn any_enabled(config: &BridgeConfig, name: &str) -> (r: bool)
    ensures
        r == distro_enabled(*config, name@),
{
    let n = name.to_string();
    let mut i: usize = 0;
    while i < config.distros.len()
        invariant
            i <= config.distros@.len(),
            n@ == name@,
            forall|j: int|
                0 <= j < i ==> !((#[trigger] config.distros@[j]).distro_name@ == name@
                    && config.distros@[j].enabled),
        decreases config.distros@.len() - i,
    {
        if config.distros[i].distro_name == n && config.distros[i].enabled {
            return true;
        }
        i = i + 1;
    }
    false
}

/// Settings of the first entry for the distro, with their defaults.
pub open spec fn forwarding_of(config: BridgeConfig, name: Seq<char>) -> bool {
    match find_cfg(config.distros@, name) {
        Some(d) => d.allow_agent_forwarding,
        None => false,
    }
}

pub open spec fn auto_restart_of(config: BridgeConfig, name: Seq<char>) -> bool {
    match find_cfg(config.distros@, name) {
        Some(d) => d.auto_restart,
        None => true,
    }
}

pub open spec fn max_restarts_of(config: BridgeConfig, name: Seq<char>) -> u8 {
    match find_cfg(config.distros@, name) {
        Some(d) => d.max_restarts,
        None => 5,
    }
}

/// Watchdog restarts allowed for the distro (5 when it has no entry).
pub fn max_restarts_for(config: &BridgeConfig, distro: &str) -> (r: u8)
    ensures
        r == max_restarts_of(*config, distro@),
{
    match find_index(&config.distros, distro) {
        Some(i) => config.distros[i].max_restarts,
        None => 5,
    }
}

/// Whether `is-active` reported "active".
pub open spec fn reports_active(o: Option<CmdOutput>) -> bool {
    match o {
        Some(x) => trim(x.stdout@) == "active"@,
        None => false,
    }
}

fn says_active(o: &Option<CmdOutput>) -> (r: bool)
    ensures
        r == reports_active(*o),
{
    match o {
        Some(x) => {
            let t = trim_str(x.stdout.as_str());
            t == "active".to_string()
        },
        None => false,
    }
}

/// Whether `ssh-add -l` reached an agent: it succeeded, reported no identities, or
/// did not report a connection failure.
pub open spec fn agent_answers(o: Option<CmdOutput>) -> bool {
    match o {
        Some(x) => x.success || contains_sub(x.stderr@, "no identities"@) || contains_sub(
            x.stdout@,
            "no identities"@,
        ) || (!contains_sub(x.stderr@, "Error connecting"@) && !contains_sub(
            x.stderr@,
            "Could not open"@,
        )),
        None => false,
    }
}

fn agent_answered(o: &Option<CmdOutput>) -> (r: bool)
    ensures
        r == agent_answers(*o),
{
    match o {
        Some(x) => x.success || str_contains(x.stderr.as_str(), "no identities") || str_contains(
            x.stdout.as_str(),
            "no identities",
        ) || (!str_contains(x.stderr.as_str(), "Error connecting") && !str_contains(
            x.stderr.as_str(),
            "Could not open",
        )),
        None => false,
    }
}

/// The text of a successful `cat`, empty otherwise.
pub open spec fn cat_text(o: Option<CmdOutput>) -> Seq<char> {
    match o {
        Some(x) => if x.success {
            x.stdout@
        } else {
            Seq::empty()
        },
        None => Seq::empty(),
    }
}

/// Whether the relay script and, under systemd, its unit are installed.
pub open spec fn relay_installed_from(mode: RelayMode, p: DistroProbes) -> bool {
    match mode {
        RelayMode::Systemd => ran_ok(p.script_test) && ran_ok(p.unit_test),
        RelayMode::Daemon => ran_ok(p.script_test),
    }
}

/// Whether the relay runs: `is-active` under systemd, the socket as a daemon.
pub open spec fn service_active_from(mode: RelayMode, p: DistroProbes) -> bool {
    match mode {
        RelayMode::Systemd => reports_active(p.is_active),
        RelayMode::Daemon => ran_ok(p.socket_test),
    }
}

/// The first problem the checks of a running distro show, if any.
pub open spec fn status_error(
    needs_socat: bool,
    socat: bool,
    mode: RelayMode,
    systemd: bool,
    installed: bool,
    active: bool,
    socket: bool,
    reachable: bool,
) -> Option<Seq<char>> {
    if needs_socat && !socat {
        Some("socat not installed"@)
    } else if mode == RelayMode::Systemd && !systemd {
        Some("systemd not available"@)
    } else if installed && !active {
        Some("Service installed but not active"@)
    } else if active && !socket {
        Some("Service active but socket not found"@)
    } else if socket && !reachable {
        Some("Socket exists but agent unreachable — agent may be stopped"@)
    } else {
        None
    }
}

fn error_text_of(
    needs_socat: bool,
    socat: bool,
    mode: RelayMode,
    systemd: bool,
    installed: bool,
    active: bool,
    socket: bool,
    reachable: bool,
) -> (r: Option<String>)
    ensures
        opt_view(r) == status_error(needs_socat, socat, mode, systemd, installed, active, socket, reachable),
{
    if needs_socat && !socat {
        Some("socat not installed".to_string())
    } else if mode == RelayMode::Systemd && !systemd {
        Some("systemd not available".to_string())
    } else if installed && !active {
        Some("Service installed but not active".to_string())
    } else if active && !socket {
        Some("Service active but socket not found".to_string())
    } else if socket && !reachable {
        Some("Socket exists but agent unreachable — agent may be stopped".to_string())
    } else {
        None
    }
}

/// The bridge status of a distro from its configuration and the probe readings.
/// A distro that is not listed as running gets every check false and the error
/// "Distro is not running"; the watchdog count is 0 (the caller overlays its own).
pub fn get_distro_status(distro: &str, config: &BridgeConfig, probes: &DistroProbes) -> (st: DistroBridgeStatus)
    ensures
        st.distro_name@ == distro@,
        (st.wsl_version, st.distro_running) == listed_state(probes.listed, distro@),
        st.enabled == distro_enabled(*config, distro@),
        st.provider@ == provider_of(*config, distro@),
        st.relay_mode == mode_of(*config, distro@),
        st.socket_path@ == socket_of(*config, distro@),
        st.allow_agent_forwarding == forwarding_of(*config, distro@),
        st.auto_restart == auto_restart_of(*config, distro@),
        st.max_restarts == max_restarts_of(*config, distro@),
        st.watchdog_restart_count == 0,
        !st.distro_running ==> {
            &&& !st.relay_installed && !st.service_active && !st.socket_exists
            &&& !st.agent_reachable && !st.socat_installed && !st.systemd_available
            &&& !st.relay_script_stale
            &&& st.detected_shells@.len() == 0
            &&& opt_view(st.error) == Some("Distro is not running"@)
        },
        st.distro_running ==> {
            let mode = mode_of(*config, distro@);
            &&& st.socat_installed == ran_ok(probes.which_socat)
            &&& st.systemd_available == systemd_running(probes.systemctl_status)
            &&& st.detected_shells@.len() == 3
            &&& st.relay_installed == relay_installed_from(mode, *probes)
            &&& st.service_active == service_active_from(mode, *probes)
            &&& st.socket_exists == ran_ok(probes.socket_test)
            &&& st.agent_reachable == (ran_ok(probes.socket_test) && agent_answers(probes.ssh_add))
            &&& opt_view(st.error) == status_error(
                crate::provider::provider_needs_socat(provider_of(*config, distro@)),
                st.socat_installed,
                mode,
                st.systemd_available,
                st.relay_installed,
                st.service_active,
                st.socket_exists,
                st.agent_reachable,
            )
            &&& st.relay_script_stale == (st.relay_installed && normalized_script(
                relay_script(
                    provider_of(*config, distro@),
                    probes.relay_wsl_path@,
                    socket_of(*config, distro@),
                ),
            ) != normalized_script(cat_text(probes.installed_script)))
        },
{
    let socket_path = resolve_socket_path(config, distro);
    let provider = resolve_provider(config, distro);
    let relay_mode = resolve_relay_mode(config, distro);
    let (wsl_version, distro_running) = listed_state_of(&probes.listed, distro);
    let enabled = any_enabled(config, distro);
    let (allow_agent_forwarding, auto_restart, max_restarts) = match find_index(
        &config.distros,
        distro,
    ) {
        Some(i) => (
            config.distros[i].allow_agent_forwarding,
            config.distros[i].auto_restart,
            config.distros[i].max_restarts,
        ),
        None => (false, true, 5u8),
    };
    if !distro_running {
        return DistroBridgeStatus {
            distro_name: distro.to_string(),
            wsl_version,
            distro_running: false,
            enabled,
            provider,
            relay_installed: false,
            service_active: false,
            socket_exists: false,
            agent_reachable: false,
            allow_agent_forwarding,
            socat_installed: false,
            systemd_available: false,
            relay_mode,
            auto_restart,
            watchdog_restart_count: 0,
            relay_script_stale: false,
            max_restarts,
            detected_shells: Vec::new(),
            socket_path,
            error: Some("Distro is not running".to_string()),
        };
    }
    let socat_installed = has_socat(&probes.which_socat);
    let systemd_available = has_systemd(&probes.systemctl_status);
    let detected_shells = detect_shells(&probes.which_zsh, &probes.which_fish);
    let script_installed = crate::wsl::wsl_file_exists(&probes.script_test);
    let relay_installed = match relay_mode {
        RelayMode::Systemd => script_installed && crate::wsl::wsl_file_exists(&probes.unit_test),
        RelayMode::Daemon => script_installed,
    };
    let socket_exists = crate::wsl::wsl_file_exists(&probes.socket_test);
    let service_active = match relay_mode {
        RelayMode::Systemd => says_active(&probes.is_active),
        RelayMode::Daemon => socket_exists,
    };
    let agent_reachable = if socket_exists {
        agent_answered(&probes.ssh_add)
    } else {
        false
    };
    let error = error_text_of(
        provider.needs_socat(),
        socat_installed,
        relay_mode,
        systemd_available,
        relay_installed,
        service_active,
        socket_exists,
        agent_reachable,
    );
    let relay_script_stale = if relay_installed {
        let expected = generate_relay_script(
            &provider,
            probes.relay_wsl_path.as_str(),
            socket_path.as_str(),
        );
        let installed = match &probes.installed_script {
            Some(o) => if o.success {
                o.stdout.clone()
            } else {
                String::new()
            },
            None => String::new(),
        };
        relay_script_is_stale(expected.as_str(), installed.as_str())
    } else {
        false
    };
    DistroBridgeStatus {
        distro_name: distro.to_string(),
        wsl_version,
        distro_running,
        enabled,
        provider,
        relay_installed,
        service_active,
        socket_exists,
        agent_reachable,
        allow_agent_forwarding,
        socat_installed,
        systemd_available,
        relay_mode,
        auto_restart,
        watchdog_restart_count: 0,
        relay_script_stale,
        max_restarts,
        detected_shells,
        socket_path,
        error,
    }
}

// ── Diagnostics ──

/// Remediation hints, one per diagnostics step.
pub open spec fn step_suggestion(i: int) -> Seq<char> {
    if i == 0 {
        "Start or enable your SSH agent provider (e.g. Windows OpenSSH service)."@
    } else if i == 1 {
        "Download the relay binary using the Download button in Prerequisites."@
    } else if i == 2 {
        "Start your WSL distro: open a terminal and run `wsl -d <distro>`."@
    } else if i == 3 {
        "Start the relay service: click Start, or re-run bootstrap."@
    } else if i == 4 {
        "The Unix socket wasn't created. Check relay logs for errors."@
    } else {
        "The agent socket exists but no keys are loaded. Add keys with `ssh-add` on Windows."@
    }
}

fn suggestion_for(i: usize) -> (r: String)
    ensures
        r@ == step_suggestion(if i < 5 {
            i as int
        } else {
            5
        }),
{
    if i == 0 {
        "Start or enable your SSH agent provider (e.g. Windows OpenSSH service).".to_string()
    } else if i == 1 {
        "Download the relay binary using the Download button in Prerequisites.".to_string()
    } else if i == 2 {
        "Start your WSL distro: open a terminal and run `wsl -d <distro>`.".to_string()
    } else if i == 3 {
        "Start the relay service: click Start, or re-run bootstrap.".to_string()
    } else if i == 4 {
        "The Unix socket wasn't created. Check relay logs for errors.".to_string()
    } else {
        "The agent socket exists but no keys are loaded. Add keys with `ssh-add` on Windows.".to_string()
    }
}

/// The readings a diagnostics run is computed from.
#[derive(Debug)]
pub struct DiagnosticProbes {
    /// Whether the provider is reachable on Windows, and why not
    pub provider_available: bool,
    pub provider_error: Option<String>,
    /// Whether the relay binary is installed, and where it is expected
    pub binary_installed: bool,
    pub binary_path: String,
    /// `echo ok` in the distro
    pub echo: Option<CmdOutput>,
    /// `systemctl --user is-active maze-ssh-relay.service`
    pub is_active: Option<CmdOutput>,
    /// `test -S` on the socket
    pub socket_test: Option<CmdOutput>,
    /// `test -e` on the relay script
    pub script_test: Option<CmdOutput>,
    /// `ssh-add -l` through the socket
    pub ssh_add: Option<CmdOutput>,
}

/// The key lines of `ssh-add -l` output: non-blank lines that are not the
/// "no identities" message, trimmed.
pub open spec fn key_lines(ls: Seq<Seq<char>>) -> Seq<Seq<char>>
    decreases ls.len(),
{
    if ls.len() == 0 {
        Seq::empty()
    } else {
        let p = key_lines(ls.drop_last());
        let l = ls.last();
        if trim(l).len() > 0 && !contains_sub(l, "The agent has no identities"@) {
            p.push(trim(l))
        } else {
            p
        }
    }
}

/// The keys visible through the bridge, from `ssh-add -l` (run only when the socket
/// exists): the lines of its standard output, or of its error output when that is blank.
pub open spec fn visible_keys(socket_ok: bool, ssh_add: Option<CmdOutput>) -> Seq<Seq<char>> {
    if !socket_ok {
        Seq::empty()
    } else {
        match ssh_add {
            Some(o) => key_lines(
                lines(
                    if trim(o.stdout@).len() == 0 {
                        o.stderr@
                    } else {
                        o.stdout@
                    },
                ),
            ),
            None => Seq::empty(),
        }
    }
}

fn keys_from(socket_ok: bool, ssh_add: &Option<CmdOutput>) -> (r: Vec<String>)
    ensures
        r@.map_values(|s: String| s@) == visible_keys(socket_ok, *ssh_add),
{
    let mut r: Vec<String> = Vec::new();
    if !socket_ok {
        assert(r@.map_values(|s: String| s@) =~= Seq::<Seq<char>>::empty());
        return r;
    }
    match ssh_add {
        None => {
            assert(r@.map_values(|s: String| s@) =~= Seq::<Seq<char>>::empty());
            r
        },
        Some(o) => {
            let out = get_relay_logs(o);
            let ls = lines_of(chars_of(out.as_str()).as_slice());
            let ghost v = views(ls@);
            let mut i: usize = 0;
            assert(v.take(0) =~= Seq::<Seq<char>>::empty());
            assert(r@.map_values(|s: String| s@) =~= Seq::<Seq<char>>::empty());
            while i < ls.len()
                invariant
                    i <= ls@.len(),
                    v == views(ls@),
                    v.len() == ls@.len(),
                    r@.map_values(|s: String| s@) == key_lines(v.take(i as int)),
                decreases ls@.len() - i,
            {
                assert(v.take(i + 1).drop_last() =~= v.take(i as int));
                assert(v.take(i + 1).last() == ls@[i as int]@);
                let t = trim_chars(ls[i].as_slice());
                let quiet = crate::text::contains_chars(
                    ls[i].as_slice(),
                    chars_of("The agent has no identities").as_slice(),
                );
                if t.len() > 0 && !quiet {
                    let ghost before = r@.map_values(|s: String| s@);
                    let line = string_of(t.as_slice());
                    r.push(line);
                    assert(r@.map_values(|s: String| s@) =~= before.push(t@));
                }
                i = i + 1;
            }
            assert(v.take(ls@.len() as int) =~= v);
            r
        },
    }
}

/// A step as (name, passed, detail, remediation command).
pub type StepModel = (Seq<char>, bool, Option<Seq<char>>, Option<Seq<char>>);

pub open spec fn step_view(s: DiagnosticsStep) -> StepModel {
    (s.name@, s.passed, opt_view(s.detail), opt_view(s.remediation_cmd))
}

/// A step; a passed step carries no remediation.
pub open spec fn step_model(name: Seq<char>, passed: bool, detail: Option<Seq<char>>, fix: Option<Seq<char>>) -> StepModel {
    (name, passed, detail, if passed {
        None
    } else {
        fix
    })
}

/// Whether `echo ok` answered.
pub open spec fn echoed_ok(o: Option<CmdOutput>) -> bool {
    match o {
        Some(x) => trim(x.stdout@) == "ok"@,
        None => false,
    }
}

/// The six diagnostics steps, in order.
pub open spec fn diagnostic_steps(mode: RelayMode, socket: Seq<char>, p: DiagnosticProbes) -> Seq<StepModel> {
    let socket_ok = ran_ok(p.socket_test);
    let active = match mode {
        RelayMode::Systemd => reports_active(p.is_active),
        RelayMode::Daemon => socket_ok,
    };
    let keys = visible_keys(socket_ok, p.ssh_add).len();
    seq![
        step_model("Provider reachable"@, p.provider_available, opt_view(p.provider_error), None),
        step_model(
            "Relay binary installed"@,
            p.binary_installed,
            if p.binary_installed {
                None
            } else {
                Some("Expected at: "@ + p.binary_path@)
            },
            None,
        ),
        step_model("Distro running"@, echoed_ok(p.echo), None, None),
        step_model(
            match mode {
                RelayMode::Systemd => "Relay service (systemd)"@,
                RelayMode::Daemon => "Relay process (daemon)"@,
            },
            active,
            None,
            Some(
                match mode {
                    RelayMode::Systemd => "systemctl --user start maze-ssh-relay.service"@,
                    RelayMode::Daemon => "nohup \"$HOME\"/.local/bin/maze-ssh-relay.sh &>/dev/null &"@,
                },
            ),
        ),
        step_model(
            "Unix socket exists"@,
            socket_ok,
            Some(socket),
            if ran_ok(p.script_test) && !socket_ok {
                Some("rm -f "@ + socket + " && systemctl --user restart maze-ssh-relay.service"@)
            } else {
                None
            },
        ),
        step_model(
            "Keys visible through bridge"@,
            keys > 0,
            Some(decimal(keys) + " key(s) accessible"@),
            None,
        ),
    ]
}

/// Index of the first failing step.
pub open spec fn first_failing(steps: Seq<StepModel>) -> Option<int> {
    if exists|i: int| 0 <= i < steps.len() && !(#[trigger] steps[i]).1 {
        Some(choose|i: int| 0 <= i < steps.len() && !(#[trigger] steps[i]).1 && forall|j: int| 0 <= j < i ==> steps[j].1)
    } else {
        None
    }
}

fn make_step(name: &str, passed: bool, detail: Option<String>, fix: Option<String>) -> (r: DiagnosticsStep)
    ensures
        step_view(r) == step_model(name@, passed, opt_view(detail), opt_view(fix)),
{
    DiagnosticsStep {
        name: name.to_string(),
        passed,
        detail,
        remediation_cmd: if passed {
            None
        } else {
            fix
        },
    }
}

/// The step-by-step bridge connectivity test of a distro, from the probe readings:
/// six steps, the keys seen through the socket, and the hint for the first failing step.
pub fn run_diagnostics(distro: &str, config: &BridgeConfig, probes: &DiagnosticProbes) -> (r: DiagnosticsResult)
    ensures
        r.distro@ == distro@,
        r.steps@.map_values(|s: DiagnosticsStep| step_view(s)) == diagnostic_steps(
            mode_of(*config, distro@),
            socket_of(*config, distro@),
            *probes,
        ),
        r.keys_visible@.map_values(|s: String| s@) == visible_keys(ran_ok(probes.socket_test), probes.ssh_add),
        r.suggestions@.map_values(|s: String| s@) == (match first_failing(
            diagnostic_steps(mode_of(*config, distro@), socket_of(*config, distro@), *probes),
        ) {
            Some(i) => seq![step_suggestion(i)],
            None => Seq::empty(),
        }),
{
    let relay_mode = resolve_relay_mode(config, distro);
    let socket_path = resolve_socket_path(config, distro);
    let ghost model = diagnostic_steps(mode_of(*config, distro@), socket_of(*config, distro@), *probes);
    let mut steps: Vec<DiagnosticsStep> = Vec::new();

    steps.push(make_step("Provider reachable", probes.provider_available, probes.provider_error.clone(), None));

    let binary_detail = if !probes.binary_installed {
        let mut d = "Expected at: ".to_string();
        d.append(probes.binary_path.as_str());
        Some(d)
    } else {
        None
    };
    steps.push(make_step("Relay binary installed", probes.binary_installed, binary_detail, None));

    let running = match &probes.echo {
        Some(o) => {
            let t = trim_str(o.stdout.as_str());
            t == "ok".to_string()
        },
        None => false,
    };
    steps.push(make_step("Distro running", running, None, None));

    let socket_ok = crate::wsl::wsl_file_exists(&probes.socket_test);
    let service_active = match relay_mode {
        RelayMode::Systemd => says_active(&probes.is_active),
        RelayMode::Daemon => socket_ok,
    };
    let mode_label = match relay_mode {
        RelayMode::Systemd => "Relay service (systemd)",
        RelayMode::Daemon => "Relay process (daemon)",
    };
    let service_fix = match relay_mode {
        RelayMode::Systemd => "systemctl --user start maze-ssh-relay.service".to_string(),
        RelayMode::Daemon => "nohup \"$HOME\"/.local/bin/maze-ssh-relay.sh &>/dev/null &".to_string(),
    };
    steps.push(make_step(mode_label, service_active, None, Some(service_fix)));

    let relay_installed = crate::wsl::wsl_file_exists(&probes.script_test);
    let socket_fix = if relay_installed && !socket_ok {
        let mut f = "rm -f ".to_string();
        f.append(socket_path.as_str());
        f.append(" && systemctl --user restart maze-ssh-relay.service");
        Some(f)
    } else {
        None
    };
    steps.push(make_step("Unix socket exists", socket_ok, Some(socket_path.clone()), socket_fix));

    let keys_visible = keys_from(socket_ok, &probes.ssh_add);
    let count = keys_visible.len();
    let mut detail = String::new();
    push_decimal(&mut detail, count as u64);
    detail.append(" key(s) accessible");
    steps.push(make_step("Keys visible through bridge", count > 0, Some(detail), None));

    let ghost got = steps@.map_values(|s: DiagnosticsStep| step_view(s));
    assert(got =~= model);

    let mut first_fail: Option<usize> = None;
    let mut i: usize = 0;
    while i < steps.len()
        invariant
            i <= steps@.len(),
            steps@.map_values(|s: DiagnosticsStep| step_view(s)) == model,
            first_fail is None ==> forall|j: int| 0 <= j < i ==> (#[trigger] model[j]).1,
            first_fail matches Some(f) ==> f < steps@.len() && !model[f as int].1 && forall|j: int|
                0 <= j < f ==> (#[trigger] model[j]).1,
        decreases steps@.len() - i,
    {
        assert(model[i as int] == step_view(steps@[i as int]));
        if first_fail.is_none() && !steps[i].passed {
            first_fail = Some(i);
        }
        i = i + 1;
    }
    let mut suggestions: Vec<String> = Vec::new();
    match first_fail {
        Some(f) => {
            assert(model[f as int] == step_view(steps@[f as int]));
            suggestions.push(suggestion_for(f));
            assert(first_failing(model) == Some(f as int)) by {
                let c = choose|c: int| 0 <= c < model.len() && !(#[trigger] model[c]).1 && forall|j: int| 0 <= j < c ==> model[j].1;
                if c < f {
                } else if c > f {
                    assert(model[f as int].1);
                }
            }
            assert(suggestions@.map_values(|s: String| s@) =~= seq![step_suggestion(f as int)]);
        },
        None => {
            assert(first_failing(model) is None);
            assert(suggestions@.map_values(|s: String| s@) =~= Seq::<Seq<char>>::empty());
        },
    }
    DiagnosticsResult { distro: distro.to_string(), steps, keys_visible, suggestions }
}

// ── Relay watchdog ──

/// Per-distro watchdog tracking (not persisted).
#[derive(Debug, Clone, Copy, PartialEq, Eq, Structural)]
pub struct WatchdogEntry {
    /// Was the relay active on the last poll?
    pub was_active: bool,
    /// Number of auto-restarts since last healthy observation
    pub restart_count: u8,
    /// Monotonic clock reading (milliseconds) of the last restart attempt
    pub last_restart_at: Option<u64>,
}

/// What the watchdog does after a poll.
#[derive(Debug, Clone, Copy, PartialEq, Eq, Structural)]
pub enum WatchdogAction {
    /// First poll of the distro: the state is recorded, nothing is restarted
    Init,
    /// The relay died and the restart limit is reached: nothing is restarted, the user is told
    AlreadyPaused,
    /// The relay died and is restarted
    Restart,
    /// Only the recorded state changes
    Update,
}

/// The watchdog's next entry and action after observing `active`.
pub open spec fn watchdog_next(entry: Option<WatchdogEntry>, active: bool, max: u8, now: u64) -> (WatchdogEntry, WatchdogAction) {
    match entry {
        None => (WatchdogEntry { was_active: active, restart_count: 0, last_restart_at: None }, WatchdogAction::Init),
        Some(e) => {
            let count: u8 = if active {
                0
            } else {
                e.restart_count
            };
            if e.was_active && !active {
                if count >= max {
                    (WatchdogEntry { restart_count: count, ..e }, WatchdogAction::AlreadyPaused)
                } else {
                    (
                        WatchdogEntry { restart_count: (count + 1) as u8, last_restart_at: Some(now), ..e },
                        WatchdogAction::Restart,
                    )
                }
            } else {
                (WatchdogEntry { was_active: active, restart_count: count, ..e }, WatchdogAction::Update)
            }
        },
    }
}

/// One watchdog decision. The first poll of a distro never restarts it; a relay is
/// restarted only when it was active and is not any more, and at most `max_restarts`
/// times in a row: a healthy observation resets the count.
pub fn watchdog_step(entry: Option<WatchdogEntry>, currently_active: bool, max_restarts: u8, now: u64) -> (r: (WatchdogEntry, WatchdogAction))
    ensures
        r == watchdog_next(entry, currently_active, max_restarts, now),
        entry is None ==> r.1 == WatchdogAction::Init,
        currently_active ==> r.0.restart_count == 0 && r.1 != WatchdogAction::Restart,
        r.1 == WatchdogAction::Restart ==> r.0.restart_count <= max_restarts,
        entry matches Some(e) && e.restart_count <= max_restarts ==> r.0.restart_count <= max_restarts,
{
    match entry {
        None => (WatchdogEntry { was_active: currently_active, restart_count: 0, last_restart_at: None }, WatchdogAction::Init),
        Some(e) => {
            let count: u8 = if currently_active {
                0
            } else {
                e.restart_count
            };
            if e.was_active && !currently_active {
                if count >= max_restarts {
                    (WatchdogEntry { restart_count: count, ..e }, WatchdogAction::AlreadyPaused)
                } else {
                    (
                        WatchdogEntry { restart_count: count + 1, last_restart_at: Some(now), ..e },
                        WatchdogAction::Restart,
                    )
                }
            } else {
                (WatchdogEntry { was_active: currently_active, restart_count: count, ..e }, WatchdogAction::Update)
            }
        },
    }
}

/// One poll of a watched distro: nothing at all while the app is locked,
/// otherwise the watchdog decision for it.
pub fn watchdog_poll(locked: bool, entry: Option<WatchdogEntry>, currently_active: bool, max_restarts: u8, now: u64) -> (r:
    Option<(WatchdogEntry, WatchdogAction)>)
    ensures
        locked ==> r is None,
        !locked ==> r == Some(watchdog_next(entry, currently_active, max_restarts, now)),
{
    if locked {
        None
    } else {
        Some(watchdog_step(entry, currently_active, max_restarts, now))
    }
}

/// The entry after a successful restart: the relay is recorded as active.
pub fn watchdog_restarted(entry: WatchdogEntry) -> (r: WatchdogEntry)
    ensures
        r == (WatchdogEntry { was_active: true, ..entry }),
{
    WatchdogEntry { was_active: true, ..entry }
}

/// The distros the watchdog polls: enabled entries with auto-restart on, in order.
pub open spec fn watched(ds: Seq<DistroBridgeConfig>) -> Seq<Seq<char>>
    decreases ds.len(),
{
    if ds.len() == 0 {
        Seq::empty()
    } else {
        let p = watched(ds.drop_last());
        if ds.last().enabled && ds.last().auto_restart {
            p.push(ds.last().distro_name@)
        } else {
            p
        }
    }
}

pub fn distros_to_watch(config: &BridgeConfig) -> (r: Vec<String>)
    ensures
        r@.map_values(|s: String| s@) == watched(config.distros@),
{
    let mut r: Vec<String> = Vec::new();
    let mut i: usize = 0;
    assert(config.distros@.take(0) =~= Seq::<DistroBridgeConfig>::empty());
    assert(r@.map_values(|s: String| s@) =~= Seq::<Seq<char>>::empty());
    while i < config.distros.len()
        invariant
            i <= config.distros@.len(),
            r@.map_values(|s: String| s@) == watched(config.distros@.take(i as int)),
        decreases config.distros@.len() - i,
    {
        assert(config.distros@.take(i + 1).drop_last() =~= config.distros@.take(i as int));
        assert(config.distros@.take(i + 1).last() == config.distros@[i as int]);
        let d = &config.distros[i];
        if d.enabled && d.auto_restart {
            let ghost before = r@.map_values(|s: String| s@);
            r.push(d.distro_name.clone());
            assert(r@.map_values(|s: String| s@) =~= before.push(d.distro_name@));
        }
        i = i + 1;
    }
    assert(config.distros@.take(config.distros@.len() as int) =~= config.distros@);
    r
}

/// The names of the WSL2 distros of a listing (those the overview reports).
pub open spec fn wsl2_names(ds: Seq<WslDistro>) -> Seq<Seq<char>>
    decreases ds.len(),
{
    if ds.len() == 0 {
        Seq::empty()
    } else {
        let p = wsl2_names(ds.drop_last());
        if ds.last().version == 2 {
            p.push(ds.last().name@)
        } else {
            p
        }
    }
}

pub fn wsl2_distro_names(listed: &Vec<WslDistro>) -> (r: Vec<String>)
    ensures
        r@.map_values(|s: String| s@) == wsl2_names(listed@),
{
    let mut r: Vec<String> = Vec::new();
    let mut i: usize = 0;
    assert(listed@.take(0) =~= Seq::<WslDistro>::empty());
    assert(r@.map_values(|s: String| s@) =~= Seq::<Seq<char>>::empty());
    while i < listed.len()
        invariant
            i <= listed@.len(),
            r@.map_values(|s: String| s@) == wsl2_names(listed@.take(i as int)),
        decreases listed@.len() - i,
    {
        assert(listed@.take(i + 1).drop_last() =~= listed@.take(i as int));
        assert(listed@.take(i + 1).last() == listed@[i as int]);
        if listed[i].version == 2 {
            let ghost before = r@.map_values(|s: String| s@);
            r.push(listed[i].name.clone());
            assert(r@.map_values(|s: String| s@) =~= before.push(listed@[i as int].name@));
        }
        i = i + 1;
    }
    assert(listed@.take(listed@.len() as int) =~= listed@);
    r
}

// ── Re-running the shell set-up ──

proof fn lemma_starts_visible(l: Seq<char>, end: Seq<char>)
    requires
        l.len() > 0,
        !is_ws(l[0]),
        end.len() > 0,
        l[0] != end[0],
    ensures
        trim(l) != end,
{
    lemma_trim_keeps_first(l);
}

proof fn lemma_without_char(l: Seq<char>, end: Seq<char>)
    requires
        end.len() > 0,
        !l.contains(end[0]),
    ensures
        trim(l) != end,
{
    lemma_trim_chars_from(l);
    if trim(l) == end {
        assert(l.contains(trim(l)[0]));
    }
}

proof fn lemma_quoted_no_nl(pre: Seq<char>, socket: Seq<char>, post: Seq<char>)
    requires
        no_nl(pre),
        no_nl(socket),
        no_nl(post),
    ensures
        no_nl(pre + socket + post),
{
    let l = pre + socket + post;
    assert forall|i: int| 0 <= i < l.len() implies l[i] != '\n' by {
        if i < pre.len() {
            assert(l[i] == pre[i]);
        } else if i < pre.len() + socket.len() {
            assert(l[i] == socket[i - pre.len()]);
        } else {
            assert(l[i] == post[i - pre.len() - socket.len()]);
        }
    }
}

/// The bash block is a marked block when the socket path holds no newline.
proof fn lemma_bashrc_block_marked(socket: Seq<char>, mode: RelayMode)
    requires
        no_nl(socket),
    ensures
        is_marked_block(bashrc_block(socket, mode), BRIDGE_MARKER_BEGIN@, BRIDGE_MARKER_END@),
{
    reveal_strlit("# >>> maze-ssh-bridge >>>");
    reveal_strlit("# <<< maze-ssh-bridge <<<");
    let bm = BRIDGE_MARKER_BEGIN@;
    let em = BRIDGE_MARKER_END@;
    lemma_trim_visible_ends(bm);
    lemma_trim_visible_ends(em);
    let e0 = Seq::<Seq<char>>::empty().push(bm);
    lemma_join_push(Seq::<Seq<char>>::empty(), bm);
    assert(join_lines(Seq::<Seq<char>>::empty()) == Seq::<char>::empty());
    match mode {
        RelayMode::Systemd => {
            reveal_strlit("export SSH_AUTH_SOCK=\"");
            reveal_strlit("\"");
            reveal_strlit("\nexport SSH_AUTH_SOCK=\"");
            reveal_strlit("\"\n");
            reveal_strlit("\n");
            let a = "export SSH_AUTH_SOCK=\""@ + socket + "\""@;
            lemma_quoted_no_nl("export SSH_AUTH_SOCK=\""@, socket, "\""@);
            lemma_starts_visible(a, em);
            let k = e0.push(a).push(em);
            lemma_join_push(e0, a);
            lemma_join_push(e0.push(a), em);
            assert(join_lines(k) =~= bashrc_block(socket, mode));
            assert(k[0] == bm && k[1] == a && k[2] == em);
            lemma_joined_block_is_marked(k, bm, em);
        },
        RelayMode::Daemon => {
            reveal_strlit("export MAZE_SSH_SOCKET=\"");
            reveal_strlit("\"");
            reveal_strlit("if [ ! -S \"$MAZE_SSH_SOCKET\" ]; then");
            reveal_strlit("    nohup \"$HOME\"/.local/bin/maze-ssh-relay.sh &>/dev/null &");
            reveal_strlit("    sleep 0.5");
            reveal_strlit("fi");
            reveal_strlit("export SSH_AUTH_SOCK=\"$MAZE_SSH_SOCKET\"");
            reveal_strlit("\nexport MAZE_SSH_SOCKET=\"");
            reveal_strlit(
                "\"\nif [ ! -S \"$MAZE_SSH_SOCKET\" ]; then\n    nohup \"$HOME\"/.local/bin/maze-ssh-relay.sh &>/dev/null &\n    sleep 0.5\nfi\nexport SSH_AUTH_SOCK=\"$MAZE_SSH_SOCKET\"\n",
            );
            reveal_strlit("\n");
            let l1 = "export MAZE_SSH_SOCKET=\""@ + socket + "\""@;
            let l2 = "if [ ! -S \"$MAZE_SSH_SOCKET\" ]; then"@;
            let l3 = "    nohup \"$HOME\"/.local/bin/maze-ssh-relay.sh &>/dev/null &"@;
            let l4 = "    sleep 0.5"@;
            let l5 = "fi"@;
            let l6 = "export SSH_AUTH_SOCK=\"$MAZE_SSH_SOCKET\""@;
            lemma_quoted_no_nl("export MAZE_SSH_SOCKET=\""@, socket, "\""@);
            lemma_starts_visible(l1, em);
            lemma_starts_visible(l2, em);
            lemma_without_char(l3, em);
            lemma_without_char(l4, em);
            lemma_starts_visible(l5, em);
            lemma_starts_visible(l6, em);
            let k1 = e0.push(l1);
            let k2 = k1.push(l2);
            let k3 = k2.push(l3);
            let k4 = k3.push(l4);
            let k5 = k4.push(l5);
            let k6 = k5.push(l6);
            let k = k6.push(em);
            lemma_join_push(e0, l1);
            lemma_join_push(k1, l2);
            lemma_join_push(k2, l3);
            lemma_join_push(k3, l4);
            lemma_join_push(k4, l5);
            lemma_join_push(k5, l6);
            lemma_join_push(k6, em);
            assert(join_lines(k) =~= bashrc_block(socket, mode));
            assert(k[0] == bm && k[1] == l1 && k[2] == l2 && k[3] == l3 && k[4] == l4 && k[5] == l5 && k[6] == l6
                && k[7] == em);
            lemma_joined_block_is_marked(k, bm, em);
        },
    }
}

/// Setting up the bridge in a shell profile again changes nothing: replacing the
/// bridge block of a profile with the bash block for the same socket and relay
/// mode, done twice, gives what doing it once gave. This holds unless the first
/// pass leaves a begin marker line with no end marker line after it, or a line
/// that ends in a carriage return; and the socket path must hold no newline.
pub proof fn lemma_shell_setup_idempotent(content: Seq<char>, socket: Seq<char>, mode: RelayMode)
    requires
        no_nl(socket),
        forall|i: int| 0 <= i < kept_lines(lines(content), BRIDGE_MARKER_BEGIN@, BRIDGE_MARKER_END@).len() ==> trim(
            #[trigger] kept_lines(lines(content), BRIDGE_MARKER_BEGIN@, BRIDGE_MARKER_END@)[i],
        ) != BRIDGE_MARKER_BEGIN@,
        forall|i: int|
            0 <= i < split_nl(trim_end(without_blocks(content, BRIDGE_MARKER_BEGIN@, BRIDGE_MARKER_END@))).len()
                ==> !ends_cr(
                #[trigger] split_nl(trim_end(without_blocks(content, BRIDGE_MARKER_BEGIN@, BRIDGE_MARKER_END@)))[i],
            ),
    ensures
        ({
            let once = appended(
                without_blocks(content, BRIDGE_MARKER_BEGIN@, BRIDGE_MARKER_END@),
                bashrc_block(socket, mode),
            );
            appended(without_blocks(once, BRIDGE_MARKER_BEGIN@, BRIDGE_MARKER_END@), bashrc_block(socket, mode))
                == once
        }),
{
    reveal_strlit("# >>> maze-ssh-bridge >>>");
    lemma_bashrc_block_marked(socket, mode);
    lemma_block_injection_idempotent(content, BRIDGE_MARKER_BEGIN@, BRIDGE_MARKER_END@, bashrc_block(socket, mode));
}

/// The fish block is a marked block when the socket path holds no newline.
proof fn lemma_fish_block_marked(socket: Seq<char>, mode: RelayMode)
    requires
        no_nl(socket),
    ensures
        is_marked_block(fish_block(socket, mode), BRIDGE_MARKER_BEGIN@, BRIDGE_MARKER_END@),
{
    reveal_strlit("# >>> maze-ssh-bridge >>>");
    reveal_strlit("# <<< maze-ssh-bridge <<<");
    let bm = BRIDGE_MARKER_BEGIN@;
    let em = BRIDGE_MARKER_END@;
    lemma_trim_visible_ends(bm);
    lemma_trim_visible_ends(em);
    let e0 = Seq::<Seq<char>>::empty().push(bm);
    lemma_join_push(Seq::<Seq<char>>::empty(), bm);
    assert(join_lines(Seq::<Seq<char>>::empty()) == Seq::<char>::empty());
    match mode {
        RelayMode::Systemd => {
            reveal_strlit("set -x SSH_AUTH_SOCK \"");
            reveal_strlit("\"");
            reveal_strlit("\nset -x SSH_AUTH_SOCK \"");
            reveal_strlit("\"\n");
            reveal_strlit("\n");
            let a = "set -x SSH_AUTH_SOCK \""@ + socket + "\""@;
            lemma_quoted_no_nl("set -x SSH_AUTH_SOCK \""@, socket, "\""@);
            lemma_starts_visible(a, em);
            let k = e0.push(a).push(em);
            lemma_join_push(e0, a);
            lemma_join_push(e0.push(a), em);
            assert(join_lines(k) =~= fish_block(socket, mode));
            assert(k[0] == bm && k[1] == a && k[2] == em);
            lemma_joined_block_is_marked(k, bm, em);
        },
        RelayMode::Daemon => {
            reveal_strlit("set -x MAZE_SSH_SOCKET \"");
            reveal_strlit("\"");
            reveal_strlit("if not test -S $MAZE_SSH_SOCKET");
            reveal_strlit("    nohup \"$HOME\"/.local/bin/maze-ssh-relay.sh &>/dev/null &");
            reveal_strlit("    sleep 0.5");
            reveal_strlit("end");
            reveal_strlit("set -x SSH_AUTH_SOCK $MAZE_SSH_SOCKET");
            reveal_strlit("\nset -x MAZE_SSH_SOCKET \"");
            reveal_strlit(
                "\"\nif not test -S $MAZE_SSH_SOCKET\n    nohup \"$HOME\"/.local/bin/maze-ssh-relay.sh &>/dev/null &\n    sleep 0.5\nend\nset -x SSH_AUTH_SOCK $MAZE_SSH_SOCKET\n",
            );
            reveal_strlit("\n");
            let l1 = "set -x MAZE_SSH_SOCKET \""@ + socket + "\""@;
            let l2 = "if not test -S $MAZE_SSH_SOCKET"@;
            let l3 = "    nohup \"$HOME\"/.local/bin/maze-ssh-relay.sh &>/dev/null &"@;
            let l4 = "    sleep 0.5"@;
            let l5 = "end"@;
            let l6 = "set -x SSH_AUTH_SOCK $MAZE_SSH_SOCKET"@;
            lemma_quoted_no_nl("set -x MAZE_SSH_SOCKET \""@, socket, "\""@);
            lemma_starts_visible(l1, em);
            lemma_starts_visible(l2, em);
            lemma_without_char(l3, em);
            lemma_without_char(l4, em);
            lemma_starts_visible(l5, em);
            lemma_starts_visible(l6, em);
            let k1 = e0.push(l1);
            let k2 = k1.push(l2);
            let k3 = k2.push(l3);
            let k4 = k3.push(l4);
            let k5 = k4.push(l5);
            let k6 = k5.push(l6);
            let k = k6.push(em);
            lemma_join_push(e0, l1);
            lemma_join_push(k1, l2);
            lemma_join_push(k2, l3);
            lemma_join_push(k3, l4);
            lemma_join_push(k4, l5);
            lemma_join_push(k5, l6);
            lemma_join_push(k6, em);
            assert(join_lines(k) =~= fish_block(socket, mode));
            assert(k[0] == bm && k[1] == l1 && k[2] == l2 && k[3] == l3 && k[4] == l4 && k[5] == l5 && k[6] == l6
                && k[7] == em);
            lemma_joined_block_is_marked(k, bm, em);
        },
    }
}

/// The same for fish shell profiles, which get the fish block.
pub proof fn lemma_fish_setup_idempotent(content: Seq<char>, socket: Seq<char>, mode: RelayMode)
    requires
        no_nl(socket),
        forall|i: int| 0 <= i < kept_lines(lines(content), BRIDGE_MARKER_BEGIN@, BRIDGE_MARKER_END@).len() ==> trim(
            #[trigger] kept_lines(lines(content), BRIDGE_MARKER_BEGIN@, BRIDGE_MARKER_END@)[i],
        ) != BRIDGE_MARKER_BEGIN@,
        forall|i: int|
            0 <= i < split_nl(trim_end(without_blocks(content, BRIDGE_MARKER_BEGIN@, BRIDGE_MARKER_END@))).len()
                ==> !ends_cr(
                #[trigger] split_nl(trim_end(without_blocks(content, BRIDGE_MARKER_BEGIN@, BRIDGE_MARKER_END@)))[i],
            ),
    ensures
        ({
            let once = appended(
                without_blocks(content, BRIDGE_MARKER_BEGIN@, BRIDGE_MARKER_END@),
                fish_block(socket, mode),
            );
            appended(without_blocks(once, BRIDGE_MARKER_BEGIN@, BRIDGE_MARKER_END@), fish_block(socket, mode))
                == once
        }),
{
    reveal_strlit("# >>> maze-ssh-bridge >>>");
    lemma_fish_block_marked(socket, mode);
    lemma_block_injection_idempotent(content, BRIDGE_MARKER_BEGIN@, BRIDGE_MARKER_END@, fish_block(socket, mode));
}

} // verus!
