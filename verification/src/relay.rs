//! Running the relay in a WSL distro: the commands that start, stop, refresh and
//! remove it, what their results mean, the checks before setting it up, and the
//! distros that a bulk set-up visits. Running the commands is the caller's.
use vstd::prelude::*;

use crate::bridge::{
    find_listed, generate_relay_script, mode_of, provider_of, relay_script, resolve_provider,
    resolve_relay_mode, resolve_socket_path, socket_of, BridgeConfig, BridgeOverview,
    DistroBridgeConfig, DistroBridgeStatus, RelayMode, WslDistro, RELAY_SCRIPT_PATH,
    SYSTEMD_UNIT_PATH,
};
use crate::bridge_config::strings;
use crate::error::MazeSshError;
use crate::health::{check_provider, eq_ignore_ascii_case, eq_ignore_ascii_case_str};
use crate::provider::{
    binary_filename, provider_name, provider_needs_socat, provider_relay, BridgeProvider,
    ProviderModel, ProviderStatus, RelayBinaryStatus,
};
use crate::text::{chars_of, decimal, push_decimal, string_of, trim, trim_chars};
use crate::wsl::CmdOutput;

verus! {

/// The commands as sequences of argument texts.
pub open spec fn cmd_views(v: Seq<Vec<String>>) -> Seq<Seq<Seq<char>>> {
    v.map_values(|c: Vec<String>| c@.map_values(|s: String| s@))
}

fn push_cmd(cmds: &mut Vec<Vec<String>>, parts: Vec<&str>)
    ensures
        cmd_views(final(cmds)@) == cmd_views(old(cmds)@).push(parts@.map_values(|s: &str| s@)),
{
    let c = strings(parts);
    cmds.push(c);
    assert(cmd_views(cmds@) =~= cmd_views(old(cmds)@).push(parts@.map_values(|s: &str| s@)));
}

fn push_cmd_owned(cmds: &mut Vec<Vec<String>>, c: Vec<String>)
    ensures
        cmd_views(final(cmds)@) == cmd_views(old(cmds)@).push(c@.map_values(|s: String| s@)),
{
    let ghost cv = c@.map_values(|s: String| s@);
    cmds.push(c);
    assert(cmd_views(cmds@) =~= cmd_views(old(cmds)@).push(cv));
}

pub open spec fn kill_daemon() -> Seq<Seq<char>> {
    seq!["bash"@, "-c"@, "pkill -f maze-ssh-relay.sh || true"@]
}

pub open spec fn launch_daemon() -> Seq<Seq<char>> {
    seq!["bash"@, "-c"@, "nohup \"$HOME\"/.local/bin/maze-ssh-relay.sh &>/dev/null &"@]
}

pub open spec fn systemctl(action: Seq<char>) -> Seq<Seq<char>> {
    seq!["systemctl"@, "--user"@, action, "maze-ssh-relay.service"@]
}

/// The commands that start the relay; the last one's result decides.
pub open spec fn start_commands(mode: RelayMode) -> Seq<Seq<Seq<char>>> {
    match mode {
        RelayMode::Systemd => seq![systemctl("start"@)],
        RelayMode::Daemon => seq![kill_daemon(), launch_daemon()],
    }
}

pub fn start_relay_commands(relay_mode: RelayMode) -> (r: Vec<Vec<String>>)
    ensures
        cmd_views(r@) == start_commands(relay_mode),
{
    let mut r: Vec<Vec<String>> = Vec::new();
    match relay_mode {
        RelayMode::Systemd => {
            push_cmd(&mut r, vec!["systemctl", "--user", "start", "maze-ssh-relay.service"]);
        },
        RelayMode::Daemon => {
            push_cmd(&mut r, vec!["bash", "-c", "pkill -f maze-ssh-relay.sh || true"]);
            push_cmd(&mut r, vec!["bash", "-c", "nohup \"$HOME\"/.local/bin/maze-ssh-relay.sh &>/dev/null &"]);
        },
    }
    assert(cmd_views(r@) =~~= start_commands(relay_mode));
    r
}

fn bridge_error(prefix: &str, stderr: &str) -> (r: MazeSshError)
    ensures
        r matches MazeSshError::BridgeError(m) && m@ == prefix@ + trim(stderr@),
{
    let mut m = prefix.to_string();
    let t = string_of(trim_chars(chars_of(stderr).as_slice()).as_slice());
    m.append(t.as_str());
    MazeSshError::BridgeError(m)
}

/// What starting the relay gave, from the result of its last command.
pub fn start_relay(relay_mode: RelayMode, last: &CmdOutput) -> (r: Result<(), MazeSshError>)
    ensures
        last.success ==> r is Ok,
        !last.success ==> (r matches Err(MazeSshError::BridgeError(m)) && m@ == (match relay_mode {
            RelayMode::Systemd => "Failed to start relay: "@,
            RelayMode::Daemon => "Failed to start relay daemon: "@,
        }) + trim(last.stderr@)),
{
    if last.success {
        return Ok(());
    }
    match relay_mode {
        RelayMode::Systemd => Err(bridge_error("Failed to start relay: ", last.stderr.as_str())),
        RelayMode::Daemon => Err(bridge_error("Failed to start relay daemon: ", last.stderr.as_str())),
    }
}

/// The commands that stop the relay.
pub open spec fn stop_commands(mode: RelayMode) -> Seq<Seq<Seq<char>>> {
    match mode {
        RelayMode::Systemd => seq![systemctl("stop"@)],
        RelayMode::Daemon => seq![kill_daemon()],
    }
}

pub fn stop_relay_commands(relay_mode: RelayMode) -> (r: Vec<Vec<String>>)
    ensures
        cmd_views(r@) == stop_commands(relay_mode),
{
    let mut r: Vec<Vec<String>> = Vec::new();
    match relay_mode {
        RelayMode::Systemd => {
            push_cmd(&mut r, vec!["systemctl", "--user", "stop", "maze-ssh-relay.service"]);
        },
        RelayMode::Daemon => {
            push_cmd(&mut r, vec!["bash", "-c", "pkill -f maze-ssh-relay.sh || true"]);
        },
    }
    assert(cmd_views(r@) =~~= stop_commands(relay_mode));
    r
}

/// What stopping the relay gave: under systemd a failed stop is an error; the
/// daemon's kill is not checked.
pub fn stop_relay(relay_mode: RelayMode, last: &CmdOutput) -> (r: Result<(), MazeSshError>)
    ensures
        relay_mode == RelayMode::Daemon || last.success ==> r is Ok,
        relay_mode == RelayMode::Systemd && !last.success ==> (r matches Err(MazeSshError::BridgeError(m))
            && m@ == "Failed to stop relay: "@ + trim(last.stderr@)),
{
    match relay_mode {
        RelayMode::Systemd => if last.success {
            Ok(())
        } else {
            Err(bridge_error("Failed to stop relay: ", last.stderr.as_str()))
        },
        RelayMode::Daemon => Ok(()),
    }
}

/// The commands that remove the relay from a distro (their results are not
/// checked); the shell blocks are removed afterwards.
pub open spec fn teardown_commands(mode: RelayMode) -> Seq<Seq<Seq<char>>> {
    let first = match mode {
        RelayMode::Systemd => seq![systemctl("disable"@).insert(3, "--now"@), seq!["systemctl"@, "--user"@, "daemon-reload"@]],
        RelayMode::Daemon => seq![kill_daemon()],
    };
    first.push(seq!["rm"@, "-f"@, "~/"@ + RELAY_SCRIPT_PATH@, "~/"@ + SYSTEMD_UNIT_PATH@])
}

fn home_path(p: &str) -> (r: String)
    ensures
        r@ == "~/"@ + p@,
{
    let mut r = "~/".to_string();
    r.append(p);
    r
}

pub fn teardown_distro(relay_mode: RelayMode) -> (r: Vec<Vec<String>>)
    ensures
        cmd_views(r@) == teardown_commands(relay_mode),
{
    let mut r: Vec<Vec<String>> = Vec::new();
    match relay_mode {
        RelayMode::Systemd => {
            push_cmd(&mut r, vec!["systemctl", "--user", "disable", "--now", "maze-ssh-relay.service"]);
            push_cmd(&mut r, vec!["systemctl", "--user", "daemon-reload"]);
        },
        RelayMode::Daemon => {
            push_cmd(&mut r, vec!["bash", "-c", "pkill -f maze-ssh-relay.sh || true"]);
        },
    }
    let mut rm: Vec<String> = Vec::new();
    rm.push("rm".to_string());
    rm.push("-f".to_string());
    rm.push(home_path(RELAY_SCRIPT_PATH));
    rm.push(home_path(SYSTEMD_UNIT_PATH));
    let ghost rv = seq!["rm"@, "-f"@, "~/"@ + RELAY_SCRIPT_PATH@, "~/"@ + SYSTEMD_UNIT_PATH@];
    assert(rm@.map_values(|s: String| s@) =~= rv);
    push_cmd_owned(&mut r, rm);
    assert(cmd_views(r@) =~~= teardown_commands(relay_mode));
    r
}

/// What refreshing the relay writes and runs: the relay script for the distro's
/// current settings (written to `~/.local/bin/maze-ssh-relay.sh`), then the
/// commands, each of which must run.
pub open spec fn refresh_commands(mode: RelayMode) -> Seq<Seq<Seq<char>>> {
    let chmod = seq!["chmod"@, "+x"@, "~/"@ + RELAY_SCRIPT_PATH@];
    match mode {
        RelayMode::Systemd => seq![chmod, seq!["systemctl"@, "--user"@, "daemon-reload"@], systemctl("restart"@)],
        RelayMode::Daemon => seq![chmod, seq!["pkill"@, "-f"@, "maze-ssh-relay.sh"@], launch_daemon()],
    }
}

/// Starting and stopping the relay act on the relay itself: under systemd they start
/// and stop the `maze-ssh-relay.service` user unit; under the daemon, starting first
/// kills any running relay and then launches it in the background, and stopping
/// kills it. Removing the relay stops it first and deletes its script and unit.
pub proof fn lemma_start_stop_act_on_the_relay(mode: RelayMode)
    ensures
        mode is Systemd ==> start_commands(mode) == seq![
            seq!["systemctl"@, "--user"@, "start"@, "maze-ssh-relay.service"@],
        ],
        mode is Systemd ==> stop_commands(mode) == seq![
            seq!["systemctl"@, "--user"@, "stop"@, "maze-ssh-relay.service"@],
        ],
        mode is Systemd ==> teardown_commands(mode)[0] == seq![
            "systemctl"@,
            "--user"@,
            "disable"@,
            "--now"@,
            "maze-ssh-relay.service"@,
        ],
        mode is Daemon ==> start_commands(mode) == seq![
            seq!["bash"@, "-c"@, "pkill -f maze-ssh-relay.sh || true"@],
            seq!["bash"@, "-c"@, "nohup \"$HOME\"/.local/bin/maze-ssh-relay.sh &>/dev/null &"@],
        ],
        mode is Daemon ==> stop_commands(mode) == seq![start_commands(mode)[0]],
        mode is Daemon ==> teardown_commands(mode)[0] == stop_commands(mode)[0],
        teardown_commands(mode).last() == seq!["rm"@, "-f"@, "~/"@ + RELAY_SCRIPT_PATH@, "~/"@ + SYSTEMD_UNIT_PATH@],
{
    assert(systemctl("disable"@).insert(3, "--now"@) =~= seq![
        "systemctl"@,
        "--user"@,
        "disable"@,
        "--now"@,
        "maze-ssh-relay.service"@,
    ]);
}

/// A refresh leaves the relay running the new script: it first makes the script
/// executable, and its last command restarts the relay service under systemd, or
/// launches the relay just as starting it does under the daemon, after stopping the
/// old one.
pub proof fn lemma_refresh_ends_running(mode: RelayMode)
    ensures
        refresh_commands(mode).len() == 3,
        refresh_commands(mode)[0] == seq!["chmod"@, "+x"@, "~/"@ + RELAY_SCRIPT_PATH@],
        mode is Systemd ==> refresh_commands(mode).last() == seq![
            "systemctl"@,
            "--user"@,
            "restart"@,
            "maze-ssh-relay.service"@,
        ],
        mode is Daemon ==> refresh_commands(mode).last() == start_commands(mode).last()
            && refresh_commands(mode)[1] == seq!["pkill"@, "-f"@, "maze-ssh-relay.sh"@],
{
}

/// The relay script and commands of a refresh, for the relay binary at the WSL
/// path `relay_wsl`. Under the daemon the kill's result is ignored.
pub fn refresh_relay_script(distro: &str, config: &BridgeConfig, relay_wsl: &str) -> (r: (String, Vec<Vec<String>>))
    ensures
        r.0@ == relay_script(provider_of(*config, distro@), relay_wsl@, socket_of(*config, distro@)),
        cmd_views(r.1@) == refresh_commands(mode_of(*config, distro@)),
{
    let provider = resolve_provider(config, distro);
    let socket = resolve_socket_path(config, distro);
    let mode = resolve_relay_mode(config, distro);
    let script = generate_relay_script(&provider, relay_wsl, socket.as_str());
    let mut r: Vec<Vec<String>> = Vec::new();
    let mut chmod: Vec<String> = Vec::new();
    chmod.push("chmod".to_string());
    chmod.push("+x".to_string());
    chmod.push(home_path(RELAY_SCRIPT_PATH));
    assert(chmod@.map_values(|s: String| s@) =~= seq!["chmod"@, "+x"@, "~/"@ + RELAY_SCRIPT_PATH@]);
    push_cmd_owned(&mut r, chmod);
    match mode {
        RelayMode::Systemd => {
            push_cmd(&mut r, vec!["systemctl", "--user", "daemon-reload"]);
            push_cmd(&mut r, vec!["systemctl", "--user", "restart", "maze-ssh-relay.service"]);
        },
        RelayMode::Daemon => {
            push_cmd(&mut r, vec!["pkill", "-f", "maze-ssh-relay.sh"]);
            push_cmd(&mut r, vec!["bash", "-c", "nohup \"$HOME\"/.local/bin/maze-ssh-relay.sh &>/dev/null &"]);
        },
    }
    assert(cmd_views(r@) =~~= refresh_commands(mode));
    (script, r)
}

// ── Setting up the bridge ──

/// What the set-up of a distro needs to know before it starts.
#[derive(Debug)]
pub struct BootstrapProbes {
    /// Whether the provider's relay binary is installed
    pub binary_installed: bool,
    /// Where the relay binary belongs, as shown to the user
    pub binary_path: String,
    /// Whether the provider answers on Windows
    pub provider_status: ProviderStatus,
    /// The WSL distros as listed, or why they could not be listed
    pub distros: Result<Vec<WslDistro>, MazeSshError>,
    /// Whether socat is installed in the distro
    pub has_socat: bool,
    /// Whether systemd runs in the distro
    pub has_systemd: bool,
}

/// How a set-up check ends.
pub enum BootstrapVerdict {
    /// All checks pass; whether the distro must be woken first (it is not running)
    Ready(bool),
    /// Refused with this bridge error message
    Refused(Seq<char>),
    /// The distros could not be listed
    ListingFailed,
}

/// The set-up checks, in order: the relay binary must be installed, the provider
/// available, the distro listed, WSL2, with socat when the provider needs it and
/// with systemd in systemd mode.
pub open spec fn bootstrap_verdict(distro: Seq<char>, config: BridgeConfig, p: BootstrapProbes) -> BootstrapVerdict {
    let provider = provider_of(config, distro);
    if !p.binary_installed {
        BootstrapVerdict::Refused(
            binary_filename(provider_relay(provider)) + " not found at "@ + p.binary_path@ + ". Place the binary there."@,
        )
    } else if !p.provider_status.available {
        BootstrapVerdict::Refused(
            provider_name(provider) + " agent is not available: "@ + match p.provider_status.error {
                Some(e) => e@,
                None => Seq::empty(),
            },
        )
    } else {
        match p.distros {
            Err(_) => BootstrapVerdict::ListingFailed,
            Ok(v) => match find_listed(v@, distro) {
                None => BootstrapVerdict::Refused("WSL distro '"@ + distro + "' not found"@),
                Some(d) => if d.version != 2 {
                    BootstrapVerdict::Refused(
                        "Only WSL2 distros are supported. '"@ + distro + "' is WSL"@ + decimal(d.version as nat)
                            + ". Convert with: wsl --set-version "@ + distro + " 2"@,
                    )
                } else if provider_needs_socat(provider) && !p.has_socat {
                    BootstrapVerdict::Refused("socat is not installed in this distro. Install with: sudo apt install socat"@)
                } else if mode_of(config, distro) == RelayMode::Systemd && !p.has_systemd {
                    BootstrapVerdict::Refused(
                        "systemd is required but not available. Add [boot]\\nsystemd=true to /etc/wsl.conf and restart WSL."@,
                    )
                } else {
                    BootstrapVerdict::Ready(d.state@ != "Running"@)
                },
            },
        }
    }
}

fn listed_index(ds: &Vec<WslDistro>, name: &str) -> (r: Option<usize>)
    ensures
        match r {
            Some(i) => i < ds@.len() && find_listed(ds@, name@) == Some(ds@[i as int]),
            None => find_listed(ds@, name@) is None,
        },
{
    let n = name.to_string();
    let mut i: usize = 0;
    assert(ds@.skip(0) == ds@);
    while i < ds.len()
        invariant
            i <= ds@.len(),
            n@ == name@,
            find_listed(ds@, name@) == find_listed(ds@.skip(i as int), name@),
        decreases ds@.len() - i,
    {
        assert(ds@.skip(i as int)[0] == ds@[i as int]);
        assert(ds@.skip(i as int).drop_first() == ds@.skip(i as int + 1));
        if ds[i].name == n {
            return Some(i);
        }
        i = i + 1;
    }
    None
}

fn cat3(a: &str, b: &str, c: &str) -> (r: String)
    ensures
        r@ == a@ + b@ + c@,
{
    let mut r = a.to_string();
    r.append(b);
    r.append(c);
    r
}

/// The checks before setting up the bridge in a distro. `Ok(wake)` when they
/// pass, `wake` telling whether the distro must be woken first.
pub fn bootstrap_distro(distro: &str, config: &BridgeConfig, probes: BootstrapProbes) -> (r: Result<bool, MazeSshError>)
    ensures
        match bootstrap_verdict(distro@, *config, probes) {
            BootstrapVerdict::Ready(wake) => r == Ok::<bool, MazeSshError>(wake),
            BootstrapVerdict::Refused(m) => r matches Err(MazeSshError::BridgeError(x)) && x@ == m,
            BootstrapVerdict::ListingFailed => probes.distros matches Err(e) && r == Err::<bool, MazeSshError>(e),
        },
{
    let provider = resolve_provider(config, distro);
    let binary = provider.relay_binary();
    if !probes.binary_installed {
        let mut m = cat3(binary.filename(), " not found at ", probes.binary_path.as_str());
        m.append(". Place the binary there.");
        return Err(MazeSshError::BridgeError(m));
    }
    if !probes.provider_status.available {
        let mut m = provider.display_name().to_string();
        m.append(" agent is not available: ");
        match &probes.provider_status.error {
            Some(e) => m.append(e.as_str()),
            None => {},
        }
        return Err(MazeSshError::BridgeError(m));
    }
    let listed = match probes.distros {
        Err(e) => return Err(e),
        Ok(v) => v,
    };
    let k = match listed_index(&listed, distro) {
        None => return Err(MazeSshError::BridgeError(cat3("WSL distro '", distro, "' not found"))),
        Some(k) => k,
    };
    let d = &listed[k];
    if d.version != 2 {
        let mut m = cat3("Only WSL2 distros are supported. '", distro, "' is WSL");
        push_decimal(&mut m, d.version as u64);
        m.append(". Convert with: wsl --set-version ");
        m.append(distro);
        m.append(" 2");
        return Err(MazeSshError::BridgeError(m));
    }
    if provider.needs_socat() && !probes.has_socat {
        return Err(MazeSshError::BridgeError(
            "socat is not installed in this distro. Install with: sudo apt install socat".to_string(),
        ));
    }
    let mode = resolve_relay_mode(config, distro);
    if mode == RelayMode::Systemd && !probes.has_systemd {
        return Err(MazeSshError::BridgeError(
            "systemd is required but not available. Add [boot]\\nsystemd=true to /etc/wsl.conf and restart WSL.".to_string(),
        ));
    }
    let running = chars_of("Running");
    let st = chars_of(d.state.as_str());
    Ok(!crate::text::chars_eq(st.as_slice(), running.as_slice()))
}

/// The commands of a set-up before the relay script (and, under systemd, the
/// unit) are written.
pub open spec fn bootstrap_prepare_commands(mode: RelayMode) -> Seq<Seq<Seq<char>>> {
    match mode {
        RelayMode::Systemd => seq![seq!["mkdir"@, "-p"@, "~/.local/bin"@, "~/.config/systemd/user"@]],
        RelayMode::Daemon => seq![seq!["mkdir"@, "-p"@, "~/.local/bin"@]],
    }
}

/// The commands after the files are written; under systemd the result of the last
/// one (enabling and starting the service) decides, under the daemon none is
/// checked.
pub open spec fn bootstrap_start_commands(mode: RelayMode) -> Seq<Seq<Seq<char>>> {
    let chmod = seq!["chmod"@, "+x"@, "~/"@ + RELAY_SCRIPT_PATH@];
    match mode {
        RelayMode::Systemd => seq![
            chmod,
            seq!["systemctl"@, "--user"@, "daemon-reload"@],
            seq!["systemctl"@, "--user"@, "enable"@, "--now"@, "maze-ssh-relay.service"@],
        ],
        RelayMode::Daemon => seq![
            chmod,
            seq!["bash"@, "-c"@, "nohup \"$HOME\"/.local/bin/maze-ssh-relay.sh &>/dev/null & sleep 0.5"@],
        ],
    }
}

/// The set-up's commands: those before and those after writing the files.
pub fn bootstrap_commands(relay_mode: RelayMode) -> (r: (Vec<Vec<String>>, Vec<Vec<String>>))
    ensures
        cmd_views(r.0@) == bootstrap_prepare_commands(relay_mode),
        cmd_views(r.1@) == bootstrap_start_commands(relay_mode),
{
    let mut a: Vec<Vec<String>> = Vec::new();
    let mut b: Vec<Vec<String>> = Vec::new();
    let mut chmod: Vec<String> = Vec::new();
    chmod.push("chmod".to_string());
    chmod.push("+x".to_string());
    chmod.push(home_path(RELAY_SCRIPT_PATH));
    assert(chmod@.map_values(|s: String| s@) =~= seq!["chmod"@, "+x"@, "~/"@ + RELAY_SCRIPT_PATH@]);
    match relay_mode {
        RelayMode::Systemd => {
            push_cmd(&mut a, vec!["mkdir", "-p", "~/.local/bin", "~/.config/systemd/user"]);
            push_cmd_owned(&mut b, chmod);
            push_cmd(&mut b, vec!["systemctl", "--user", "daemon-reload"]);
            push_cmd(&mut b, vec!["systemctl", "--user", "enable", "--now", "maze-ssh-relay.service"]);
        },
        RelayMode::Daemon => {
            push_cmd(&mut a, vec!["mkdir", "-p", "~/.local/bin"]);
            push_cmd_owned(&mut b, chmod);
            push_cmd(&mut b, vec!["bash", "-c", "nohup \"$HOME\"/.local/bin/maze-ssh-relay.sh &>/dev/null & sleep 0.5"]);
        },
    }
    assert(cmd_views(a@) =~~= bootstrap_prepare_commands(relay_mode));
    assert(cmd_views(b@) =~~= bootstrap_start_commands(relay_mode));
    (a, b)
}

/// What enabling and starting the service gave, under systemd.
pub fn bootstrap_enable_result(out: &CmdOutput) -> (r: Result<(), MazeSshError>)
    ensures
        out.success ==> r is Ok,
        !out.success ==> (r matches Err(MazeSshError::BridgeError(m)) && m@ == "Failed to enable/start service: "@ + trim(out.stderr@)),
{
    if out.success {
        Ok(())
    } else {
        Err(bridge_error("Failed to enable/start service: ", out.stderr.as_str()))
    }
}

// ── Setting up every distro ──

/// The outcome of setting up one distro in a bulk set-up.
#[derive(Debug, Clone)]
pub struct BootstrapAllResult {
    pub distro: String,
    pub success: bool,
    pub error: Option<String>,
}

/// The distros a bulk set-up visits: WSL2 ones whose state reads "Running"
/// (ignoring ASCII case), in listing order.
pub open spec fn bootstrap_candidate_names(ds: Seq<WslDistro>) -> Seq<Seq<char>>
    decreases ds.len(),
{
    if ds.len() == 0 {
        Seq::empty()
    } else {
        let p = bootstrap_candidate_names(ds.drop_last());
        if ds.last().version == 2 && eq_ignore_ascii_case(ds.last().state@, "Running"@) {
            p.push(ds.last().name@)
        } else {
            p
        }
    }
}

pub fn bootstrap_candidates(listed: &Vec<WslDistro>) -> (r: Vec<String>)
    ensures
        r@.map_values(|s: String| s@) == bootstrap_candidate_names(listed@),
{
    let mut r: Vec<String> = Vec::new();
    let mut i: usize = 0;
    assert(listed@.take(0) =~= Seq::<WslDistro>::empty());
    assert(r@.map_values(|s: String| s@) =~= Seq::<Seq<char>>::empty());
    while i < listed.len()
        invariant
            i <= listed@.len(),
            r@.map_values(|s: String| s@) == bootstrap_candidate_names(listed@.take(i as int)),
        decreases listed@.len() - i,
    {
        assert(listed@.take(i + 1).drop_last() =~= listed@.take(i as int));
        assert(listed@.take(i + 1).last() == listed@[i as int]);
        let d = &listed[i];
        if d.version == 2 && eq_ignore_ascii_case_str(d.state.as_str(), "Running") {
            let ghost before = r@.map_values(|s: String| s@);
            r.push(d.name.clone());
            assert(r@.map_values(|s: String| s@) =~= before.push(d.name@));
        }
        i = i + 1;
    }
    assert(listed@.take(listed@.len() as int) =~= listed@);
    r
}

/// The entry of a bulk set-up for one distro.
pub fn bootstrap_all_result(distro: String, outcome: &Result<(), MazeSshError>) -> (r: BootstrapAllResult)
    ensures
        r.distro == distro,
        r.success == outcome is Ok,
        match outcome {
            Ok(()) => r.error is None,
            Err(e) => r.error matches Some(m) && m@ == crate::error::error_text(*e),
        },
{
    match outcome {
        Ok(()) => BootstrapAllResult { distro, success: true, error: None },
        Err(e) => BootstrapAllResult { distro, success: false, error: Some(e.message()) },
    }
}

// ── Overview ──

/// Whether the Windows OpenSSH agent runs, from its probe's outputs.
pub fn is_windows_agent_running(outputs: &[Option<String>]) -> (r: bool)
    ensures
        r == crate::health::answered(crate::health::probe_out(outputs@, 0), "Running"@),
{
    let st = check_provider(&BridgeProvider::WindowsOpenSsh, outputs);
    st.available
}

/// The bridge overview: the distros' statuses are shown only when WSL is
/// available.
pub fn get_bridge_overview(
    wsl_available: bool,
    npiperelay_installed: bool,
    windows_agent_running: bool,
    provider_statuses: Vec<ProviderStatus>,
    relay_binaries: Vec<RelayBinaryStatus>,
    distros: Vec<DistroBridgeStatus>,
) -> (r: BridgeOverview)
    ensures
        r.wsl_available == wsl_available,
        r.npiperelay_installed == npiperelay_installed,
        r.windows_agent_running == windows_agent_running,
        r.provider_statuses == provider_statuses,
        r.relay_binaries == relay_binaries,
        wsl_available ==> r.distros == distros,
        !wsl_available ==> r.distros@.len() == 0,
{
    let distros = if wsl_available {
        distros
    } else {
        Vec::new()
    };
    BridgeOverview {
        wsl_available,
        npiperelay_installed,
        windows_agent_running,
        provider_statuses,
        relay_binaries,
        distros,
    }
}

} // verus!
