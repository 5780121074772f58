//! Edits of the bridge configuration made from the UI, and the checks on what the
//! user may enter: socket paths and one-click diagnostic fixes.
use vstd::prelude::*;

use crate::bridge::{
    find_cfg, find_index, opt_view, BridgeConfig, DistroBridgeConfig, RelayMode, WslDistro,
};
use crate::error::MazeSshError;
use crate::provider::BridgeProvider;
use crate::text::{chars_of, starts_with, trim, trim_chars, string_of};

verus! {

/// The first entry for `name`, as an index.
pub open spec fn cfg_index(ds: Seq<DistroBridgeConfig>, name: Seq<char>) -> Option<int> {
    if exists|i: int| 0 <= i < ds.len() && (#[trigger] ds[i]).distro_name@ == name {
        Some(choose|i: int| 0 <= i < ds.len() && (#[trigger] ds[i]).distro_name@ == name && forall|j: int| 0 <= j < i ==> ds[j].distro_name@ != name)
    } else {
        None
    }
}

proof fn lemma_first_match(ds: Seq<DistroBridgeConfig>, name: Seq<char>, w: int)
    requires
        0 <= w < ds.len(),
        ds[w].distro_name@ == name,
    ensures
        exists|i: int| 0 <= i <= w && (#[trigger] ds[i]).distro_name@ == name
            && forall|j: int| 0 <= j < i ==> ds[j].distro_name@ != name,
    decreases w,
{
    if exists|j: int| 0 <= j < w && (#[trigger] ds[j]).distro_name@ == name {
        let j = choose|j: int| 0 <= j < w && (#[trigger] ds[j]).distro_name@ == name;
        lemma_first_match(ds, name, j);
    } else {
        assert(ds[w].distro_name@ == name);
    }
}

/// What `cfg_index` gives: the first entry of the distro, or `None` when there is
/// no entry for it.
pub proof fn lemma_cfg_index(ds: Seq<DistroBridgeConfig>, name: Seq<char>)
    ensures
        match cfg_index(ds, name) {
            Some(i) => 0 <= i < ds.len() && ds[i].distro_name@ == name
                && forall|j: int| 0 <= j < i ==> ds[j].distro_name@ != name,
            None => forall|j: int| 0 <= j < ds.len() ==> ds[j].distro_name@ != name,
        },
{
    if exists|i: int| 0 <= i < ds.len() && (#[trigger] ds[i]).distro_name@ == name {
        let w = choose|i: int| 0 <= i < ds.len() && (#[trigger] ds[i]).distro_name@ == name;
        lemma_first_match(ds, name, w);
    }
}

fn index_of(ds: &Vec<DistroBridgeConfig>, name: &str) -> (r: Option<usize>)
    ensures
        match r {
            Some(i) => i < ds@.len() && cfg_index(ds@, name@) == Some(i as int),
            None => cfg_index(ds@, name@) is None,
        },
{
    match find_index(ds, name) {
        Some(i) => {
            proof {
                let c = choose|c: int| 0 <= c < ds@.len() && (#[trigger] ds@[c]).distro_name@ == name@ && forall|j: int| 0 <= j < c ==> ds@[j].distro_name@ != name@;
                if c < i {
                } else if c > i {
                    assert(ds@[i as int].distro_name@ != name@);
                }
            }
            Some(i)
        },
        None => None,
    }
}

/// A new entry with the defaults: systemd relay, Windows OpenSSH, no forwarding,
/// auto-restart with at most 5 restarts.
pub open spec fn default_entry(d: DistroBridgeConfig, name: Seq<char>, enabled: bool) -> bool {
    &&& d.distro_name@ == name
    &&& d.enabled == enabled
    &&& d.socket_path is None
    &&& d.provider@ == crate::provider::ProviderModel::WindowsOpenSsh
    &&& !d.allow_agent_forwarding
    &&& d.relay_mode == RelayMode::Systemd
    &&& d.auto_restart
    &&& d.max_restarts == 5
}

fn new_entry(name: &str, enabled: bool) -> (d: DistroBridgeConfig)
    ensures
        default_entry(d, name@, enabled),
{
    DistroBridgeConfig {
        distro_name: name.to_string(),
        enabled,
        socket_path: None,
        provider: BridgeProvider::default(),
        allow_agent_forwarding: false,
        relay_mode: RelayMode::default(),
        auto_restart: true,
        max_restarts: 5,
    }
}

/// Enables or disables the bridge of a distro; enabling a distro without an entry
/// adds one with the defaults, disabling it changes nothing.
#[verifier::spinoff_prover]
#[verifier::rlimit(40)]
pub fn set_bridge_enabled(config: &mut BridgeConfig, distro: &str, enabled: bool)
    ensures
        match cfg_index(old(config).distros@, distro@) {
            Some(i) => final(config).distros@ == old(config).distros@.update(
                i,
                DistroBridgeConfig { enabled, ..old(config).distros@[i] },
            ),
            None => if enabled {
                final(config).distros@.len() == old(config).distros@.len() + 1
                    && final(config).distros@.drop_last() == old(config).distros@
                    && default_entry(final(config).distros@.last(), distro@, true)
            } else {
                final(config).distros@ == old(config).distros@
            },
        },
{
    match index_of(&config.distros, distro) {
        Some(i) => {
            let mut d = config.distros.remove(i);
            d.enabled = enabled;
            config.distros.insert(i, d);
            assert(config.distros@ =~= old(config).distros@.update(i as int, DistroBridgeConfig { enabled, ..old(config).distros@[i as int] }));
        },
        None => {
            if enabled {
                config.distros.push(new_entry(distro, true));
                assert(config.distros@.drop_last() =~= old(config).distros@);
            }
        },
    }
}

/// Changes the provider of a distro; refused while an enabled bridge with another
/// provider is installed (`relay_installed`, checked by the caller). A distro
/// without an entry gets a disabled one with that provider.
#[verifier::spinoff_prover]
#[verifier::rlimit(40)]
pub fn set_distro_provider(config: &mut BridgeConfig, distro: &str, provider: BridgeProvider, relay_installed: bool) -> (r: Result<(), MazeSshError>)
    ensures
        match cfg_index(old(config).distros@, distro@) {
            Some(i) => {
                let d = old(config).distros@[i];
                if d.provider@ != provider@ && d.enabled && relay_installed {
                    (r matches Err(MazeSshError::BridgeError(m)) && m@ == "Teardown the current bridge before switching providers"@)
                        && final(config).distros@ == old(config).distros@
                } else {
                    r is Ok && final(config).distros@ == old(config).distros@.update(
                        i,
                        DistroBridgeConfig { provider: provider, ..d },
                    )
                }
            },
            None => r is Ok && final(config).distros@.len() == old(config).distros@.len() + 1
                && final(config).distros@.drop_last() == old(config).distros@
                && final(config).distros@.last().distro_name@ == distro@
                && !final(config).distros@.last().enabled
                && final(config).distros@.last().provider@ == provider@,
        },
{
    match index_of(&config.distros, distro) {
        Some(i) => {
            if !config.distros[i].provider.same_as(&provider) && config.distros[i].enabled && relay_installed {
                return Err(MazeSshError::BridgeError("Teardown the current bridge before switching providers".to_string()));
            }
            let mut d = config.distros.remove(i);
            d.provider = provider;
            config.distros.insert(i, d);
            Ok(())
        },
        None => {
            let mut d = new_entry(distro, false);
            d.provider = provider;
            config.distros.push(d);
            assert(config.distros@.drop_last() =~= old(config).distros@);
            Ok(())
        },
    }
}

/// Turns agent forwarding on or off in a distro's entry (nothing without one).
#[verifier::spinoff_prover]
#[verifier::rlimit(40)]
pub fn set_agent_forwarding(config: &mut BridgeConfig, distro: &str, enabled: bool)
    ensures
        match cfg_index(old(config).distros@, distro@) {
            Some(i) => final(config).distros@ == old(config).distros@.update(
                i,
                DistroBridgeConfig { allow_agent_forwarding: enabled, ..old(config).distros@[i] },
            ),
            None => final(config).distros@ == old(config).distros@,
        },
{
    match index_of(&config.distros, distro) {
        Some(i) => {
            let mut d = config.distros.remove(i);
            d.allow_agent_forwarding = enabled;
            config.distros.insert(i, d);
            assert(config.distros@ =~= old(config).distros@.update(i as int, DistroBridgeConfig { allow_agent_forwarding: enabled, ..old(config).distros@[i as int] }));
        },
        None => {},
    }
}

/// Turns the relay watchdog on or off in a distro's entry (nothing without one).
#[verifier::spinoff_prover]
#[verifier::rlimit(40)]
pub fn set_auto_restart(config: &mut BridgeConfig, distro: &str, enabled: bool)
    ensures
        match cfg_index(old(config).distros@, distro@) {
            Some(i) => final(config).distros@ == old(config).distros@.update(
                i,
                DistroBridgeConfig { auto_restart: enabled, ..old(config).distros@[i] },
            ),
            None => final(config).distros@ == old(config).distros@,
        },
{
    match index_of(&config.distros, distro) {
        Some(i) => {
            let mut d = config.distros.remove(i);
            d.auto_restart = enabled;
            config.distros.insert(i, d);
            assert(config.distros@ =~= old(config).distros@.update(i as int, DistroBridgeConfig { auto_restart: enabled, ..old(config).distros@[i as int] }));
        },
        None => {},
    }
}

// ── Socket paths ──

pub open spec fn socket_path_char(c: char) -> bool {
    ('a' <= c <= 'z') || ('A' <= c <= 'Z') || ('0' <= c <= '9') || c == '/' || c == '-' || c == '_' || c == '.'
}

/// The pieces of `s` between `/` characters.
pub open spec fn slash_pieces(s: Seq<char>) -> Seq<Seq<char>>
    decreases s.len(),
{
    if s.len() == 0 {
        seq![Seq::<char>::empty()]
    } else {
        let p = slash_pieces(s.drop_last());
        if s.last() == '/' {
            p.push(Seq::<char>::empty())
        } else {
            p.update(p.len() - 1, p.last().push(s.last()))
        }
    }
}

/// Why a socket path is refused, or `None`: it must be 1 to 104 bytes, start
/// with `/tmp/` or `/run/user/`, use only `a-z A-Z 0-9 / - _ .`, and have no `.`
/// or `..` component.
pub open spec fn socket_path_error(p: Seq<char>) -> Option<Seq<char>> {
    if p.len() == 0 {
        Some("Socket path cannot be empty"@)
    } else if vstd::utf8::encode_utf8(p).len() as usize > 104 {
        Some("Socket path too long (max 104 characters)"@)
    } else if !starts_with(p, "/tmp/"@) && !starts_with(p, "/run/user/"@) {
        Some("Socket path must start with /tmp/ or /run/user/"@)
    } else if !(forall|i: int| 0 <= i < p.len() ==> socket_path_char(#[trigger] p[i])) {
        Some("Socket path contains invalid characters (allowed: a-z A-Z 0-9 / - _ .)"@)
    } else if exists|k: int| 0 <= k < slash_pieces(p).len() && (#[trigger] slash_pieces(p)[k] == seq!['.'] || slash_pieces(p)[k] == seq!['.', '.']) {
        Some("Socket path cannot contain '.' or '..' path components"@)
    } else {
        None
    }
}

proof fn lemma_slash_pieces_nonempty(s: Seq<char>)
    ensures
        slash_pieces(s).len() >= 1,
    decreases s.len(),
{
    if s.len() > 0 {
        lemma_slash_pieces_nonempty(s.drop_last());
    }
}

pub open spec fn dot_piece(p: Seq<char>) -> bool {
    p == seq!['.'] || p == seq!['.', '.']
}

fn is_dot_piece(v: &Vec<char>) -> (r: bool)
    ensures
        r == dot_piece(v@),
{
    let r = (v.len() == 1 && v[0] == '.') || (v.len() == 2 && v[0] == '.' && v[1] == '.');
    proof {
        if v@.len() == 1 && v@[0] == '.' {
            assert(v@ =~= seq!['.']);
        }
        if v@.len() == 2 && v@[0] == '.' && v@[1] == '.' {
            assert(v@ =~= seq!['.', '.']);
        }
    }
    r
}

fn has_dot_component(s: &[char]) -> (r: bool)
    ensures
        r == exists|k: int| 0 <= k < slash_pieces(s@).len() && dot_piece(#[trigger] slash_pieces(s@)[k]),
{
    let mut found = false;
    let mut cur: Vec<char> = Vec::new();
    let mut i: usize = 0;
    assert(s@.take(0) =~= Seq::<char>::empty());
    while i < s.len()
        invariant
            i <= s@.len(),
            slash_pieces(s@.take(i as int)).len() >= 1,
            cur@ == slash_pieces(s@.take(i as int)).last(),
            found == exists|k: int| 0 <= k < slash_pieces(s@.take(i as int)).len() - 1 && dot_piece(#[trigger] slash_pieces(s@.take(i as int))[k]),
        decreases s@.len() - i,
    {
        let ghost prev = s@.take(i as int);
        let ghost p = slash_pieces(prev);
        assert(s@.take(i + 1).drop_last() =~= prev);
        assert(s@.take(i + 1).last() == s@[i as int]);
        proof {
            lemma_slash_pieces_nonempty(prev);
        }
        if s[i] == '/' {
            let d = is_dot_piece(&cur);
            proof {
                let q = p.push(Seq::<char>::empty());
                assert(slash_pieces(s@.take(i + 1)) == q);
                assert forall|k: int| 0 <= k < q.len() - 1 implies #[trigger] q[k] == p[k] by {}
                if found {
                    let k = choose|k: int| 0 <= k < p.len() - 1 && dot_piece(#[trigger] p[k]);
                    assert(dot_piece(q[k]));
                }
                if d {
                    assert(dot_piece(q[p.len() - 1]));
                }
            }
            found = found || d;
            cur = Vec::new();
        } else {
            cur.push(s[i]);
            proof {
                let q = p.update(p.len() - 1, p.last().push(s@[i as int]));
                assert(slash_pieces(s@.take(i + 1)) == q);
                assert forall|k: int| 0 <= k < q.len() - 1 implies #[trigger] q[k] == p[k] by {}
                if found {
                    let k = choose|k: int| 0 <= k < p.len() - 1 && dot_piece(#[trigger] p[k]);
                    assert(dot_piece(q[k]));
                }
            }
        }
        i = i + 1;
    }
    assert(s@.take(s@.len() as int) =~= s@);
    let d = is_dot_piece(&cur);
    proof {
        let p = slash_pieces(s@);
        if found {
            let k = choose|k: int| 0 <= k < p.len() - 1 && dot_piece(#[trigger] p[k]);
            assert(dot_piece(p[k]));
        }
        if d {
            assert(dot_piece(p[p.len() - 1]));
        }
    }
    found || d
}

fn bridge_err(m: &str) -> (r: Result<(), MazeSshError>)
    ensures
        r matches Err(MazeSshError::BridgeError(x)) && x@ == m@,
{
    Err(MazeSshError::BridgeError(m.to_string()))
}

pub open spec fn check_result(e: Option<Seq<char>>, r: Result<(), MazeSshError>) -> bool {
    match r {
        Ok(()) => e is None,
        Err(err) => err matches MazeSshError::BridgeError(m) && e == Some(m@),
    }
}

/// Checks a socket path the user entered.
pub fn validate_socket_path(path: &str) -> (r: Result<(), MazeSshError>)
    ensures
        check_result(socket_path_error(path@), r),
{
    let c = chars_of(path);
    if c.len() == 0 {
        return bridge_err("Socket path cannot be empty");
    }
    if path.len() > 104 {
        return bridge_err("Socket path too long (max 104 characters)");
    }
    let tmp = chars_of("/tmp/");
    let run = chars_of("/run/user/");
    if !crate::text::starts_with_chars(c.as_slice(), tmp.as_slice()) && !crate::text::starts_with_chars(c.as_slice(), run.as_slice()) {
        return bridge_err("Socket path must start with /tmp/ or /run/user/");
    }
    let mut i: usize = 0;
    while i < c.len()
        invariant
            i <= c@.len(),
            c@ == path@,
            c@.len() > 0,
            !(vstd::utf8::encode_utf8(path@).len() as usize > 104),
            starts_with(path@, "/tmp/"@) || starts_with(path@, "/run/user/"@),
            forall|k: int| 0 <= k < i ==> socket_path_char(#[trigger] c@[k]),
        decreases c@.len() - i,
    {
        let ch = c[i];
        if !(('a' <= ch && ch <= 'z') || ('A' <= ch && ch <= 'Z') || ('0' <= ch && ch <= '9') || ch == '/' || ch == '-' || ch == '_' || ch == '.') {
            let r = bridge_err("Socket path contains invalid characters (allowed: a-z A-Z 0-9 / - _ .)");
            assert(!socket_path_char(path@[i as int]));
            return r;
        }
        i = i + 1;
    }
    if has_dot_component(c.as_slice()) {
        let r = bridge_err("Socket path cannot contain '.' or '..' path components");
        proof {
            let k = choose|k: int| 0 <= k < slash_pieces(path@).len() && dot_piece(#[trigger] slash_pieces(path@)[k]);
            assert(slash_pieces(path@)[k] == seq!['.'] || slash_pieces(path@)[k] == seq!['.', '.']);
        }
        return r;
    }
    proof {
        assert forall|k: int| 0 <= k < slash_pieces(path@).len() implies !(#[trigger] slash_pieces(path@)[k] == seq!['.'] || slash_pieces(path@)[k] == seq!['.', '.']) by {
            assert(!dot_piece(slash_pieces(path@)[k]));
        }
    }
    Ok(())
}

/// Sets a distro's socket path after checking it; a distro without an entry gets
/// a disabled one with that path.
pub fn set_distro_socket_path(config: &mut BridgeConfig, distro: &str, socket_path: String) -> (r: Result<(), MazeSshError>)
    ensures
        socket_path_error(socket_path@) is Some ==> check_result(socket_path_error(socket_path@), r)
            && final(config).distros@ == old(config).distros@,
        socket_path_error(socket_path@) is None ==> r is Ok && match cfg_index(old(config).distros@, distro@) {
            Some(i) => final(config).distros@ == old(config).distros@.update(
                i,
                DistroBridgeConfig { socket_path: Some(socket_path), ..old(config).distros@[i] },
            ),
            None => final(config).distros@.len() == old(config).distros@.len() + 1
                && final(config).distros@.drop_last() == old(config).distros@
                && final(config).distros@.last().distro_name@ == distro@
                && !final(config).distros@.last().enabled
                && final(config).distros@.last().socket_path == Some(socket_path),
        },
{
    match validate_socket_path(socket_path.as_str()) {
        Ok(()) => {},
        Err(e) => {
            return Err(e);
        },
    }
    put_socket_path(config, distro, socket_path);
    Ok(())
}

#[verifier::spinoff_prover]
#[verifier::rlimit(40)]
fn put_socket_path(config: &mut BridgeConfig, distro: &str, socket_path: String)
    ensures
        match cfg_index(old(config).distros@, distro@) {
            Some(i) => final(config).distros@ == old(config).distros@.update(
                i,
                DistroBridgeConfig { socket_path: Some(socket_path), ..old(config).distros@[i] },
            ),
            None => final(config).distros@.len() == old(config).distros@.len() + 1
                && final(config).distros@.drop_last() == old(config).distros@
                && final(config).distros@.last().distro_name@ == distro@
                && !final(config).distros@.last().enabled
                && final(config).distros@.last().socket_path == Some(socket_path),
        },
{
    match index_of(&config.distros, distro) {
        Some(i) => {
            let mut d = config.distros.remove(i);
            d.socket_path = Some(socket_path);
            config.distros.insert(i, d);
            assert(config.distros@ =~= old(config).distros@.update(i as int, DistroBridgeConfig { socket_path: Some(socket_path), ..old(config).distros@[i as int] }));
        },
        None => {
            let mut d = new_entry(distro, false);
            d.socket_path = Some(socket_path);
            config.distros.push(d);
            assert(config.distros@.drop_last() =~= old(config).distros@);
        },
    }
}

// ── One-click diagnostic fixes ──

/// The fixed commands a diagnostic fix may run.
pub open spec fn exact_fix(cmd: Seq<char>) -> bool {
    ||| cmd == "systemctl --user start maze-ssh-relay.service"@
    ||| cmd == "systemctl --user restart maze-ssh-relay.service"@
    ||| cmd == "nohup \"$HOME\"/.local/bin/maze-ssh-relay.sh &>/dev/null &"@
    ||| cmd == "sudo apt install socat"@
    ||| cmd == "sudo apt install -y socat"@
}

/// Why a fix command is refused, or `None`: one of the fixed commands, or
/// `rm -f <path>` with a valid socket path.
pub open spec fn fix_error(cmd: Seq<char>) -> Option<Seq<char>> {
    if exact_fix(cmd) {
        None
    } else if starts_with(cmd, "rm -f "@) {
        let path = cmd.skip(6);
        if socket_path_error(path) is None {
            None
        } else {
            Some("Invalid socket path in rm command: "@ + path)
        }
    } else {
        Some("Command not in allowlist: "@ + cmd)
    }
}

fn str_is(a: &String, b: &str) -> (r: bool)
    ensures
        r == (a@ == b@),
{
    *a == b.to_string()
}

pub fn validate_diagnostic_cmd(cmd: &str) -> (r: Result<(), MazeSshError>)
    ensures
        check_result(fix_error(cmd@), r),
{
    let c = cmd.to_string();
    if str_is(&c, "systemctl --user start maze-ssh-relay.service") || str_is(&c, "systemctl --user restart maze-ssh-relay.service")
        || str_is(&c, "nohup \"$HOME\"/.local/bin/maze-ssh-relay.sh &>/dev/null &") || str_is(&c, "sudo apt install socat")
        || str_is(&c, "sudo apt install -y socat") {
        return Ok(());
    }
    let cc = chars_of(cmd);
    let prefix = chars_of("rm -f ");
    proof {
        reveal_strlit("rm -f ");
    }
    if crate::text::starts_with_chars(cc.as_slice(), prefix.as_slice()) {
        let path = string_of(vstd::slice::slice_subrange(cc.as_slice(), 6, cc.len()));
        assert(path@ == cmd@.skip(6));
        return match validate_socket_path(path.as_str()) {
            Ok(()) => Ok(()),
            Err(_) => {
                let mut m = "Invalid socket path in rm command: ".to_string();
                m.append(path.as_str());
                Err(MazeSshError::BridgeError(m))
            },
        };
    }
    let mut m = "Command not in allowlist: ".to_string();
    m.append(cmd);
    Err(MazeSshError::BridgeError(m))
}

/// The argument vector a fix command runs as (no shell), the unknown and the
/// `nohup` form through `bash -c`.
pub open spec fn fix_argv(cmd: Seq<char>) -> Seq<Seq<char>> {
    if cmd == "systemctl --user start maze-ssh-relay.service"@ {
        seq!["systemctl"@, "--user"@, "start"@, "maze-ssh-relay.service"@]
    } else if cmd == "systemctl --user restart maze-ssh-relay.service"@ {
        seq!["systemctl"@, "--user"@, "restart"@, "maze-ssh-relay.service"@]
    } else if cmd == "sudo apt install socat"@ {
        seq!["sudo"@, "apt"@, "install"@, "socat"@]
    } else if cmd == "sudo apt install -y socat"@ {
        seq!["sudo"@, "apt"@, "install"@, "-y"@, "socat"@]
    } else if starts_with(cmd, "rm -f "@) {
        seq!["rm"@, "-f"@, cmd.skip(6)]
    } else {
        seq!["bash"@, "-c"@, cmd]
    }
}

pub(crate) fn strings(v: Vec<&str>) -> (r: Vec<String>)
    ensures
        r@.map_values(|s: String| s@) == v@.map_values(|s: &str| s@),
{
    let mut r: Vec<String> = Vec::new();
    let mut i: usize = 0;
    while i < v.len()
        invariant
            i <= v@.len(),
            r@.map_values(|s: String| s@) == v@.take(i as int).map_values(|s: &str| s@),
        decreases v@.len() - i,
    {
        r.push(v[i].to_string());
        assert(v@.take(i + 1).map_values(|s: &str| s@) =~= v@.take(i as int).map_values(|s: &str| s@).push(v@[i as int]@));
        assert(r@.map_values(|s: String| s@) =~= v@.take(i + 1).map_values(|s: &str| s@));
        i = i + 1;
    }
    assert(v@.take(v@.len() as int) =~= v@);
    r
}

pub fn diagnostic_cmd_to_argv(cmd: &str) -> (r: Vec<String>)
    ensures
        r@.map_values(|s: String| s@) == fix_argv(cmd@),
{
    let c = cmd.to_string();
    if str_is(&c, "systemctl --user start maze-ssh-relay.service") {
        let r = strings(vec!["systemctl", "--user", "start", "maze-ssh-relay.service"]);
        assert(r@.map_values(|s: String| s@) =~= fix_argv(cmd@));
        return r;
    }
    if str_is(&c, "systemctl --user restart maze-ssh-relay.service") {
        let r = strings(vec!["systemctl", "--user", "restart", "maze-ssh-relay.service"]);
        assert(r@.map_values(|s: String| s@) =~= fix_argv(cmd@));
        return r;
    }
    if str_is(&c, "sudo apt install socat") {
        let r = strings(vec!["sudo", "apt", "install", "socat"]);
        assert(r@.map_values(|s: String| s@) =~= fix_argv(cmd@));
        return r;
    }
    if str_is(&c, "sudo apt install -y socat") {
        let r = strings(vec!["sudo", "apt", "install", "-y", "socat"]);
        assert(r@.map_values(|s: String| s@) =~= fix_argv(cmd@));
        return r;
    }
    let cc = chars_of(cmd);
    let prefix = chars_of("rm -f ");
    proof {
        reveal_strlit("rm -f ");
    }
    if crate::text::starts_with_chars(cc.as_slice(), prefix.as_slice()) {
        let path = string_of(vstd::slice::slice_subrange(cc.as_slice(), 6, cc.len()));
        let mut r: Vec<String> = Vec::new();
        r.push("rm".to_string());
        r.push("-f".to_string());
        r.push(path);
        assert(r@.map_values(|s: String| s@) =~= fix_argv(cmd@));
        return r;
    }
    let mut r: Vec<String> = Vec::new();
    r.push("bash".to_string());
    r.push("-c".to_string());
    r.push(cmd.to_string());
    assert(r@.map_values(|s: String| s@) =~= fix_argv(cmd@));
    r
}

/// What a fix reports: its standard output, then its error output after
/// "stderr: " on a new line when there is any, trimmed.
pub fn diagnostic_fix_output(stdout: &str, stderr: &str) -> (r: String)
    ensures
        r@ == trim(if stderr@.len() == 0 {
            stdout@
        } else {
            stdout@ + "\nstderr: "@ + stderr@
        }),
{
    let mut o = stdout.to_string();
    if !stderr.is_empty() {
        o.append("\nstderr: ");
        o.append(stderr);
    }
    crate::text::trim_str(o.as_str())
}

// ── Importing and bootstrapping ──

/// Whether some entry of `ds` is for the distro `name`.
pub open spec fn has_entry(ds: Seq<DistroBridgeConfig>, name: Seq<char>) -> bool {
    exists|i: int| 0 <= i < ds.len() && (#[trigger] ds[i]).distro_name@ == name
}

/// One imported entry merged in: it replaces the first entry of the same distro,
/// or is appended when there is none.
pub open spec fn merge_entry(ds: Seq<DistroBridgeConfig>, d: DistroBridgeConfig) -> Seq<DistroBridgeConfig> {
    match cfg_index(ds, d.distro_name@) {
        Some(i) => ds.update(i, d),
        None => ds.push(d),
    }
}

/// The imported entries merged in, in their order.
pub open spec fn merge_entries(ds: Seq<DistroBridgeConfig>, imported: Seq<DistroBridgeConfig>) -> Seq<DistroBridgeConfig>
    decreases imported.len(),
{
    if imported.len() == 0 {
        ds
    } else {
        merge_entry(merge_entries(ds, imported.drop_last()), imported.last())
    }
}

/// Whether an imported entry has a name that is blank once trimmed.
pub open spec fn has_blank_name(imported: Seq<DistroBridgeConfig>) -> bool {
    exists|i: int| 0 <= i < imported.len() && trim((#[trigger] imported[i]).distro_name@).len() == 0
}

/// After a merge, every distro that had an entry still has one, and every merged
/// entry's distro has one.
pub proof fn lemma_merge_keeps_entries(ds: Seq<DistroBridgeConfig>, imported: Seq<DistroBridgeConfig>)
    ensures
        forall|n: Seq<char>| has_entry(ds, n) ==> #[trigger] has_entry(merge_entries(ds, imported), n),
        forall|i: int| 0 <= i < imported.len()
            ==> has_entry(merge_entries(ds, imported), (#[trigger] imported[i]).distro_name@),
    decreases imported.len(),
{
    if imported.len() > 0 {
        let pre = imported.drop_last();
        lemma_merge_keeps_entries(ds, pre);
        let m = merge_entries(ds, pre);
        let d = imported.last();
        let r = merge_entry(m, d);
        assert(r == merge_entries(ds, imported));
        lemma_cfg_index(m, d.distro_name@);
        assert forall|n: Seq<char>| has_entry(m, n) implies #[trigger] has_entry(r, n) by {
            let k = choose|k: int| 0 <= k < m.len() && (#[trigger] m[k]).distro_name@ == n;
            match cfg_index(m, d.distro_name@) {
                Some(j) => {
                    let j = j;
                    if k == j {
                        assert(r[k].distro_name@ == n);
                    } else {
                        assert(r[k] == m[k]);
                    }
                },
                None => {
                    assert(r[k] == m[k]);
                },
            }
        }
        assert(has_entry(r, d.distro_name@)) by {
            match cfg_index(m, d.distro_name@) {
                Some(j) => {
                    assert(r[j] == d);
                },
                None => {
                    assert(r[m.len() as int] == d);
                },
            }
        }
        assert forall|i: int| 0 <= i < imported.len()
            implies has_entry(r, (#[trigger] imported[i]).distro_name@) by {
            if i < imported.len() - 1 {
                assert(pre[i] == imported[i]);
            }
        }
    }
}

/// Merges an imported configuration: each imported entry, in order, replaces the
/// entry of the same distro or is appended. Refused, with nothing changed, when an
/// imported entry has a blank name. Returns the number of imported entries.
pub fn import_bridge_config(config: &mut BridgeConfig, imported: BridgeConfig) -> (r: Result<usize, MazeSshError>)
    ensures
        has_blank_name(imported.distros@) ==> (r matches Err(MazeSshError::BridgeError(m))
            && m@ == "Imported config contains a distro with an empty name"@),
        has_blank_name(imported.distros@) ==> final(config).distros@ == old(config).distros@,
        !has_blank_name(imported.distros@) ==> r == Ok::<usize, MazeSshError>(imported.distros@.len() as usize)
            && final(config).distros@ == merge_entries(old(config).distros@, imported.distros@),
{
    let mut k: usize = 0;
    while k < imported.distros.len()
        invariant
            k <= imported.distros@.len(),
            forall|i: int| 0 <= i < k ==> trim((#[trigger] imported.distros@[i]).distro_name@).len() > 0,
        decreases imported.distros@.len() - k,
    {
        let t = trim_chars(chars_of(imported.distros[k].distro_name.as_str()).as_slice());
        if t.len() == 0 {
            return Err(MazeSshError::BridgeError("Imported config contains a distro with an empty name".to_string()));
        }
        k = k + 1;
    }
    let count = imported.distros.len();
    let mut src = imported.distros;
    let ghost all = src@;
    let ghost start = config.distros@;
    let mut rev: Vec<DistroBridgeConfig> = Vec::new();
    while src.len() > 0
        invariant
            all == src@ + rev@.reverse(),
            all.len() == count,
        decreases src@.len(),
    {
        let ghost before = src@;
        let d = src.pop().unwrap();
        proof {
            let r0 = rev@;
            assert(before == src@.push(d));
            assert(r0.push(d).reverse() =~= seq![d] + r0.reverse());
            assert(before + r0.reverse() =~= src@ + r0.push(d).reverse());
        }
        rev.push(d);
    }
    assert(rev@.reverse() =~= all);
    let mut done: usize = 0;
    assert(all.take(0) =~= Seq::<DistroBridgeConfig>::empty());
    while rev.len() > 0
        invariant
            rev@.len() + done == all.len(),
            all.len() == count,
            all == all.take(done as int) + rev@.reverse(),
            config.distros@ == merge_entries(start, all.take(done as int)),
        decreases rev@.len(),
    {
        let ghost r0 = rev@;
        let d = rev.pop().unwrap();
        proof {
            assert(r0 =~= rev@.push(d));
            assert(r0.reverse() =~= seq![d] + rev@.reverse());
            assert(all[done as int] == (all.take(done as int) + r0.reverse())[done as int]);
            assert(all.take(done + 1).drop_last() =~= all.take(done as int));
            assert(all.take(done + 1).last() == d);
            assert(all =~= all.take(done + 1) + rev@.reverse());
        }
        match index_of(&config.distros, d.distro_name.as_str()) {
            Some(i) => {
                config.distros[i] = d;
            },
            None => {
                config.distros.push(d);
            },
        }
        done = done + 1;
    }
    assert(all.take(done as int) =~= all);
    Ok(count)
}

} // verus!
