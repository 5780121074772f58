//! Git-side checks of a profile: the SSH connection test and the pre-push hook
//! that guards a repository's identity. Running ssh and writing the hook file is
//! the caller's.
use vstd::prelude::*;

use crate::error::MazeSshError;
use crate::profile::{
    build_git_ssh_command, find_profile, git_ssh_command, lemma_profile_index,
    port_or_default_of, profile_index, shell_escape, SshProfile,
};
use crate::repo::{lookup_mapping, mapping_for};
use crate::security::{ensure_unlocked, SecurityState};
use crate::state::AppStateInner;
use crate::text::{
    chars_of, contains_sub, decimal, push_decimal, replace_char, str_contains, string_of, trim,
    trim_chars,
};

verus! {

/// The outcome of testing a profile's SSH connection.
#[derive(Debug, Clone)]
pub struct ConnectionTestResult {
    pub success: bool,
    pub output: String,
    pub profile_name: String,
}

/// The `GIT_SSH_COMMAND` of the profile `id`; refused while the app is locked, and
/// with `ProfileNotFound` when there is no such profile.
pub fn get_git_ssh_command(inner: &AppStateInner, security: &mut SecurityState, id: &str, now: u64) -> (r: Result<
    String,
    MazeSshError,
>)
    ensures
        old(security).is_locked ==> (r matches Err(MazeSshError::AppLocked)) && *final(security) == *old(security),
        !old(security).is_locked ==> *final(security) == (SecurityState { last_activity: now, ..*old(security) }),
        !old(security).is_locked ==> match profile_index(inner.profiles@, id@) {
            None => r matches Err(MazeSshError::ProfileNotFound(m)) && m@ == id@,
            Some(k) => r matches Ok(c) && c@ == git_ssh_command(inner.profiles@[k]),
        },
{
    match ensure_unlocked(security, now) {
        Err(e) => return Err(e),
        Ok(()) => {},
    }
    match find_profile(inner.profiles.as_slice(), id) {
        None => Err(MazeSshError::ProfileNotFound(id.to_string())),
        Some(k) => {
            proof {
                lemma_profile_index(inner.profiles@, id@);
            }
            Ok(build_git_ssh_command(&inner.profiles[k]))
        },
    }
}

/// The arguments of `ssh` for testing a profile: its key only, new host keys
/// accepted, a 10 s timeout, its port when not 22, and `git@<hostname>`.
pub open spec fn connection_args(p: SshProfile) -> Seq<Seq<char>> {
    let base = seq![
        "-T"@,
        "-i"@,
        p.private_key_path@,
        "-o"@,
        "IdentitiesOnly=yes"@,
        "-o"@,
        "StrictHostKeyChecking=accept-new"@,
        "-o"@,
        "ConnectTimeout=10"@,
    ];
    let with_port = if port_or_default_of(p) != 22 {
        base + seq!["-p"@, decimal(port_or_default_of(p) as nat)]
    } else {
        base
    };
    with_port.push("git@"@ + p.hostname@)
}

pub fn ssh_connection_args(profile: &SshProfile) -> (r: Vec<String>)
    ensures
        r@.map_values(|s: String| s@) == connection_args(*profile),
{
    let mut r: Vec<String> = Vec::new();
    r.push("-T".to_string());
    r.push("-i".to_string());
    r.push(profile.private_key_path.clone());
    r.push("-o".to_string());
    r.push("IdentitiesOnly=yes".to_string());
    r.push("-o".to_string());
    r.push("StrictHostKeyChecking=accept-new".to_string());
    r.push("-o".to_string());
    r.push("ConnectTimeout=10".to_string());
    let port = profile.port_or_default();
    if port != 22 {
        r.push("-p".to_string());
        let mut p = String::new();
        push_decimal(&mut p, port as u64);
        r.push(p);
    }
    let mut target = "git@".to_string();
    target.append(profile.hostname.as_str());
    r.push(target);
    assert(r@.map_values(|s: String| s@) =~= connection_args(*profile));
    r
}

/// What a connection test needs: the profile's name and the arguments of `ssh`;
/// refused while the app is locked, and with `ProfileNotFound` when there is no
/// such profile.
pub fn prepare_connection_test(inner: &AppStateInner, security: &mut SecurityState, id: &str, now: u64) -> (r: Result<
    (String, Vec<String>),
    MazeSshError,
>)
    ensures
        old(security).is_locked ==> (r matches Err(MazeSshError::AppLocked)) && *final(security) == *old(security),
        !old(security).is_locked ==> *final(security) == (SecurityState { last_activity: now, ..*old(security) }),
        !old(security).is_locked ==> match profile_index(inner.profiles@, id@) {
            None => r matches Err(MazeSshError::ProfileNotFound(m)) && m@ == id@,
            Some(k) => r matches Ok((name, args)) && name@ == inner.profiles@[k].name@
                && args@.map_values(|s: String| s@) == connection_args(inner.profiles@[k]),
        },
{
    match ensure_unlocked(security, now) {
        Err(e) => return Err(e),
        Ok(()) => {},
    }
    match find_profile(inner.profiles.as_slice(), id) {
        None => Err(MazeSshError::ProfileNotFound(id.to_string())),
        Some(k) => {
            proof {
                lemma_profile_index(inner.profiles@, id@);
            }
            let p = &inner.profiles[k];
            Ok((p.name.clone(), ssh_connection_args(p)))
        },
    }
}

/// A signed number in decimal.
pub open spec fn signed_decimal(n: int) -> Seq<char> {
    if n < 0 {
        "-"@ + decimal((-n) as nat)
    } else {
        decimal(n as nat)
    }
}

/// The arguments joined with single spaces.
pub open spec fn spaced(args: Seq<Seq<char>>) -> Seq<char>
    decreases args.len(),
{
    if args.len() == 0 {
        Seq::empty()
    } else if args.len() == 1 {
        args[0]
    } else {
        spaced(args.drop_last()) + " "@ + args.last()
    }
}

/// Whether the combined output tells of a successful authentication (GitHub,
/// GitLab and Gitea greet and exit with 1).
pub open spec fn greeted(out: Seq<char>) -> bool {
    ||| contains_sub(out, "successfully authenticated"@)
    ||| contains_sub(out, "Welcome to GitLab"@)
    ||| contains_sub(out, "Welcome to Gitea"@)
    ||| contains_sub(out, "Hi "@)
}

fn join_args(args: &Vec<String>) -> (r: String)
    ensures
        r@ == spaced(args@.map_values(|s: String| s@)),
{
    let ghost v = args@.map_values(|s: String| s@);
    let mut r = String::new();
    let mut i: usize = 0;
    assert(v.take(0) =~= Seq::<Seq<char>>::empty());
    while i < args.len()
        invariant
            i <= args@.len(),
            v == args@.map_values(|s: String| s@),
            r@ == spaced(v.take(i as int)),
        decreases args@.len() - i,
    {
        assert(v.take(i + 1).drop_last() =~= v.take(i as int));
        if i > 0 {
            r.append(" ");
        }
        r.append(args[i].as_str());
        i = i + 1;
    }
    assert(v.take(args@.len() as int) =~= v);
    r
}

/// The outcome of `ssh <args>` run as `ssh_bin`: it succeeded when ssh did or its
/// output greets; the output shown is the combined output trimmed, or, when there
/// is none, the command and its exit code.
pub fn test_ssh_connection(
    profile_name: String,
    ssh_bin: &str,
    args: &Vec<String>,
    stdout: &str,
    stderr: &str,
    success: bool,
    exit_code: i32,
) -> (r: ConnectionTestResult)
    ensures
        r.profile_name == profile_name,
        r.success == (greeted(stdout@ + stderr@) || success),
        trim(stdout@ + stderr@).len() > 0 ==> r.output@ == trim(stdout@ + stderr@),
        trim(stdout@ + stderr@).len() == 0 ==> r.output@ == "SSH command: "@ + ssh_bin@ + " "@ + spaced(
            args@.map_values(|s: String| s@),
        ) + "\n(no output, exit code: "@ + signed_decimal(exit_code as int) + ")"@,
{
    let mut combined = stdout.to_string();
    combined.append(stderr);
    let c = combined.as_str();
    let ok = str_contains(c, "successfully authenticated") || str_contains(c, "Welcome to GitLab")
        || str_contains(c, "Welcome to Gitea") || str_contains(c, "Hi ") || success;
    let t = trim_chars(chars_of(c).as_slice());
    let output = if t.len() == 0 {
        let mut o = "SSH command: ".to_string();
        o.append(ssh_bin);
        o.append(" ");
        let joined = join_args(args);
        o.append(joined.as_str());
        o.append("\n(no output, exit code: ");
        if exit_code < 0 {
            o.append("-");
            let m: i64 = -(exit_code as i64);
            push_decimal(&mut o, m as u64);
        } else {
            push_decimal(&mut o, exit_code as u64);
        }
        o.append(")");
        o
    } else {
        string_of(t.as_slice())
    };
    ConnectionTestResult { success: ok, output, profile_name }
}

// ── The pre-push hook ──

/// The pre-push hook that refuses a push when git's `user.email` is not the
/// profile's (both values quoted for the shell).
pub open spec fn hook_script(name: Seq<char>, email: Seq<char>) -> Seq<char> {
    "#!/bin/sh\n# Maze SSH — pre-push identity validation hook\n# Profile: "@ + name + "\n# Expected email: "@ + email
        + "\n\nCURRENT_EMAIL=$(git config user.email)\nEXPECTED_EMAIL='"@ + email
        + "'\n\nif [ \"$CURRENT_EMAIL\" != \"$EXPECTED_EMAIL\" ]; then\n  echo \"\"\n  echo \"  [Maze SSH] Identity mismatch!\"\n  echo \"  Expected: $EXPECTED_EMAIL ("@
        + name
        + ")\"\n  echo \"  Current:  $CURRENT_EMAIL\"\n  echo \"\"\n  echo \"  Run: maze-ssh switch to fix, or set git config user.email\"\n  echo \"\"\n  exit 1\nfi\n"@
}

pub open spec fn shell_quoted(s: Seq<char>) -> Seq<char> {
    replace_char(s, '\'', "'\\''"@)
}

fn hook_text(name: &str, email: &str) -> (r: String)
    ensures
        r@ == hook_script(name@, email@),
{
    let mut r = "#!/bin/sh\n# Maze SSH — pre-push identity validation hook\n# Profile: ".to_string();
    r.append(name);
    r.append("\n# Expected email: ");
    r.append(email);
    r.append("\n\nCURRENT_EMAIL=$(git config user.email)\nEXPECTED_EMAIL='");
    r.append(email);
    r.append(
        "'\n\nif [ \"$CURRENT_EMAIL\" != \"$EXPECTED_EMAIL\" ]; then\n  echo \"\"\n  echo \"  [Maze SSH] Identity mismatch!\"\n  echo \"  Expected: $EXPECTED_EMAIL (",
    );
    r.append(name);
    r.append(
        ")\"\n  echo \"  Current:  $CURRENT_EMAIL\"\n  echo \"\"\n  echo \"  Run: maze-ssh switch to fix, or set git config user.email\"\n  echo \"\"\n  exit 1\nfi\n",
    );
    r
}

/// The pre-push hook for a repository: refused while the app is locked, when the
/// path is in no git repository (`git_root` is `None`), when the repository is
/// mapped to no profile, and when its profile is gone. Returns the hook's text,
/// which belongs in `.git/hooks/pre-push` of the root.
pub fn generate_git_hook(
    inner: &AppStateInner,
    security: &mut SecurityState,
    repo_path: &str,
    git_root: Option<&str>,
    now: u64,
) -> (r: Result<String, MazeSshError>)
    ensures
        old(security).is_locked ==> (r matches Err(MazeSshError::AppLocked)) && *final(security) == *old(security),
        !old(security).is_locked ==> *final(security) == (SecurityState { last_activity: now, ..*old(security) }),
        !old(security).is_locked ==> match git_root {
            None => r matches Err(MazeSshError::NotAGitRepo(p)) && p@ == repo_path@,
            Some(root) => match mapping_for(inner.repo_mappings@, root@) {
                None => r matches Err(MazeSshError::ConfigError(m))
                    && m@ == "No mapping found for this repo. Create a repo mapping first."@,
                Some(m) => match profile_index(inner.profiles@, m.profile_id@) {
                    None => r matches Err(MazeSshError::ProfileNotFound(x)) && x@ == m.profile_id@,
                    Some(k) => r matches Ok(h) && h@ == hook_script(
                        shell_quoted(inner.profiles@[k].name@),
                        shell_quoted(inner.profiles@[k].email@),
                    ),
                },
            },
        },
{
    match ensure_unlocked(security, now) {
        Err(e) => return Err(e),
        Ok(()) => {},
    }
    let root = match git_root {
        None => return Err(MazeSshError::NotAGitRepo(repo_path.to_string())),
        Some(r) => r,
    };
    let mapping = match lookup_mapping(root, inner.repo_mappings.as_slice()) {
        None => {
            return Err(MazeSshError::ConfigError("No mapping found for this repo. Create a repo mapping first.".to_string()))
        },
        Some(m) => m,
    };
    match find_profile(inner.profiles.as_slice(), mapping.profile_id.as_str()) {
        None => Err(MazeSshError::ProfileNotFound(mapping.profile_id.clone())),
        Some(k) => {
            proof {
                lemma_profile_index(inner.profiles@, mapping.profile_id@);
            }
            let p = &inner.profiles[k];
            let safe_email = shell_escape(p.email.as_str());
            let safe_name = shell_escape(p.name.as_str());
            Ok(hook_text(safe_name.as_str(), safe_email.as_str()))
        },
    }
}

/// Whether an existing pre-push hook may be removed: only one that Maze SSH wrote.
pub fn remove_git_hook(content: &str) -> (r: Result<(), MazeSshError>)
    ensures
        contains_sub(content@, "Maze SSH"@) ==> r is Ok,
        !contains_sub(content@, "Maze SSH"@) ==> (r matches Err(MazeSshError::ConfigError(m))
            && m@ == "Hook exists but was not created by Maze SSH"@),
{
    if str_contains(content, "Maze SSH") {
        Ok(())
    } else {
        Err(MazeSshError::ConfigError("Hook exists but was not created by Maze SSH".to_string()))
    }
}

// ── Git identity ──

/// The git to run: Git for Windows where it is installed, else `git` on the path.
pub fn find_git_binary(program_files_git: bool, program_files_x86_git: bool) -> (r: String)
    ensures
        r@ == (if program_files_git {
            "C:\\Program Files\\Git\\cmd\\git.exe"@
        } else if program_files_x86_git {
            "C:\\Program Files (x86)\\Git\\cmd\\git.exe"@
        } else {
            "git"@
        }),
{
    if program_files_git {
        "C:\\Program Files\\Git\\cmd\\git.exe".to_string()
    } else if program_files_x86_git {
        "C:\\Program Files (x86)\\Git\\cmd\\git.exe".to_string()
    } else {
        "git".to_string()
    }
}

/// The arguments of git that set `key` to `value`: globally, or in the repository
/// at `repo`.
pub open spec fn git_config_args(repo: Option<Seq<char>>, key: Seq<char>, value: Seq<char>) -> Seq<Seq<char>> {
    match repo {
        None => seq!["config"@, "--global"@, key, value],
        Some(r) => seq!["-C"@, r, "config"@, key, value],
    }
}

fn config_args(repo: Option<&str>, key: &str, value: &str) -> (r: Vec<String>)
    ensures
        r@.map_values(|s: String| s@) == git_config_args(match repo {
            Some(x) => Some(x@),
            None => None,
        }, key@, value@),
{
    let mut r: Vec<String> = Vec::new();
    match repo {
        None => {
            r.push("config".to_string());
            r.push("--global".to_string());
        },
        Some(x) => {
            r.push("-C".to_string());
            r.push(x.to_string());
            r.push("config".to_string());
        },
    }
    r.push(key.to_string());
    r.push(value.to_string());
    assert(r@.map_values(|s: String| s@) =~= git_config_args(match repo {
        Some(x) => Some(x@),
        None => None,
    }, key@, value@));
    r
}

/// The two git commands that write an identity: `user.name`, then `user.email`,
/// globally or in the repository at `repo`.
pub fn set_git_identity(repo: Option<&str>, name: &str, email: &str) -> (r: (Vec<String>, Vec<String>))
    ensures
        r.0@.map_values(|s: String| s@) == git_config_args(match repo {
            Some(x) => Some(x@),
            None => None,
        }, "user.name"@, name@),
        r.1@.map_values(|s: String| s@) == git_config_args(match repo {
            Some(x) => Some(x@),
            None => None,
        }, "user.email"@, email@),
{
    (config_args(repo, "user.name", name), config_args(repo, "user.email", email))
}

/// What one of those commands gave: a failure names the key and git's error output.
pub fn git_config_result(key: &str, success: bool, stderr: &str) -> (r: Result<(), MazeSshError>)
    ensures
        success ==> r is Ok,
        !success ==> (r matches Err(MazeSshError::GitConfigError(m)) && m@ == "git config "@ + key@ + " failed: "@ + stderr@),
{
    if success {
        return Ok(());
    }
    let mut m = "git config ".to_string();
    m.append(key);
    m.append(" failed: ");
    m.append(stderr);
    Err(MazeSshError::GitConfigError(m))
}

/// Where a git identity is written.
#[derive(Debug, Clone, Copy, PartialEq, Eq, Structural)]
pub enum GitConfigScope {
    /// The user's global git configuration
    Global,
    /// The configuration of one repository
    Local,
}

/// The git commands that write profile `profile_id`'s identity (its git user
/// name, then its email) in `scope`. `ProfileNotFound` when there is no such
/// profile; the local scope needs `repo_path`, else `GitConfigError`.
pub fn sync_git_identity(
    profiles: &[SshProfile],
    profile_id: &str,
    repo_path: Option<&str>,
    scope: GitConfigScope,
) -> (r: Result<(Vec<String>, Vec<String>), MazeSshError>)
    ensures
        match profile_index(profiles@, profile_id@) {
            None => r matches Err(MazeSshError::ProfileNotFound(m)) && m@ == profile_id@,
            Some(k) => match scope {
                GitConfigScope::Global => r matches Ok(c)
                    && c.0@.map_values(|s: String| s@) == git_config_args(None, "user.name"@, profiles@[k].git_username@)
                    && c.1@.map_values(|s: String| s@) == git_config_args(None, "user.email"@, profiles@[k].email@),
                GitConfigScope::Local => match repo_path {
                    None => r matches Err(MazeSshError::GitConfigError(m)) && m@ == "repo_path required for local scope"@,
                    Some(p) => r matches Ok(c)
                        && c.0@.map_values(|s: String| s@) == git_config_args(Some(p@), "user.name"@, profiles@[k].git_username@)
                        && c.1@.map_values(|s: String| s@) == git_config_args(Some(p@), "user.email"@, profiles@[k].email@),
                },
            },
        },
{
    let k = match find_profile(profiles, profile_id) {
        None => return Err(MazeSshError::ProfileNotFound(profile_id.to_string())),
        Some(k) => k,
    };
    proof {
        lemma_profile_index(profiles@, profile_id@);
    }
    let p = &profiles[k];
    match scope {
        GitConfigScope::Global => Ok(set_git_identity(None, p.git_username.as_str(), p.email.as_str())),
        GitConfigScope::Local => match repo_path {
            None => Err(MazeSshError::GitConfigError("repo_path required for local scope".to_string())),
            Some(rp) => Ok(set_git_identity(Some(rp), p.git_username.as_str(), p.email.as_str())),
        },
    }
}

} // verus!

