//! Switching the active profile, and the SSH agent and environment steps that come
//! with it. Running `ssh-add`, PowerShell and git is the caller's: it runs the
//! commands these functions name and hands back what they reported.
use vstd::prelude::*;

use crate::error::MazeSshError;
use crate::profile::{
    build_git_ssh_command, find_profile, git_ssh_command, git_ssh_env_script, profile_index,
    user_env_script, ProfileSummary, SshProfile,
};
use crate::security::{ensure_unlocked, SecurityState};
use crate::state::AppStateInner;
use crate::text::{contains_sub, str_contains, trim, trim_chars, chars_of, string_of};

verus! {

/// What activating a profile returns at once.
#[derive(Debug, Clone)]
pub struct ActivationResult {
    pub profile_name: String,
    pub git_ssh_command: String,
}

/// What the background agent work reports when it is done.
#[derive(Debug, Clone)]
pub struct AgentStatusEvent {
    pub status: String,
    pub success: bool,
}

/// Makes the profile `id` the active one: refused while the app is locked, and
/// with `ProfileNotFound` when there is no such profile. The agent activation
/// time is set to `now` once the app is found unlocked, before the lookup.
pub fn activate_profile(
    inner: &mut AppStateInner,
    security: &mut SecurityState,
    id: &str,
    now: u64,
) -> (r: Result<ActivationResult, MazeSshError>)
    ensures
        old(security).is_locked ==> (r matches Err(MazeSshError::AppLocked)) && *final(security) == *old(security)
            && *final(inner) == *old(inner),
        !old(security).is_locked ==> *final(security) == (SecurityState {
            last_activity: now,
            agent_activated_at: Some(now),
            ..*old(security)
        }),
        !old(security).is_locked ==> match profile_index(old(inner).profiles@, id@) {
            None => (r matches Err(MazeSshError::ProfileNotFound(m)) && m@ == id@) && *final(inner) == *old(inner),
            Some(k) => (r matches Ok(a) && a.profile_name@ == old(inner).profiles@[k].name@
                && a.git_ssh_command@ == git_ssh_command(old(inner).profiles@[k]))
                && final(inner).profiles == old(inner).profiles
                && final(inner).repo_mappings == old(inner).repo_mappings
                && (final(inner).active_profile_id matches Some(a) && a@ == id@),
        },
{
    match ensure_unlocked(security, now) {
        Err(e) => return Err(e),
        Ok(()) => {},
    }
    security.agent_activated_at = Some(now);
    match find_profile(inner.profiles.as_slice(), id) {
        None => Err(MazeSshError::ProfileNotFound(id.to_string())),
        Some(k) => {
            proof {
                crate::profile::lemma_profile_index(inner.profiles@, id@);
            }
            let p = &inner.profiles[k];
            let result = ActivationResult { profile_name: p.name.clone(), git_ssh_command: build_git_ssh_command(p) };
            inner.active_profile_id = Some(id.to_string());
            Ok(result)
        },
    }
}

/// Leaves no profile active and forgets the agent activation time; refused while
/// the app is locked.
pub fn deactivate_profile(inner: &mut AppStateInner, security: &mut SecurityState, now: u64) -> (r: Result<(), MazeSshError>)
    ensures
        old(security).is_locked ==> (r matches Err(MazeSshError::AppLocked)) && *final(security) == *old(security)
            && *final(inner) == *old(inner),
        !old(security).is_locked ==> r is Ok && *final(security) == (SecurityState {
            last_activity: now,
            agent_activated_at: None,
            ..*old(security)
        }) && final(inner).active_profile_id is None && final(inner).profiles == old(inner).profiles
            && final(inner).repo_mappings == old(inner).repo_mappings,
{
    match ensure_unlocked(security, now) {
        Err(e) => return Err(e),
        Ok(()) => {},
    }
    security.agent_activated_at = None;
    inner.active_profile_id = None;
    Ok(())
}

/// The summary of the active profile, if one is active and still exists;
/// refused while the app is locked.
pub fn get_active_profile(inner: &AppStateInner, security: &mut SecurityState, now: u64) -> (r: Result<
    Option<ProfileSummary>,
    MazeSshError,
>)
    ensures
        old(security).is_locked ==> (r matches Err(MazeSshError::AppLocked)) && *final(security) == *old(security),
        !old(security).is_locked ==> *final(security) == (SecurityState { last_activity: now, ..*old(security) }),
        !old(security).is_locked ==> match inner.active_profile_id {
            None => r matches Ok(None),
            Some(a) => match profile_index(inner.profiles@, a@) {
                None => r matches Ok(None),
                Some(k) => r matches Ok(Some(s)) && s.id@ == a@ && s.name@ == inner.profiles@[k].name@
                    && s.provider == inner.profiles@[k].provider && s.email@ == inner.profiles@[k].email@ && s.is_active,
            },
        },
{
    match ensure_unlocked(security, now) {
        Err(e) => return Err(e),
        Ok(()) => {},
    }
    match &inner.active_profile_id {
        None => Ok(None),
        Some(a) => match find_profile(inner.profiles.as_slice(), a.as_str()) {
            None => Ok(None),
            Some(k) => {
                proof {
                    crate::profile::lemma_profile_index(inner.profiles@, a@);
                }
                Ok(Some(ProfileSummary::from_profile(&inner.profiles[k], &inner.active_profile_id)))
            },
        },
    }
}

// ── Status of the background steps ──

fn prefixed(p: &str, s: &str) -> (r: String)
    ensures
        r@ == p@ + s@,
{
    let mut r = p.to_string();
    r.append(s);
    r
}

/// The status of setting `GIT_SSH_COMMAND` for the user.
pub fn env_var_status(result: &Result<(), String>) -> (r: String)
    ensures
        r@ == (match result {
            Ok(()) => "GIT_SSH_COMMAND set"@,
            Err(e) => "Env var failed: "@ + e@,
        }),
{
    match result {
        Ok(()) => "GIT_SSH_COMMAND set".to_string(),
        Err(e) => prefixed("Env var failed: ", e.as_str()),
    }
}

/// The status when the agent could not be used, or `None` when it runs and the
/// key can be loaded. `admin_hint` adds the hint that starting it may need an
/// administrator.
pub fn agent_unavailable_status(started: &Result<bool, String>, admin_hint: bool) -> (r: Option<String>)
    ensures
        match started {
            Ok(true) => r is None,
            Ok(false) => r matches Some(s) && s@ == (if admin_hint {
                "Could not start ssh-agent (may need admin)"@
            } else {
                "Could not start ssh-agent"@
            }),
            Err(e) => r matches Some(s) && s@ == "Agent error: "@ + e@,
        },
{
    match started {
        Ok(true) => None,
        Ok(false) => if admin_hint {
            Some("Could not start ssh-agent (may need admin)".to_string())
        } else {
            Some("Could not start ssh-agent".to_string())
        },
        Err(e) => Some(prefixed("Agent error: ", e.as_str())),
    }
}

/// The status of loading the key with `ssh-add`.
pub fn key_load_status(loaded: &Result<String, String>) -> (r: String)
    ensures
        r@ == (match loaded {
            Ok(_) => "Key loaded into ssh-agent"@,
            Err(e) => "ssh-add failed: "@ + e@,
        }),
{
    match loaded {
        Ok(_) => "Key loaded into ssh-agent".to_string(),
        Err(e) => prefixed("ssh-add failed: ", e.as_str()),
    }
}

/// Where a git identity was written.
#[derive(Debug, Clone, Copy, PartialEq, Eq, Structural)]
pub enum IdentityScope {
    /// The global identity, when a profile is activated by hand
    Activation,
    /// The repository's own configuration
    Local,
    /// The global configuration, for a repository mapped with global scope
    Global,
}

/// The status of writing the git identity of `username`.
pub fn git_identity_status(result: &Result<(), String>, username: &str, scope: IdentityScope) -> (r: String)
    ensures
        r@ == (match result {
            Ok(()) => match scope {
                IdentityScope::Activation => "Git: "@ + username@,
                IdentityScope::Local => "Git identity set (local: "@ + username@ + ")"@,
                IdentityScope::Global => "Git identity set (global: "@ + username@ + ")"@,
            },
            Err(e) => "Git identity failed: "@ + e@,
        }),
{
    match result {
        Ok(()) => match scope {
            IdentityScope::Activation => prefixed("Git: ", username),
            IdentityScope::Local => {
                let mut s = prefixed("Git identity set (local: ", username);
                s.append(")");
                s
            },
            IdentityScope::Global => {
                let mut s = prefixed("Git identity set (global: ", username);
                s.append(")");
                s
            },
        },
        Err(e) => prefixed("Git identity failed: ", e.as_str()),
    }
}

/// The parts joined with " | ".
pub open spec fn joined(parts: Seq<Seq<char>>) -> Seq<char>
    decreases parts.len(),
{
    if parts.len() == 0 {
        Seq::empty()
    } else if parts.len() == 1 {
        parts[0]
    } else {
        joined(parts.drop_last()) + " | "@ + parts.last()
    }
}

/// A part that tells of a working agent.
pub open spec fn success_part(p: Seq<char>) -> bool {
    contains_sub(p, "MazeSSH Agent"@) || contains_sub(p, "loaded"@)
}

/// The event that ends the background work: it succeeded when a part tells of
/// the MazeSSH agent or of a loaded key; its status is the parts joined.
pub fn agent_status_event(parts: &Vec<String>) -> (r: AgentStatusEvent)
    ensures
        r.status@ == joined(parts@.map_values(|s: String| s@)),
        r.success == exists|i: int| 0 <= i < parts@.len() && success_part(#[trigger] parts@[i]@),
{
    let ghost ps = parts@.map_values(|s: String| s@);
    let mut status = String::new();
    let mut success = false;
    let mut i: usize = 0;
    assert(ps.take(0) =~= Seq::<Seq<char>>::empty());
    while i < parts.len()
        invariant
            i <= parts@.len(),
            ps == parts@.map_values(|s: String| s@),
            status@ == joined(ps.take(i as int)),
            success == exists|j: int| 0 <= j < i && success_part(#[trigger] parts@[j]@),
        decreases parts@.len() - i,
    {
        let p = parts[i].as_str();
        assert(ps.take(i + 1).drop_last() =~= ps.take(i as int));
        assert(ps.take(i + 1).last() == p@);
        if i > 0 {
            status.append(" | ");
        }
        status.append(p);
        let s = str_contains(p, "MazeSSH Agent") || str_contains(p, "loaded");
        proof {
            if s {
                assert(success_part(parts@[i as int]@));
            }
            if success {
                let j = choose|j: int| 0 <= j < i && success_part(#[trigger] parts@[j]@);
                assert(success_part(parts@[j]@));
            }
        }
        success = success || s;
        i = i + 1;
    }
    assert(ps.take(parts@.len() as int) =~= ps);
    AgentStatusEvent { status, success }
}

// ── The SSH agent and the user environment ──

/// The `ssh-add` to run: the system OpenSSH one when it is installed, otherwise
/// the one on the path.
pub fn find_ssh_add(system_ssh_add_exists: bool) -> (r: String)
    ensures
        r@ == (if system_ssh_add_exists {
            "C:\\Windows\\System32\\OpenSSH\\ssh-add.exe"@
        } else {
            "ssh-add"@
        }),
{
    if system_ssh_add_exists {
        "C:\\Windows\\System32\\OpenSSH\\ssh-add.exe".to_string()
    } else {
        "ssh-add".to_string()
    }
}

/// The outcome of `ssh-add <key>` (run after `ssh-add -D`): the combined output,
/// trimmed, is the message; it succeeded when the command did or the output says
/// "Identity added".
pub fn agent_switch_key(success: bool, stdout: &str, stderr: &str) -> (r: Result<String, String>)
    ensures
        success || contains_sub(stdout@ + stderr@, "Identity added"@) ==> (r matches Ok(m) && m@ == trim(stdout@ + stderr@)),
        !(success || contains_sub(stdout@ + stderr@, "Identity added"@)) ==> (r matches Err(m) && m@ == trim(stdout@ + stderr@)),
{
    let combined = prefixed(stdout, stderr);
    let msg = string_of(trim_chars(chars_of(combined.as_str()).as_slice()).as_slice());
    if success || str_contains(combined.as_str(), "Identity added") {
        Ok(msg)
    } else {
        Err(msg)
    }
}

/// The outcome of `ssh-add -l`: the listing, or the error output, trimmed.
pub fn agent_list_keys(success: bool, stdout: &str, stderr: &str) -> (r: Result<String, String>)
    ensures
        success ==> (r matches Ok(m) && m@ == trim(stdout@)),
        !success ==> (r matches Err(m) && m@ == trim(stderr@)),
{
    if success {
        Ok(string_of(trim_chars(chars_of(stdout).as_slice()).as_slice()))
    } else {
        Err(string_of(trim_chars(chars_of(stderr).as_slice()).as_slice()))
    }
}

/// The command that removes every key from the agent.
pub fn agent_clear_keys(ssh_add: &str) -> (r: Vec<String>)
    ensures
        r@.len() == 2 && r@[0]@ == ssh_add@ && r@[1]@ == "-D"@,
{
    let mut r: Vec<String> = Vec::new();
    r.push(ssh_add.to_string());
    r.push("-D".to_string());
    r
}

fn powershell(script: String) -> (r: Vec<String>)
    ensures
        r@.len() == 4 && r@[0]@ == "powershell"@ && r@[1]@ == "-NoProfile"@ && r@[2]@ == "-Command"@ && r@[3]@ == script@,
{
    let mut r: Vec<String> = Vec::new();
    r.push("powershell".to_string());
    r.push("-NoProfile".to_string());
    r.push("-Command".to_string());
    r.push(script);
    r
}

/// The command that makes the profile's `GIT_SSH_COMMAND` the user's.
pub fn set_user_env_git_ssh_command(profile: &SshProfile) -> (r: Vec<String>)
    ensures
        r@.len() == 4 && r@[0]@ == "powershell"@ && r@[1]@ == "-NoProfile"@ && r@[2]@ == "-Command"@
            && r@[3]@ == user_env_script(*profile),
{
    powershell(git_ssh_env_script(profile))
}

/// The command that removes `GIT_SSH_COMMAND` from the user's environment.
pub fn clear_user_env_git_ssh_command() -> (r: Vec<String>)
    ensures
        r@.len() == 4 && r@[0]@ == "powershell"@ && r@[1]@ == "-NoProfile"@ && r@[2]@ == "-Command"@
            && r@[3]@ == "[Environment]::SetEnvironmentVariable('GIT_SSH_COMMAND', $null, 'User')"@,
{
    powershell("[Environment]::SetEnvironmentVariable('GIT_SSH_COMMAND', $null, 'User')".to_string())
}

/// The steps of making sure the Windows OpenSSH agent service runs.
#[derive(Debug, Clone, Copy, PartialEq, Eq, Structural)]
pub enum AgentStartStep {
    /// Ask the service's status
    CheckStatus,
    /// Start the service
    Start,
    /// Start it with elevated rights, making it start manually from now on
    Elevate,
    /// Ask the status again
    Verify,
}

/// What comes after a step.
#[derive(Debug, Clone, Copy, PartialEq, Eq, Structural)]
pub enum AgentStartNext {
    Run(AgentStartStep),
    /// Whether the agent runs
    Done(bool),
}

/// The PowerShell script of a step.
pub fn agent_start_script(step: AgentStartStep) -> (r: &'static str)
    ensures
        r@ == (match step {
            AgentStartStep::CheckStatus => "(Get-Service ssh-agent).Status"@,
            AgentStartStep::Start => "Start-Service ssh-agent"@,
            AgentStartStep::Elevate => "Start-Process powershell -ArgumentList '-NoProfile -Command \"Set-Service ssh-agent -StartupType Manual; Start-Service ssh-agent\"' -Verb RunAs -Wait"@,
            AgentStartStep::Verify => "(Get-Service ssh-agent).Status"@,
        }),
{
    match step {
        AgentStartStep::CheckStatus => "(Get-Service ssh-agent).Status",
        AgentStartStep::Start => "Start-Service ssh-agent",
        AgentStartStep::Elevate => "Start-Process powershell -ArgumentList '-NoProfile -Command \"Set-Service ssh-agent -StartupType Manual; Start-Service ssh-agent\"' -Verb RunAs -Wait",
        AgentStartStep::Verify => "(Get-Service ssh-agent).Status",
    }
}

/// The decision after a step ran with the given exit status and output: a running
/// service ends the check; a failed start is retried elevated; a failed elevated
/// start gives up; after a start the status is asked again, and its answer is
/// the result.
pub fn ensure_agent_running(step: AgentStartStep, success: bool, stdout: &str) -> (r: AgentStartNext)
    ensures
        r == (match step {
            AgentStartStep::CheckStatus => if trim(stdout@) == "Running"@ {
                AgentStartNext::Done(true)
            } else {
                AgentStartNext::Run(AgentStartStep::Start)
            },
            AgentStartStep::Start => if success {
                AgentStartNext::Run(AgentStartStep::Verify)
            } else {
                AgentStartNext::Run(AgentStartStep::Elevate)
            },
            AgentStartStep::Elevate => if success {
                AgentStartNext::Run(AgentStartStep::Verify)
            } else {
                AgentStartNext::Done(false)
            },
            AgentStartStep::Verify => AgentStartNext::Done(trim(stdout@) == "Running"@),
        }),
{
    match step {
        AgentStartStep::CheckStatus => if says_running(stdout) {
            AgentStartNext::Done(true)
        } else {
            AgentStartNext::Run(AgentStartStep::Start)
        },
        AgentStartStep::Start => if success {
            AgentStartNext::Run(AgentStartStep::Verify)
        } else {
            AgentStartNext::Run(AgentStartStep::Elevate)
        },
        AgentStartStep::Elevate => if success {
            AgentStartNext::Run(AgentStartStep::Verify)
        } else {
            AgentStartNext::Done(false)
        },
        AgentStartStep::Verify => AgentStartNext::Done(says_running(stdout)),
    }
}

fn says_running(stdout: &str) -> (r: bool)
    ensures
        r == (trim(stdout@) == "Running"@),
{
    let t = trim_chars(chars_of(stdout).as_slice());
    let running = chars_of("Running");
    let r = crate::text::chars_eq(t.as_slice(), running.as_slice());
    r
}

/// The agent's keys from its listing (`ssh-add -l`), one per line; `None` when it
/// holds none (the listing is empty or says "no identities").
pub fn agent_key_lines(keys: &str) -> (r: Option<Vec<String>>)
    ensures
        contains_sub(keys@, "no identities"@) || keys@.len() == 0 ==> r is None,
        !(contains_sub(keys@, "no identities"@) || keys@.len() == 0) ==> (r matches Some(v)
            && v@.map_values(|s: String| s@) == crate::text::lines(keys@)),
{
    let c = chars_of(keys);
    if str_contains(keys, "no identities") || c.len() == 0 {
        return None;
    }
    let ls = crate::text::lines_of(c.as_slice());
    let mut out: Vec<String> = Vec::new();
    let mut i: usize = 0;
    while i < ls.len()
        invariant
            i <= ls@.len(),
            out@.map_values(|s: String| s@) == crate::text::views(ls@).take(i as int),
        decreases ls@.len() - i,
    {
        let ghost prev = out@.map_values(|s: String| s@);
        let line = string_of(ls[i].as_slice());
        assert(line@ == crate::text::views(ls@)[i as int]);
        out.push(line);
        assert(out@.map_values(|s: String| s@) =~= prev.push(line@));
        assert(crate::text::views(ls@).take(i + 1) =~= crate::text::views(ls@).take(i as int).push(line@));
        i = i + 1;
    }
    assert(crate::text::views(ls@).take(ls@.len() as int) =~= crate::text::views(ls@));
    Some(out)
}

} // verus!
