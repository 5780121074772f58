//! Security state: the lock, PIN attempt limiting, inactivity auto-lock and agent
//! key expiry. Clock readings are milliseconds of a monotonic clock, supplied by
//! the caller.
use vstd::prelude::*;

use crate::error::MazeSshError;
use crate::text::{decimal, push_decimal};

verus! {

/// How the vault is unlocked.
#[derive(Debug, Clone, Copy, PartialEq, Eq, Structural)]
pub enum VaultUnlockMode {
    /// Use the app PIN to derive the vault master key (default)
    SameAsPin,
    /// Use a separate vault-specific passphrase
    SeparatePassphrase,
}

impl Default for VaultUnlockMode {
    fn default() -> (r: Self)
        ensures
            r == VaultUnlockMode::SameAsPin,
    {
        VaultUnlockMode::SameAsPin
    }
}

/// Which SSH agent backend the app uses.
#[derive(Debug, Clone, Copy, PartialEq, Eq, Structural)]
pub enum AgentMode {
    /// Keys live on disk, loaded via ssh-add
    FileSystem,
    /// Keys encrypted in the vault, decrypted on demand
    Vault,
}

impl Default for AgentMode {
    fn default() -> (r: Self)
        ensures
            r == AgentMode::FileSystem,
    {
        AgentMode::FileSystem
    }
}

#[derive(Debug, Clone, Copy, PartialEq, Eq, Structural)]
pub struct SecuritySettings {
    pub auto_lock_timeout_minutes: Option<u16>,
    pub agent_key_timeout_minutes: Option<u16>,
    pub lock_on_minimize: bool,
    pub vault_unlock_mode: VaultUnlockMode,
    pub agent_mode: AgentMode,
}

impl Default for SecuritySettings {
    fn default() -> (r: Self)
        ensures
            r == (SecuritySettings {
                auto_lock_timeout_minutes: None,
                agent_key_timeout_minutes: None,
                lock_on_minimize: false,
                vault_unlock_mode: VaultUnlockMode::SameAsPin,
                agent_mode: AgentMode::FileSystem,
            }),
    {
        SecuritySettings {
            auto_lock_timeout_minutes: None,
            agent_key_timeout_minutes: None,
            lock_on_minimize: false,
            vault_unlock_mode: VaultUnlockMode::default(),
            agent_mode: AgentMode::default(),
        }
    }
}

/// One line of the audit log.
#[derive(Debug, Clone, Default)]
pub struct AuditEntry {
    pub timestamp: String,
    pub action: String,
    pub profile_name: Option<String>,
    pub result: String,
    /// WSL distro name (for bridge operations)
    pub distro: Option<String>,
    /// Provider display name (for bridge operations)
    pub provider: Option<String>,
}

#[derive(Debug, Clone, Copy, PartialEq, Eq, Structural)]
pub struct LockStateResponse {
    pub is_locked: bool,
    pub pin_is_set: bool,
}

/// The lock and timing state of the app.
#[derive(Debug, Clone, Copy, PartialEq, Eq, Structural)]
pub struct SecurityState {
    pub is_locked: bool,
    pub pin_is_set: bool,
    /// Clock reading of the last user activity
    pub last_activity: u64,
    /// Clock reading of the moment the agent keys were loaded
    pub agent_activated_at: Option<u64>,
    pub settings: SecuritySettings,
    pub failed_pin_attempts: u32,
    /// Clock reading of the last failed PIN attempt
    pub last_failed_attempt: Option<u64>,
}

/// Failed attempts after which the PIN is refused for a while.
pub const MAX_PIN_ATTEMPTS: u32 = 5;

/// How long the PIN is refused after too many failures, in seconds.
pub const LOCKOUT_SECONDS: u64 = 60;

/// Whole seconds from `from` to `now` (zero if the clock reads earlier).
pub open spec fn elapsed_secs(from: u64, now: u64) -> nat {
    if now >= from {
        ((now - from) / 1000) as nat
    } else {
        0
    }
}

fn elapsed_seconds(from: u64, now: u64) -> (r: u64)
    ensures
        r == elapsed_secs(from, now),
{
    if now >= from {
        (now - from) / 1000
    } else {
        0
    }
}

/// The state of the lock as the UI sees it.
pub fn get_lock_state(security: &SecurityState) -> (r: LockStateResponse)
    ensures
        r == (LockStateResponse { is_locked: security.is_locked, pin_is_set: security.pin_is_set }),
{
    LockStateResponse { is_locked: security.is_locked, pin_is_set: security.pin_is_set }
}

/// Records user activity at `now`.
pub fn touch_activity(security: &mut SecurityState, now: u64)
    ensures
        *final(security) == (SecurityState { last_activity: now, ..*old(security) }),
{
    security.last_activity = now;
}

/// The guard of every command that needs the app unlocked: refused while locked,
/// otherwise the activity is recorded.
pub fn ensure_unlocked(security: &mut SecurityState, now: u64) -> (r: Result<(), MazeSshError>)
    ensures
        old(security).is_locked ==> (r matches Err(MazeSshError::AppLocked)),
        old(security).is_locked ==> *final(security) == *old(security),
        !old(security).is_locked ==> r is Ok,
        !old(security).is_locked ==> *final(security) == (SecurityState {
            last_activity: now,
            ..*old(security)
        }),
{
    if security.is_locked {
        return Err(MazeSshError::AppLocked);
    }
    touch_activity(security, now);
    Ok(())
}

/// Whether closing the main window locks the app: when the user asked to lock on
/// minimize, a PIN is set and the app is not locked already.
pub fn lock_on_close(security: &SecurityState) -> (r: bool)
    ensures
        r == (security.settings.lock_on_minimize && security.pin_is_set && !security.is_locked),
{
    security.settings.lock_on_minimize && security.pin_is_set && !security.is_locked
}

/// The security settings; refused while the app is locked.
pub fn get_security_settings(security: &mut SecurityState, now: u64) -> (r: Result<SecuritySettings, MazeSshError>)
    ensures
        old(security).is_locked ==> (r matches Err(MazeSshError::AppLocked)) && *final(security) == *old(security),
        !old(security).is_locked ==> r == Ok::<SecuritySettings, MazeSshError>(old(security).settings)
            && *final(security) == (SecurityState { last_activity: now, ..*old(security) }),
{
    match ensure_unlocked(security, now) {
        Err(e) => Err(e),
        Ok(()) => Ok(security.settings),
    }
}

/// Replaces the security settings; refused while the app is locked.
pub fn update_security_settings(security: &mut SecurityState, settings: SecuritySettings, now: u64) -> (r: Result<
    (),
    MazeSshError,
>)
    ensures
        old(security).is_locked ==> (r matches Err(MazeSshError::AppLocked)) && *final(security) == *old(security),
        !old(security).is_locked ==> r is Ok && *final(security) == (SecurityState {
            last_activity: now,
            settings,
            ..*old(security)
        }),
{
    match ensure_unlocked(security, now) {
        Err(e) => Err(e),
        Ok(()) => {
            security.settings = settings;
            Ok(())
        },
    }
}

/// Seconds of PIN lockout left at `now`, if the PIN is locked out: after
/// `MAX_PIN_ATTEMPTS` failures, for `LOCKOUT_SECONDS` after the last one.
pub open spec fn lockout_left(security: SecurityState, now: u64) -> Option<nat> {
    if security.failed_pin_attempts >= MAX_PIN_ATTEMPTS {
        match security.last_failed_attempt {
            Some(last) => if elapsed_secs(last, now) < LOCKOUT_SECONDS {
                Some((LOCKOUT_SECONDS - elapsed_secs(last, now)) as nat)
            } else {
                None
            },
            None => None,
        }
    } else {
        None
    }
}

/// The check made before a PIN is verified: refused while locked out.
pub fn check_pin_lockout(security: &SecurityState, now: u64) -> (r: Result<(), MazeSshError>)
    ensures
        match lockout_left(*security, now) {
            Some(left) => r matches Err(MazeSshError::SecurityError(m)) && m@
                == "Too many failed attempts. Try again in "@ + decimal(left) + " seconds."@,
            None => r is Ok,
        },
{
    if security.failed_pin_attempts >= MAX_PIN_ATTEMPTS {
        match security.last_failed_attempt {
            Some(last) => {
                let elapsed = elapsed_seconds(last, now);
                if elapsed < LOCKOUT_SECONDS {
                    let remaining = LOCKOUT_SECONDS - elapsed;
                    let mut m = "Too many failed attempts. Try again in ".to_string();
                    push_decimal(&mut m, remaining);
                    m.append(" seconds.");
                    return Err(MazeSshError::SecurityError(m));
                }
            },
            None => {},
        }
    }
    Ok(())
}

/// Records the outcome of a PIN check at `now`. A correct PIN unlocks the app,
/// records activity and clears the failures; a wrong one counts a failure. Returns
/// the audit entry's result text.
pub fn record_pin_attempt(security: &mut SecurityState, valid: bool, now: u64) -> (r: String)
    requires
        old(security).failed_pin_attempts < u32::MAX,
    ensures
        valid ==> *final(security) == (SecurityState {
            is_locked: false,
            last_activity: now,
            failed_pin_attempts: 0,
            last_failed_attempt: None,
            ..*old(security)
        }) && r@ == "success"@,
        !valid ==> *final(security) == (SecurityState {
            failed_pin_attempts: (old(security).failed_pin_attempts + 1) as u32,
            last_failed_attempt: Some(now),
            ..*old(security)
        }) && r@ == "Invalid PIN ("@ + decimal(
            if final(security).failed_pin_attempts < MAX_PIN_ATTEMPTS {
                (MAX_PIN_ATTEMPTS - final(security).failed_pin_attempts) as nat
            } else {
                0
            },
        ) + " attempts remaining)"@,
{
    if valid {
        security.is_locked = false;
        security.last_activity = now;
        security.failed_pin_attempts = 0;
        security.last_failed_attempt = None;
        "success".to_string()
    } else {
        security.failed_pin_attempts = security.failed_pin_attempts + 1;
        security.last_failed_attempt = Some(now);
        let left: u32 = if security.failed_pin_attempts < MAX_PIN_ATTEMPTS {
            MAX_PIN_ATTEMPTS - security.failed_pin_attempts
        } else {
            0
        };
        let mut m = "Invalid PIN (".to_string();
        push_decimal(&mut m, left as u64);
        m.append(" attempts remaining)");
        m
    }
}

/// Five wrong PINs in a row lock PIN entry out for a minute after the last one.
pub proof fn lemma_five_failures_lock_out(s: SecurityState, now: u64)
    requires
        s.failed_pin_attempts >= MAX_PIN_ATTEMPTS,
        s.last_failed_attempt matches Some(last) && last <= now && now - last < 60_000,
    ensures
        lockout_left(s, now) is Some,
{
}

/// Milliseconds in `m` minutes.
pub open spec fn minutes_ms(m: u16) -> nat {
    (m as nat) * 60_000
}

/// Whether the app locks itself for inactivity at `now`: it is unlocked, a PIN is
/// set, a non-zero timeout is configured and at least that long has passed.
pub open spec fn inactivity_lock_due(s: SecurityState, now: u64) -> bool {
    &&& !s.is_locked
    &&& s.pin_is_set
    &&& s.settings.auto_lock_timeout_minutes matches Some(m) && m > 0
    &&& now >= s.last_activity && (now - s.last_activity) as nat >= minutes_ms(s.settings.auto_lock_timeout_minutes->0)
}

/// Locks the app when the inactivity timeout has passed; returns the timeout in
/// minutes when it did.
pub fn check_inactivity_and_lock(security: &mut SecurityState, now: u64) -> (r: Option<u16>)
    ensures
        inactivity_lock_due(*old(security), now) ==> r == old(security).settings.auto_lock_timeout_minutes
            && *final(security) == (SecurityState { is_locked: true, ..*old(security) }),
        !inactivity_lock_due(*old(security), now) ==> r is None && *final(security) == *old(security),
        !old(security).pin_is_set ==> r is None && *final(security) == *old(security),
        old(security).is_locked ==> r is None && *final(security) == *old(security),
{
    if security.is_locked || !security.pin_is_set {
        return None;
    }
    let m = match security.settings.auto_lock_timeout_minutes {
        Some(m) => m,
        None => {
            return None;
        },
    };
    if m == 0 {
        return None;
    }
    if now >= security.last_activity && now - security.last_activity >= (m as u64) * 60_000 {
        security.is_locked = true;
        Some(m)
    } else {
        None
    }
}

/// The inactivity lock needs a PIN to unlock with and an unlocked app: without a PIN
/// set, or while already locked, checking for inactivity never locks. When it does
/// lock, a positive timeout is configured and at least that many minutes have passed
/// since the last activity.
pub proof fn lemma_inactivity_lock_needs_pin(s: SecurityState, now: u64)
    ensures
        !s.pin_is_set ==> !inactivity_lock_due(s, now),
        s.is_locked ==> !inactivity_lock_due(s, now),
        inactivity_lock_due(s, now) ==> s.pin_is_set && !s.is_locked
            && (s.settings.auto_lock_timeout_minutes matches Some(m) && m > 0
            && now - s.last_activity >= (m as int) * 60_000),
        s.pin_is_set && !s.is_locked && now >= s.last_activity && (
        s.settings.auto_lock_timeout_minutes matches Some(m) && m > 0 && now - s.last_activity >= (m as int)
            * 60_000) ==> inactivity_lock_due(s, now),
{
}

/// Whether the agent keys expire at `now`: a non-zero key timeout is configured,
/// keys were loaded, and at least that long has passed.
pub open spec fn agent_expiry_due(s: SecurityState, now: u64) -> bool {
    &&& s.settings.agent_key_timeout_minutes matches Some(m) && m > 0
    &&& s.agent_activated_at matches Some(at) && now >= at && (now - at) as nat >= minutes_ms(
        s.settings.agent_key_timeout_minutes->0,
    )
}

/// Forgets the loaded agent keys when their timeout has passed; returns the timeout
/// in minutes when it did (the caller then clears the agent and the active profile).
pub fn check_agent_expiry(security: &mut SecurityState, now: u64) -> (r: Option<u16>)
    ensures
        agent_expiry_due(*old(security), now) ==> r == old(security).settings.agent_key_timeout_minutes
            && *final(security) == (SecurityState { agent_activated_at: None, ..*old(security) }),
        !agent_expiry_due(*old(security), now) ==> r is None && *final(security) == *old(security),
{
    let m = match security.settings.agent_key_timeout_minutes {
        Some(m) => m,
        None => {
            return None;
        },
    };
    if m == 0 {
        return None;
    }
    let at = match security.agent_activated_at {
        Some(t) => t,
        None => {
            return None;
        },
    };
    if now >= at && now - at >= (m as u64) * 60_000 {
        security.agent_activated_at = None;
        Some(m)
    } else {
        None
    }
}

/// Seconds until the agent keys expire, if a key timeout is set and keys are loaded.
pub open spec fn time_remaining(s: SecurityState, now: u64) -> Option<nat> {
    match (s.settings.agent_key_timeout_minutes, s.agent_activated_at) {
        (Some(m), Some(at)) => {
            let elapsed: nat = if now >= at {
                (now - at) as nat
            } else {
                0
            };
            if elapsed >= minutes_ms(m) {
                Some(0)
            } else {
                Some(((minutes_ms(m) - elapsed) / 1000) as nat)
            }
        },
        _ => None,
    }
}

pub fn get_agent_time_remaining(security: &SecurityState, now: u64) -> (r: Option<u64>)
    ensures
        match time_remaining(*security, now) {
            Some(x) => r == Some(x as u64),
            None => r is None,
        },
{
    let m = match security.settings.agent_key_timeout_minutes {
        Some(m) => m,
        None => {
            return None;
        },
    };
    let at = match security.agent_activated_at {
        Some(t) => t,
        None => {
            return None;
        },
    };
    let total: u64 = (m as u64) * 60_000;
    let elapsed: u64 = if now >= at {
        now - at
    } else {
        0
    };
    if elapsed >= total {
        Some(0)
    } else {
        Some((total - elapsed) / 1000)
    }
}

} // verus!
