//! The application state: profiles, repository mappings, security and bridge state.
use vstd::prelude::*;

use crate::bridge::{BridgeConfig, WatchdogEntry};
use crate::profile::SshProfile;
use crate::repo::RepoMapping;
use crate::security::{SecuritySettings, SecurityState};

verus! {

/// Profiles, the active profile and repository mappings.
#[derive(Debug)]
pub struct AppStateInner {
    pub profiles: Vec<SshProfile>,
    pub active_profile_id: Option<String>,
    pub repo_mappings: Vec<RepoMapping>,
}

/// The state of the running app. Clock readings are milliseconds of a monotonic clock.
#[derive(Debug)]
pub struct AppState {
    pub inner: AppStateInner,
    pub security: SecurityState,
    pub bridge: BridgeConfig,
    /// Watchdog tracking per distro name (reset on restart)
    pub relay_watchdog_state: Vec<(String, WatchdogEntry)>,
}

/// The watchdog entry recorded for a distro.
pub open spec fn watchdog_of(t: Seq<(String, WatchdogEntry)>, distro: Seq<char>) -> Option<WatchdogEntry>
    decreases t.len(),
{
    if t.len() == 0 {
        None
    } else if t[0].0@ == distro {
        Some(t[0].1)
    } else {
        watchdog_of(t.drop_first(), distro)
    }
}

impl AppState {
    /// A fresh state: no profiles, unlocked, no PIN, default settings.
    pub fn new(now: u64) -> (r: Self)
        ensures
            r.inner.profiles@.len() == 0,
            r.inner.active_profile_id is None,
            r.inner.repo_mappings@.len() == 0,
            !r.security.is_locked && !r.security.pin_is_set,
            r.security.last_activity == now,
            r.security.agent_activated_at is None,
            r.security.failed_pin_attempts == 0,
            r.security.last_failed_attempt is None,
            r.security.settings == (SecuritySettings {
                auto_lock_timeout_minutes: None,
                agent_key_timeout_minutes: None,
                lock_on_minimize: false,
                vault_unlock_mode: crate::security::VaultUnlockMode::SameAsPin,
                agent_mode: crate::security::AgentMode::FileSystem,
            }),
            r.bridge.distros@.len() == 0,
            r.relay_watchdog_state@.len() == 0,
    {
        AppState {
            inner: AppStateInner { profiles: Vec::new(), active_profile_id: None, repo_mappings: Vec::new() },
            security: SecurityState {
                is_locked: false,
                pin_is_set: false,
                last_activity: now,
                agent_activated_at: None,
                settings: SecuritySettings::default(),
                failed_pin_attempts: 0,
                last_failed_attempt: None,
            },
            bridge: BridgeConfig { distros: Vec::new() },
            relay_watchdog_state: Vec::new(),
        }
    }

    /// The state at start-up from what was persisted; it starts locked when a PIN is set.
    pub fn from_persisted(
        profiles: Vec<SshProfile>,
        active_profile_id: Option<String>,
        repo_mappings: Vec<RepoMapping>,
        settings: SecuritySettings,
        pin_is_set: bool,
        bridge_config: BridgeConfig,
        now: u64,
    ) -> (r: Self)
        ensures
            r.inner.profiles@ == profiles@,
            r.inner.active_profile_id == active_profile_id,
            r.inner.repo_mappings@ == repo_mappings@,
            r.security == (SecurityState {
                is_locked: pin_is_set,
                pin_is_set,
                last_activity: now,
                agent_activated_at: None,
                settings,
                failed_pin_attempts: 0,
                last_failed_attempt: None,
            }),
            r.bridge == bridge_config,
            r.relay_watchdog_state@.len() == 0,
    {
        AppState {
            inner: AppStateInner { profiles, active_profile_id, repo_mappings },
            security: SecurityState {
                is_locked: pin_is_set,
                pin_is_set,
                last_activity: now,
                agent_activated_at: None,
                settings,
                failed_pin_attempts: 0,
                last_failed_attempt: None,
            },
            bridge: bridge_config,
            relay_watchdog_state: Vec::new(),
        }
    }

    /// The watchdog entry of a distro, if it was polled before.
    pub fn watchdog_entry(&self, distro: &str) -> (r: Option<WatchdogEntry>)
        ensures
            r == watchdog_of(self.relay_watchdog_state@, distro@),
    {
        let t = &self.relay_watchdog_state;
        let d = distro.to_string();
        let mut i: usize = 0;
        assert(t@.skip(0) == t@);
        while i < t.len()
            invariant
                i <= t@.len(),
                d@ == distro@,
                t@ == self.relay_watchdog_state@,
                watchdog_of(t@, distro@) == watchdog_of(t@.skip(i as int), distro@),
            decreases t@.len() - i,
        {
            assert(t@.skip(i as int)[0] == t@[i as int]);
            assert(t@.skip(i as int).drop_first() == t@.skip(i as int + 1));
            if t[i].0 == d {
                assert(watchdog_of(t@.skip(i as int), distro@) == Some(t@[i as int].1));
                return Some(t[i].1);
            }
            i = i + 1;
        }
        None
    }

    /// Records the watchdog entry of a distro, replacing the one it had.
    pub fn set_watchdog_entry(&mut self, distro: &str, entry: WatchdogEntry)
        ensures
            watchdog_of(final(self).relay_watchdog_state@, distro@) == Some(entry),
            forall|other: Seq<char>|
                other != distro@ ==> watchdog_of(final(self).relay_watchdog_state@, other)
                    == watchdog_of(old(self).relay_watchdog_state@, other),
            final(self).inner == old(self).inner,
            final(self).security == old(self).security,
            final(self).bridge == old(self).bridge,
    {
        let d = distro.to_string();
        let mut i: usize = 0;
        while i < self.relay_watchdog_state.len()
            invariant
                i <= self.relay_watchdog_state@.len(),
                self.relay_watchdog_state@ == old(self).relay_watchdog_state@,
                *self == *old(self),
                d@ == distro@,
                forall|j: int| 0 <= j < i ==> (#[trigger] self.relay_watchdog_state@[j]).0@ != distro@,
            decreases self.relay_watchdog_state@.len() - i,
        {
            if self.relay_watchdog_state[i].0 == d {
                proof {
                    lemma_watchdog_replace(self.relay_watchdog_state@, i as int, d, entry);
                }
                self.relay_watchdog_state.set(i, (d, entry));
                return;
            }
            i = i + 1;
        }
        proof {
            lemma_watchdog_push(self.relay_watchdog_state@, d, entry);
        }
        self.relay_watchdog_state.push((d, entry));
    }
}

proof fn lemma_watchdog_replace(t: Seq<(String, WatchdogEntry)>, i: int, key: String, e: WatchdogEntry)
    requires
        0 <= i < t.len(),
        t[i].0@ == key@,
        forall|j: int| 0 <= j < i ==> (#[trigger] t[j]).0@ != key@,
    ensures
        watchdog_of(t.update(i, (key, e)), key@) == Some(e),
        forall|x: Seq<char>|
            x != key@ ==> watchdog_of(t.update(i, (key, e)), x) == watchdog_of(t, x),
    decreases i,
{
    let u = t.update(i, (key, e));
    if i == 0 {
        assert(u.drop_first() =~= t.drop_first());
        assert forall|x: Seq<char>| x != key@ implies watchdog_of(u, x) == watchdog_of(t, x) by {
            assert(u[0].0@ == key@);
        }
    } else {
        assert(u.drop_first() =~= t.drop_first().update(i - 1, (key, e)));
        assert forall|j: int| 0 <= j < i - 1 implies (#[trigger] t.drop_first()[j]).0@ != key@ by {
            assert(t.drop_first()[j] == t[j + 1]);
        }
        lemma_watchdog_replace(t.drop_first(), i - 1, key, e);
        assert(t[0].0@ != key@);
        assert(u[0] == t[0]);
        assert forall|x: Seq<char>| x != key@ implies watchdog_of(u, x) == watchdog_of(t, x) by {
            assert(u.len() > 0 && t.len() > 0);
            if t[0].0@ == x {
                assert(watchdog_of(u, x) == Some(u[0].1));
                assert(watchdog_of(t, x) == Some(t[0].1));
            } else {
                assert(watchdog_of(u, x) == watchdog_of(u.drop_first(), x));
                assert(watchdog_of(t, x) == watchdog_of(t.drop_first(), x));
                assert(watchdog_of(t.drop_first().update(i - 1, (key, e)), x) == watchdog_of(
                    t.drop_first(),
                    x,
                ));
            }
        }
    }
}

proof fn lemma_watchdog_push(t: Seq<(String, WatchdogEntry)>, key: String, e: WatchdogEntry)
    requires
        forall|j: int| 0 <= j < t.len() ==> (#[trigger] t[j]).0@ != key@,
    ensures
        watchdog_of(t.push((key, e)), key@) == Some(e),
        forall|x: Seq<char>| x != key@ ==> watchdog_of(t.push((key, e)), x) == watchdog_of(t, x),
    decreases t.len(),
{
    let u = t.push((key, e));
    if t.len() > 0 {
        assert(u.drop_first() =~= t.drop_first().push((key, e)));
        assert forall|j: int| 0 <= j < t.drop_first().len() implies (#[trigger] t.drop_first()[j]).0@ != key@ by {
            assert(t.drop_first()[j] == t[j + 1]);
        }
        lemma_watchdog_push(t.drop_first(), key, e);
        assert(t[0].0@ != key@);
        assert(u[0] == t[0]);
        assert forall|x: Seq<char>| x != key@ implies watchdog_of(u, x) == watchdog_of(t, x) by {
            assert(u.len() > 0 && t.len() > 0);
            if t[0].0@ == x {
                assert(watchdog_of(u, x) == Some(u[0].1));
                assert(watchdog_of(t, x) == Some(t[0].1));
            } else {
                assert(watchdog_of(u, x) == watchdog_of(u.drop_first(), x));
                assert(watchdog_of(t, x) == watchdog_of(t.drop_first(), x));
                assert(watchdog_of(t.drop_first().push((key, e)), x) == watchdog_of(
                    t.drop_first(),
                    x,
                ));
            }
        }
    } else {
        assert(u.drop_first() =~= Seq::<(String, WatchdogEntry)>::empty());
        assert forall|x: Seq<char>| x != key@ implies watchdog_of(u, x) == watchdog_of(t, x) by {
            assert(u[0].0@ == key@);
            assert(watchdog_of(u.drop_first(), x) is None);
        }
    }
}

} // verus!
