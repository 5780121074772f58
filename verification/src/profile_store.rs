//! The profile commands: listing, reading, creating, updating and deleting the
//! profiles held in the app state. Each is refused while the app is locked.
use vstd::prelude::*;

use crate::error::MazeSshError;
use crate::profile::{
    find_profile, lemma_profile_index, profile_index, CreateProfileInput, ProfileSummary, SshProfile,
    UpdateProfileInput,
};
use crate::repo::{lookup_mapping, mapping_for, RepoMapping};
use crate::security::{ensure_unlocked, SecurityState};
use crate::state::AppStateInner;

verus! {

impl SshProfile {
    /// A copy of the profile.
    pub fn duplicate(&self) -> (r: Self)
        ensures
            r == *self,
    {
        SshProfile {
            id: self.id.clone(),
            name: self.name.clone(),
            provider: self.provider.duplicate(),
            email: self.email.clone(),
            git_username: self.git_username.clone(),
            private_key_path: self.private_key_path.clone(),
            public_key_path: self.public_key_path.clone(),
            host_alias: self.host_alias.clone(),
            hostname: self.hostname.clone(),
            port: self.port,
            ssh_user: match &self.ssh_user {
                Some(u) => Some(u.clone()),
                None => None,
            },
            has_passphrase: self.has_passphrase,
            created_at: self.created_at.clone(),
            updated_at: self.updated_at.clone(),
            vault_key_id: match &self.vault_key_id {
                Some(k) => Some(k.clone()),
                None => None,
            },
        }
    }
}

impl RepoMapping {
    /// A copy of the mapping.
    pub fn duplicate(&self) -> (r: Self)
        ensures
            r == *self,
    {
        RepoMapping { id: self.id.clone(), repo_path: self.repo_path.clone(), profile_id: self.profile_id.clone() }
    }
}

/// Whether `s` is the summary of `p` when `active` is the active profile id.
pub open spec fn summarizes(s: ProfileSummary, p: SshProfile, active: Option<String>) -> bool {
    &&& s.id@ == p.id@
    &&& s.name@ == p.name@
    &&& s.provider == p.provider
    &&& s.email@ == p.email@
    &&& s.is_active == (match active {
        Some(a) => a@ == p.id@,
        None => false,
    })
}

/// The summaries of all profiles, in order, each marked active when it is the
/// active profile.
pub fn get_profiles(inner: &AppStateInner, security: &mut SecurityState, now: u64) -> (r: Result<
    Vec<ProfileSummary>,
    MazeSshError,
>)
    ensures
        old(security).is_locked ==> (r matches Err(MazeSshError::AppLocked)) && *final(security) == *old(security),
        !old(security).is_locked ==> *final(security) == (SecurityState { last_activity: now, ..*old(security) }),
        !old(security).is_locked ==> (r matches Ok(v) && v@.len() == inner.profiles@.len() && forall|i: int|
            0 <= i < v@.len() ==> summarizes(#[trigger] v@[i], inner.profiles@[i], inner.active_profile_id)),
{
    match ensure_unlocked(security, now) {
        Err(e) => return Err(e),
        Ok(()) => {},
    }
    let mut out: Vec<ProfileSummary> = Vec::new();
    let mut i: usize = 0;
    while i < inner.profiles.len()
        invariant
            i <= inner.profiles@.len(),
            out@.len() == i,
            forall|j: int| 0 <= j < i ==> summarizes(#[trigger] out@[j], inner.profiles@[j], inner.active_profile_id),
        decreases inner.profiles@.len() - i,
    {
        let s = ProfileSummary::from_profile(&inner.profiles[i], &inner.active_profile_id);
        out.push(s);
        i = i + 1;
    }
    Ok(out)
}

/// The profile with id `id`, `ProfileNotFound` when there is none.
pub fn get_profile(inner: &AppStateInner, security: &mut SecurityState, id: &str, now: u64) -> (r: Result<
    SshProfile,
    MazeSshError,
>)
    ensures
        old(security).is_locked ==> (r matches Err(MazeSshError::AppLocked)) && *final(security) == *old(security),
        !old(security).is_locked ==> *final(security) == (SecurityState { last_activity: now, ..*old(security) }),
        !old(security).is_locked ==> match profile_index(inner.profiles@, id@) {
            None => r matches Err(MazeSshError::ProfileNotFound(m)) && m@ == id@,
            Some(k) => r == Ok::<SshProfile, MazeSshError>(inner.profiles@[k]),
        },
{
    match ensure_unlocked(security, now) {
        Err(e) => return Err(e),
        Ok(()) => {},
    }
    match find_profile(inner.profiles.as_slice(), id) {
        None => Err(MazeSshError::ProfileNotFound(id.to_string())),
        Some(k) => {
            proof {
                lemma_profile_index(inner.profiles@, id@);
            }
            Ok(inner.profiles[k].duplicate())
        },
    }
}

/// The profile made from `input`, with the given id and time stamps: the public
/// key is the private key's path with `.pub` added, and no vault key is linked.
pub open spec fn created_from(p: SshProfile, input: CreateProfileInput) -> bool {
    &&& p.name == input.name && p.provider == input.provider && p.email == input.email
    &&& p.git_username == input.git_username && p.private_key_path == input.private_key_path
    &&& p.public_key_path@ == input.private_key_path@ + ".pub"@
    &&& p.host_alias == input.host_alias && p.hostname == input.hostname
    &&& p.port == input.port && p.ssh_user == input.ssh_user
    &&& p.has_passphrase == input.has_passphrase
    &&& p.created_at == p.updated_at
    &&& p.vault_key_id is None
}

/// Adds a profile made from `input`, with a fresh id and the current time as both
/// time stamps. `key_exists` tells whether the private key file exists; when it
/// does not, the profile is refused with `KeyNotFound` and the key's path.
pub fn create_profile(
    inner: &mut AppStateInner,
    security: &mut SecurityState,
    input: CreateProfileInput,
    key_exists: bool,
    now: u64,
) -> (r: Result<SshProfile, MazeSshError>)
    ensures
        old(security).is_locked ==> (r matches Err(MazeSshError::AppLocked)) && *final(security) == *old(security),
        !old(security).is_locked ==> *final(security) == (SecurityState { last_activity: now, ..*old(security) }),
        old(security).is_locked || !key_exists ==> *final(inner) == *old(inner),
        !old(security).is_locked && !key_exists ==> (r matches Err(MazeSshError::KeyNotFound(m))
            && m@ == input.private_key_path@),
        !old(security).is_locked && key_exists ==> (r matches Ok(p) && created_from(p, input)
            && final(inner).profiles@ == old(inner).profiles@.push(p)
            && final(inner).active_profile_id == old(inner).active_profile_id
            && final(inner).repo_mappings == old(inner).repo_mappings),
{
    match ensure_unlocked(security, now) {
        Err(e) => return Err(e),
        Ok(()) => {},
    }
    if !key_exists {
        return Err(MazeSshError::KeyNotFound(input.private_key_path));
    }
    let mut public_key_path = input.private_key_path.clone();
    public_key_path.append(".pub");
    let stamp = crate::profile::rfc3339_now();
    let profile = SshProfile {
        id: crate::vault::fresh_key_id(),
        name: input.name,
        provider: input.provider,
        email: input.email,
        git_username: input.git_username,
        private_key_path: input.private_key_path,
        public_key_path,
        host_alias: input.host_alias,
        hostname: input.hostname,
        port: input.port,
        ssh_user: input.ssh_user,
        has_passphrase: input.has_passphrase,
        created_at: stamp.clone(),
        updated_at: stamp,
        vault_key_id: None,
    };
    inner.profiles.push(profile.duplicate());
    Ok(profile)
}

/// `p` with each field that `input` sets replaced, and `updated_at` as its new
/// modification time.
pub open spec fn patched(p: SshProfile, input: UpdateProfileInput, updated_at: String) -> SshProfile {
    SshProfile {
        name: match input.name {
            Some(n) => n,
            None => p.name,
        },
        provider: match input.provider {
            Some(v) => v,
            None => p.provider,
        },
        email: match input.email {
            Some(v) => v,
            None => p.email,
        },
        git_username: match input.git_username {
            Some(v) => v,
            None => p.git_username,
        },
        host_alias: match input.host_alias {
            Some(v) => v,
            None => p.host_alias,
        },
        hostname: match input.hostname {
            Some(v) => v,
            None => p.hostname,
        },
        port: match input.port {
            Some(v) => Some(v),
            None => p.port,
        },
        ssh_user: match input.ssh_user {
            Some(v) => Some(v),
            None => p.ssh_user,
        },
        updated_at,
        ..p
    }
}

/// Updates the fields of profile `id` that `input` sets, and stamps it with the
/// current time; `ProfileNotFound` when there is no such profile.
pub fn update_profile(
    inner: &mut AppStateInner,
    security: &mut SecurityState,
    id: &str,
    input: UpdateProfileInput,
    now: u64,
) -> (r: Result<SshProfile, MazeSshError>)
    ensures
        old(security).is_locked ==> (r matches Err(MazeSshError::AppLocked)) && *final(security) == *old(security)
            && *final(inner) == *old(inner),
        !old(security).is_locked ==> *final(security) == (SecurityState { last_activity: now, ..*old(security) }),
        !old(security).is_locked ==> match profile_index(old(inner).profiles@, id@) {
            None => (r matches Err(MazeSshError::ProfileNotFound(m)) && m@ == id@) && *final(inner) == *old(inner),
            Some(k) => r matches Ok(q) && q == patched(old(inner).profiles@[k], input, q.updated_at)
                && final(inner).profiles@ == old(inner).profiles@.update(k, q)
                && final(inner).active_profile_id == old(inner).active_profile_id
                && final(inner).repo_mappings == old(inner).repo_mappings,
        },
{
    match ensure_unlocked(security, now) {
        Err(e) => return Err(e),
        Ok(()) => {},
    }
    match find_profile(inner.profiles.as_slice(), id) {
        None => Err(MazeSshError::ProfileNotFound(id.to_string())),
        Some(k) => {
            proof {
                lemma_profile_index(inner.profiles@, id@);
            }
            let p = &inner.profiles[k];
            let stamp = crate::profile::rfc3339_now();
            let q = SshProfile {
                id: p.id.clone(),
                name: match input.name {
                    Some(n) => n,
                    None => p.name.clone(),
                },
                provider: match input.provider {
                    Some(v) => v,
                    None => p.provider.duplicate(),
                },
                email: match input.email {
                    Some(v) => v,
                    None => p.email.clone(),
                },
                git_username: match input.git_username {
                    Some(v) => v,
                    None => p.git_username.clone(),
                },
                private_key_path: p.private_key_path.clone(),
                public_key_path: p.public_key_path.clone(),
                host_alias: match input.host_alias {
                    Some(v) => v,
                    None => p.host_alias.clone(),
                },
                hostname: match input.hostname {
                    Some(v) => v,
                    None => p.hostname.clone(),
                },
                port: match input.port {
                    Some(v) => Some(v),
                    None => p.port,
                },
                ssh_user: match input.ssh_user {
                    Some(v) => Some(v),
                    None => match &p.ssh_user {
                        Some(u) => Some(u.clone()),
                        None => None,
                    },
                },
                has_passphrase: p.has_passphrase,
                created_at: p.created_at.clone(),
                updated_at: stamp,
                vault_key_id: match &p.vault_key_id {
                    Some(v) => Some(v.clone()),
                    None => None,
                },
            };
            inner.profiles.set(k, q.duplicate());
            Ok(q)
        },
    }
}

/// The mappings that do not point at profile `id`, in order.
pub open spec fn mappings_without(ms: Seq<RepoMapping>, id: Seq<char>) -> Seq<RepoMapping>
    decreases ms.len(),
{
    if ms.len() == 0 {
        Seq::empty()
    } else if ms.last().profile_id@ == id {
        mappings_without(ms.drop_last(), id)
    } else {
        mappings_without(ms.drop_last(), id).push(ms.last())
    }
}

/// What a deletion changed besides the profile list, for the caller to persist.
#[derive(Debug, Clone, Copy, PartialEq, Eq, Structural)]
pub struct ProfileDeletion {
    /// The deleted profile was the active one, which is now cleared
    pub active_cleared: bool,
    /// Repository mappings of the profile were removed
    pub mappings_removed: bool,
}

/// Deletes profile `id`; clears the active profile when it was this one and
/// removes the repository mappings that point at it. `ProfileNotFound` when there
/// is no such profile.
pub fn delete_profile(inner: &mut AppStateInner, security: &mut SecurityState, id: &str, now: u64) -> (r: Result<
    ProfileDeletion,
    MazeSshError,
>)
    ensures
        old(security).is_locked ==> (r matches Err(MazeSshError::AppLocked)) && *final(security) == *old(security)
            && *final(inner) == *old(inner),
        !old(security).is_locked ==> *final(security) == (SecurityState { last_activity: now, ..*old(security) }),
        !old(security).is_locked ==> match profile_index(old(inner).profiles@, id@) {
            None => (r matches Err(MazeSshError::ProfileNotFound(m)) && m@ == id@) && *final(inner) == *old(inner),
            Some(k) => r matches Ok(d) && final(inner).profiles@ == old(inner).profiles@.remove(k)
                && d.active_cleared == (old(inner).active_profile_id matches Some(a) && a@ == id@)
                && (if d.active_cleared {
                    final(inner).active_profile_id is None
                } else {
                    final(inner).active_profile_id == old(inner).active_profile_id
                })
                && final(inner).repo_mappings@ == mappings_without(old(inner).repo_mappings@, id@)
                && d.mappings_removed == (exists|j: int| 0 <= j < old(inner).repo_mappings@.len()
                    && (#[trigger] old(inner).repo_mappings@[j]).profile_id@ == id@),
        },
{
    match ensure_unlocked(security, now) {
        Err(e) => return Err(e),
        Ok(()) => {},
    }
    let k = match find_profile(inner.profiles.as_slice(), id) {
        None => return Err(MazeSshError::ProfileNotFound(id.to_string())),
        Some(k) => k,
    };
    proof {
        lemma_profile_index(inner.profiles@, id@);
    }
    inner.profiles.remove(k);
    let target = id.to_string();
    let active_cleared = match &inner.active_profile_id {
        Some(a) => *a == target,
        None => false,
    };
    if active_cleared {
        inner.active_profile_id = None;
    }
    let ghost ms = inner.repo_mappings@;
    let mut kept: Vec<RepoMapping> = Vec::new();
    let mut removed = false;
    let mut i: usize = 0;
    while i < inner.repo_mappings.len()
        invariant
            i <= ms.len(),
            inner.repo_mappings@ == ms,
            target@ == id@,
            kept@ == mappings_without(ms.take(i as int), id@),
            removed == (exists|j: int| 0 <= j < i && (#[trigger] ms[j]).profile_id@ == id@),
        decreases ms.len() - i,
    {
        assert(ms.take(i as int + 1).drop_last() =~= ms.take(i as int));
        let m = &inner.repo_mappings[i];
        if m.profile_id == target {
            removed = true;
        } else {
            kept.push(m.duplicate());
        }
        i = i + 1;
        assert(removed == (exists|j: int| 0 <= j < i && (#[trigger] ms[j]).profile_id@ == id@)) by {
            if ms[i - 1].profile_id@ == id@ {
                assert(0 <= i - 1 < i && ms[i - 1].profile_id@ == id@);
            }
        }
    }
    assert(ms.take(ms.len() as int) =~= ms);
    inner.repo_mappings = kept;
    Ok(ProfileDeletion { active_cleared, mappings_removed: removed })
}

// ── Repository mappings ──

/// Maps the repository at `repo_path` to profile `profile_id`. The caller has
/// looked at the file system: `path_exists` tells whether `repo_path` exists, and
/// `git_root` is the normalized root of the git repository that holds it, if any.
/// Refused when the path is missing (`IoError`), not in a repository
/// (`NotAGitRepo`), the profile is unknown (`ProfileNotFound`), or the root is
/// already mapped, comparing paths without regard to case (`DuplicateMapping`).
pub fn create_repo_mapping(
    inner: &mut AppStateInner,
    security: &mut SecurityState,
    repo_path: &str,
    path_exists: bool,
    git_root: Option<String>,
    profile_id: &str,
    now: u64,
) -> (r: Result<RepoMapping, MazeSshError>)
    ensures
        old(security).is_locked ==> (r matches Err(MazeSshError::AppLocked)) && *final(security) == *old(security),
        !old(security).is_locked ==> *final(security) == (SecurityState { last_activity: now, ..*old(security) }),
        r is Err ==> *final(inner) == *old(inner),
        !old(security).is_locked ==> if !path_exists {
            r matches Err(MazeSshError::IoError(m)) && m@ == "Path does not exist: "@ + repo_path@
        } else {
            match git_root {
                None => r matches Err(MazeSshError::NotAGitRepo(m)) && m@ == repo_path@,
                Some(root) => if profile_index(old(inner).profiles@, profile_id@) is None {
                    r matches Err(MazeSshError::ProfileNotFound(m)) && m@ == profile_id@
                } else if mapping_for(old(inner).repo_mappings@, root@) is Some {
                    r matches Err(MazeSshError::DuplicateMapping(m)) && m@ == root@
                } else {
                    r matches Ok(mp) && mp.repo_path@ == root@ && mp.profile_id@ == profile_id@
                        && final(inner).repo_mappings@ == old(inner).repo_mappings@.push(mp)
                        && final(inner).profiles == old(inner).profiles
                        && final(inner).active_profile_id == old(inner).active_profile_id
                },
            }
        },
{
    match ensure_unlocked(security, now) {
        Err(e) => return Err(e),
        Ok(()) => {},
    }
    if !path_exists {
        let mut m = "Path does not exist: ".to_string();
        m.append(repo_path);
        return Err(MazeSshError::IoError(m));
    }
    let root = match git_root {
        None => return Err(MazeSshError::NotAGitRepo(repo_path.to_string())),
        Some(root) => root,
    };
    if find_profile(inner.profiles.as_slice(), profile_id).is_none() {
        return Err(MazeSshError::ProfileNotFound(profile_id.to_string()));
    }
    if lookup_mapping(root.as_str(), inner.repo_mappings.as_slice()).is_some() {
        return Err(MazeSshError::DuplicateMapping(root));
    }
    let mapping = RepoMapping { id: crate::vault::fresh_key_id(), repo_path: root, profile_id: profile_id.to_string() };
    inner.repo_mappings.push(mapping.duplicate());
    Ok(mapping)
}

/// The position of the first mapping with id `id`.
pub open spec fn mapping_index(ms: Seq<RepoMapping>, id: Seq<char>) -> Option<int> {
    if exists|i: int| 0 <= i < ms.len() && (#[trigger] ms[i]).id@ == id {
        Some(choose|i: int| 0 <= i < ms.len() && ms[i].id@ == id && forall|j: int| 0 <= j < i ==> (#[trigger] ms[j]).id@ != id)
    } else {
        None
    }
}

/// Deletes mapping `id`; `RepoMappingNotFound` when there is none.
pub fn delete_repo_mapping(inner: &mut AppStateInner, security: &mut SecurityState, id: &str, now: u64) -> (r: Result<
    (),
    MazeSshError,
>)
    ensures
        old(security).is_locked ==> (r matches Err(MazeSshError::AppLocked)) && *final(security) == *old(security)
            && *final(inner) == *old(inner),
        !old(security).is_locked ==> *final(security) == (SecurityState { last_activity: now, ..*old(security) }),
        !old(security).is_locked ==> match mapping_index(old(inner).repo_mappings@, id@) {
            None => (r matches Err(MazeSshError::RepoMappingNotFound(m)) && m@ == id@) && *final(inner) == *old(inner),
            Some(k) => r is Ok && final(inner).repo_mappings@ == old(inner).repo_mappings@.remove(k)
                && final(inner).profiles == old(inner).profiles
                && final(inner).active_profile_id == old(inner).active_profile_id,
        },
{
    match ensure_unlocked(security, now) {
        Err(e) => return Err(e),
        Ok(()) => {},
    }
    let target = id.to_string();
    let mut i: usize = 0;
    while i < inner.repo_mappings.len()
        invariant
            i <= inner.repo_mappings@.len(),
            target@ == id@,
            *inner == *old(inner),
            !old(security).is_locked,
            *security == (SecurityState { last_activity: now, ..*old(security) }),
            forall|j: int| 0 <= j < i ==> (#[trigger] inner.repo_mappings@[j]).id@ != id@,
        decreases inner.repo_mappings@.len() - i,
    {
        if inner.repo_mappings[i].id == target {
            let ghost ms = inner.repo_mappings@;
            proof {
                let k = choose|k: int| 0 <= k < ms.len() && ms[k].id@ == id@ && forall|j: int| 0 <= j < k ==> (#[trigger] ms[j]).id@ != id@;
                assert(0 <= i < ms.len() && ms[i as int].id@ == id@);
                if k < i {
                    assert(ms[k].id@ != id@);
                } else if k > i {
                    assert(ms[i as int].id@ != id@);
                }
                assert(k == i);
            }
            inner.repo_mappings.remove(i);
            return Ok(());
        }
        i = i + 1;
    }
    Err(MazeSshError::RepoMappingNotFound(id.to_string()))
}

/// The tray icon's tooltip: the name of the profile `profile_id`, or that no
/// profile is active when there is no id or no such profile.
pub fn tray_tooltip(profiles: &[SshProfile], profile_id: Option<&str>) -> (r: String)
    ensures
        r@ == match profile_id {
            None => "Maze SSH - No active profile"@,
            Some(id) => match profile_index(profiles@, id@) {
                None => "Maze SSH - No active profile"@,
                Some(k) => "Maze SSH - "@ + profiles@[k].name@,
            },
        },
{
    match profile_id {
        None => "Maze SSH - No active profile".to_string(),
        Some(id) => match find_profile(profiles, id) {
            None => "Maze SSH - No active profile".to_string(),
            Some(k) => {
                proof {
                    lemma_profile_index(profiles@, id@);
                }
                let mut r = "Maze SSH - ".to_string();
                r.append(profiles[k].name.as_str());
                r
            },
        },
    }
}

} // verus!


