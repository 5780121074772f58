//! SSH profiles: the persisted model, the managed section of `~/.ssh/config`, the
//! `GIT_SSH_COMMAND` environment, and input validation.
use vstd::prelude::*;

use crate::error::MazeSshError;
use crate::text::{
    contains_sub, lemma_first_occurrence, lemma_first_occurrence_found, occurs_at, lowercase, to_lowercase, chars_of, decimal, find_str, first_occurrence, push_char, push_decimal, replace_char,
    replace_char_str, string_of, trim, trim_chars,
};

verus! {

/// The Git hosting provider of a profile.
#[derive(Debug, Clone, PartialEq)]
pub enum Provider {
    GitHub,
    GitLab,
    Gitea,
    Bitbucket,
    Custom(String),
}

/// The text a provider is shown with.
pub open spec fn provider_text(p: Provider) -> Seq<char> {
    match p {
        Provider::GitHub => "github"@,
        Provider::GitLab => "gitlab"@,
        Provider::Gitea => "gitea"@,
        Provider::Bitbucket => "bitbucket"@,
        Provider::Custom(name) => name@,
    }
}

impl Provider {
    /// The text the provider is shown with: its lower-case name, or the custom name.
    pub fn to_text(&self) -> (r: String)
        ensures
            r@ == provider_text(*self),
    {
        match self {
            Provider::GitHub => "github".to_string(),
            Provider::GitLab => "gitlab".to_string(),
            Provider::Gitea => "gitea".to_string(),
            Provider::Bitbucket => "bitbucket".to_string(),
            Provider::Custom(name) => name.clone(),
        }
    }

    /// A copy of the provider.
    pub fn duplicate(&self) -> (r: Self)
        ensures
            r == *self,
    {
        match self {
            Provider::GitHub => Provider::GitHub,
            Provider::GitLab => Provider::GitLab,
            Provider::Gitea => Provider::Gitea,
            Provider::Bitbucket => Provider::Bitbucket,
            Provider::Custom(name) => Provider::Custom(name.clone()),
        }
    }
}

/// An SSH identity profile. Key paths are held as their (lossy) string form.
#[derive(Debug, Clone)]
pub struct SshProfile {
    pub id: String,
    pub name: String,
    pub provider: Provider,
    pub email: String,
    pub git_username: String,
    pub private_key_path: String,
    pub public_key_path: String,
    pub host_alias: String,
    pub hostname: String,
    pub port: Option<u16>,
    pub ssh_user: Option<String>,
    pub has_passphrase: bool,
    pub created_at: String,
    pub updated_at: String,
    /// The vault key ID, when the profile's key is managed by the vault
    pub vault_key_id: Option<String>,
}

pub open spec fn user_or_default(p: SshProfile) -> Seq<char> {
    match p.ssh_user {
        Some(u) => u@,
        None => "git"@,
    }
}

pub open spec fn port_or_default_of(p: SshProfile) -> u16 {
    match p.port {
        Some(x) => x,
        None => 22,
    }
}

impl SshProfile {
    /// The SSH user, `git` when none is set.
    pub fn ssh_user_or_default(&self) -> (r: &str)
        ensures
            r@ == user_or_default(*self),
    {
        match &self.ssh_user {
            Some(u) => u.as_str(),
            None => "git",
        }
    }

    /// The SSH port, 22 when none is set.
    pub fn port_or_default(&self) -> (r: u16)
        ensures
            r == port_or_default_of(*self),
    {
        match self.port {
            Some(x) => x,
            None => 22,
        }
    }
}

/// Index of the first profile with the id `id`.
pub open spec fn profile_index(ps: Seq<SshProfile>, id: Seq<char>) -> Option<int>
    decreases ps.len(),
{
    if ps.len() == 0 {
        None
    } else {
        match profile_index(ps.drop_last(), id) {
            Some(i) => Some(i),
            None => if ps.last().id@ == id {
                Some(ps.len() - 1)
            } else {
                None
            },
        }
    }
}

pub proof fn lemma_profile_index(ps: Seq<SshProfile>, id: Seq<char>)
    ensures
        match profile_index(ps, id) {
            Some(i) => 0 <= i < ps.len() && ps[i].id@ == id && forall|j: int| 0 <= j < i ==> ps[j].id@ != id,
            None => forall|j: int| 0 <= j < ps.len() ==> ps[j].id@ != id,
        },
    decreases ps.len(),
{
    if ps.len() > 0 {
        lemma_profile_index(ps.drop_last(), id);
        assert forall|j: int| 0 <= j < ps.len() - 1 implies ps.drop_last()[j] == ps[j] by {}
    }
}

/// The position of the profile with id `id`, if there is one (the first such).
pub fn find_profile(profiles: &[SshProfile], id: &str) -> (r: Option<usize>)
    ensures
        match r {
            Some(i) => profile_index(profiles@, id@) == Some(i as int),
            None => profile_index(profiles@, id@) is None,
        },
{
    let target = id.to_string();
    let mut i: usize = 0;
    while i < profiles.len()
        invariant
            i <= profiles@.len(),
            target@ == id@,
            forall|j: int| 0 <= j < i ==> profiles@[j].id@ != id@,
        decreases profiles@.len() - i,
    {
        if profiles[i].id == target {
            proof {
                lemma_profile_index(profiles@, id@);
                lemma_profile_index(profiles@.take(i + 1), id@);
                let t = profiles@.take(i + 1);
                assert(t.drop_last() =~= profiles@.take(i as int));
                lemma_profile_index(profiles@.take(i as int), id@);
                assert forall|j: int| 0 <= j < i implies profiles@.take(i as int)[j].id@ != id@ by {}
                lemma_profile_index_prefix(profiles@, i as int + 1, id@);
            }
            return Some(i);
        }
        i = i + 1;
    }
    proof {
        lemma_profile_index(profiles@, id@);
        if profile_index(profiles@, id@) is Some {
            let k = profile_index(profiles@, id@)->0;
            assert(profiles@[k].id@ == id@);
        }
    }
    None
}

/// The position of the first profile named `name`, ignoring case (full Unicode
/// lower-casing of both names).
pub fn find_profile_by_name(profiles: &[SshProfile], name: &str) -> (r: Option<usize>)
    ensures
        match r {
            Some(i) => i < profiles@.len() && lowercase(profiles@[i as int].name@) == lowercase(name@)
                && forall|j: int| 0 <= j < i ==> lowercase(#[trigger] profiles@[j].name@) != lowercase(name@),
            None => forall|j: int| 0 <= j < profiles@.len() ==> lowercase(#[trigger] profiles@[j].name@) != lowercase(name@),
        },
{
    let target = to_lowercase(name);
    let mut i: usize = 0;
    while i < profiles.len()
        invariant
            i <= profiles@.len(),
            target@ == lowercase(name@),
            forall|j: int| 0 <= j < i ==> lowercase(#[trigger] profiles@[j].name@) != lowercase(name@),
        decreases profiles@.len() - i,
    {
        let l = to_lowercase(profiles[i].name.as_str());
        if l == target {
            return Some(i);
        }
        i = i + 1;
    }
    None
}

/// The first match within a prefix is the first match of the whole.
proof fn lemma_profile_index_prefix(ps: Seq<SshProfile>, n: int, id: Seq<char>)
    requires
        0 <= n <= ps.len(),
        profile_index(ps.take(n), id) is Some,
    ensures
        profile_index(ps, id) == profile_index(ps.take(n), id),
    decreases ps.len() - n,
{
    if n < ps.len() {
        assert(ps.take(n + 1).drop_last() =~= ps.take(n));
        lemma_profile_index_prefix(ps, n + 1, id);
    } else {
        assert(ps.take(n) =~= ps);
    }
}

/// What the profile list shows of a profile.
#[derive(Debug, Clone)]
pub struct ProfileSummary {
    pub id: String,
    pub name: String,
    pub provider: Provider,
    pub email: String,
    pub is_active: bool,
}

impl ProfileSummary {
    /// The summary of a profile; it is active when `active_id` is its id.
    pub fn from_profile(profile: &SshProfile, active_id: &Option<String>) -> (r: Self)
        ensures
            r.id@ == profile.id@,
            r.name@ == profile.name@,
            r.provider == profile.provider,
            r.email@ == profile.email@,
            r.is_active == (match active_id {
                Some(a) => a@ == profile.id@,
                None => false,
            }),
    {
        let is_active = match active_id {
            Some(a) => *a == profile.id,
            None => false,
        };
        let provider = match &profile.provider {
            Provider::GitHub => Provider::GitHub,
            Provider::GitLab => Provider::GitLab,
            Provider::Gitea => Provider::Gitea,
            Provider::Bitbucket => Provider::Bitbucket,
            Provider::Custom(n) => Provider::Custom(n.clone()),
        };
        ProfileSummary {
            id: profile.id.clone(),
            name: profile.name.clone(),
            provider,
            email: profile.email.clone(),
            is_active,
        }
    }
}

/// Input for creating a profile.
#[derive(Debug, Clone)]
pub struct CreateProfileInput {
    pub name: String,
    pub provider: Provider,
    pub email: String,
    pub git_username: String,
    pub private_key_path: String,
    pub host_alias: String,
    pub hostname: String,
    pub port: Option<u16>,
    pub ssh_user: Option<String>,
    pub has_passphrase: bool,
}

/// Input for updating a profile; `None` leaves a field as it is.
#[derive(Debug, Clone)]
pub struct UpdateProfileInput {
    pub name: Option<String>,
    pub provider: Option<Provider>,
    pub email: Option<String>,
    pub git_username: Option<String>,
    pub host_alias: Option<String>,
    pub hostname: Option<String>,
    pub port: Option<u16>,
    pub ssh_user: Option<String>,
}

/// A key pair found in `~/.ssh`.
#[derive(Debug, Clone)]
pub struct DetectedKey {
    pub private_key_path: String,
    pub public_key_path: String,
    pub key_type: String,
    pub comment: String,
}

// ── The managed section of ~/.ssh/config ──

pub const BEGIN_MARKER: &'static str = "# === BEGIN MAZE-SSH MANAGED ===";

pub const END_MARKER: &'static str = "# === END MAZE-SSH MANAGED ===";

/// The Host entry of one profile.
pub open spec fn host_entry(p: SshProfile) -> Seq<char> {
    "Host "@ + p.host_alias@ + "\n  HostName "@ + p.hostname@ + "\n  User "@ + user_or_default(p)
        + "\n  IdentityFile "@ + p.private_key_path@ + "\n  IdentitiesOnly yes\n"@ + (match p.port {
        Some(x) => if x != 22 {
            "  Port "@ + decimal(x as nat) + "\n"@
        } else {
            Seq::empty()
        },
        None => Seq::empty(),
    }) + "\n"@
}

pub open spec fn host_entries(ps: Seq<SshProfile>) -> Seq<char>
    decreases ps.len(),
{
    if ps.len() == 0 {
        Seq::empty()
    } else {
        host_entries(ps.drop_last()) + host_entry(ps.last())
    }
}

/// The managed section for a list of profiles.
pub open spec fn config_block(ps: Seq<SshProfile>) -> Seq<char> {
    BEGIN_MARKER@ + "\n# Do not edit this section manually. Managed by Maze SSH.\n\n"@ + host_entries(ps)
        + END_MARKER@ + "\n"@
}

fn push_host_entry(out: &mut String, p: &SshProfile)
    ensures
        final(out)@ == old(out)@ + host_entry(*p),
{
    out.append("Host ");
    out.append(p.host_alias.as_str());
    out.append("\n  HostName ");
    out.append(p.hostname.as_str());
    out.append("\n  User ");
    out.append(p.ssh_user_or_default());
    out.append("\n  IdentityFile ");
    out.append(p.private_key_path.as_str());
    out.append("\n  IdentitiesOnly yes\n");
    match p.port {
        Some(x) => {
            if x != 22 {
                out.append("  Port ");
                push_decimal(out, x as u64);
                out.append("\n");
            }
        },
        None => {},
    }
    out.append("\n");
}

/// The managed `~/.ssh/config` section: a Host entry per profile between the markers.
pub fn generate_config_block(profiles: &[SshProfile]) -> (r: String)
    ensures
        r@ == config_block(profiles@),
{
    let mut config = BEGIN_MARKER.to_string();
    config.append("\n# Do not edit this section manually. Managed by Maze SSH.\n\n");
    let ghost head = config@;
    let mut i: usize = 0;
    assert(profiles@.take(0) =~= Seq::<SshProfile>::empty());
    while i < profiles.len()
        invariant
            i <= profiles@.len(),
            head == BEGIN_MARKER@ + "\n# Do not edit this section manually. Managed by Maze SSH.\n\n"@,
            config@ == head + host_entries(profiles@.take(i as int)),
        decreases profiles@.len() - i,
    {
        push_host_entry(&mut config, &profiles[i]);
        assert(profiles@.take(i + 1).drop_last() =~= profiles@.take(i as int));
        i = i + 1;
    }
    assert(profiles@.take(profiles@.len() as int) =~= profiles@);
    config.append(END_MARKER);
    config.append("\n");
    config
}

/// The managed section as it would be written.
pub fn preview_config(profiles: &[SshProfile]) -> (r: String)
    ensures
        r@ == config_block(profiles@),
{
    generate_config_block(profiles)
}

/// `existing` with its managed section replaced by `block`: from the first begin
/// marker to the first end marker and the newline after it, if both markers occur;
/// otherwise `block` is appended after a blank line.
pub open spec fn managed_replaced(existing: Seq<char>, block: Seq<char>) -> Seq<char> {
    match (first_occurrence(existing, BEGIN_MARKER@), first_occurrence(existing, END_MARKER@)) {
        (Some(b), Some(e)) => {
            let eom = e + END_MARKER@.len();
            let ep = if eom < existing.len() && existing[eom] == '\n' {
                eom + 1
            } else {
                eom
            };
            existing.take(b) + block + existing.skip(ep)
        },
        _ => {
            let r1 = if existing.len() > 0 && existing.last() != '\n' {
                existing.push('\n')
            } else {
                existing
            };
            (if existing.len() > 0 {
                r1.push('\n')
            } else {
                r1
            }) + block
        },
    }
}

/// Writing the managed section keeps the rest of the file: without both markers the
/// whole file is kept and the section follows it; otherwise everything before the
/// begin marker stays in front of the new section, and everything after the end
/// marker's line stays after it.
pub proof fn lemma_managed_section_keeps_rest(existing: Seq<char>, block: Seq<char>)
    ensures
        match (first_occurrence(existing, BEGIN_MARKER@), first_occurrence(existing, END_MARKER@)) {
            (Some(b), Some(e)) => {
                let r = managed_replaced(existing, block);
                &&& existing.take(b).is_prefix_of(r)
                &&& r.subrange(b, b + block.len()) == block
                &&& exists|ep: int| e + END_MARKER@.len() <= ep <= existing.len() && r == existing.take(b) + block + existing.skip(ep)
            },
            _ => {
                let r = managed_replaced(existing, block);
                &&& existing.is_prefix_of(r)
                &&& block.is_suffix_of(r)
            },
        },
{
    let r = managed_replaced(existing, block);
    match (first_occurrence(existing, BEGIN_MARKER@), first_occurrence(existing, END_MARKER@)) {
        (Some(b), Some(e)) => {
            lemma_first_occurrence_found(existing, BEGIN_MARKER@);
            lemma_first_occurrence_found(existing, END_MARKER@);
            let eom = e + END_MARKER@.len();
            let ep = if eom < existing.len() && existing[eom] == '\n' {
                eom + 1
            } else {
                eom
            };
            assert(r == existing.take(b) + block + existing.skip(ep));
            assert(existing.take(b).is_prefix_of(r)) by {
                assert(r.subrange(0, b) =~= existing.take(b));
            }
            assert(r.subrange(b, b + block.len()) =~= block);
        },
        _ => {
            let r1 = if existing.len() > 0 && existing.last() != '\n' {
                existing.push('\n')
            } else {
                existing
            };
            let r2 = if existing.len() > 0 {
                r1.push('\n')
            } else {
                r1
            };
            assert(r == r2 + block);
            assert(existing.is_prefix_of(r)) by {
                assert(r.subrange(0, existing.len() as int) =~= existing);
            }
            assert(block.is_suffix_of(r)) by {
                assert(r.subrange(r.len() - block.len(), r.len() as int) =~= block);
            }
        },
    }
}

/// A managed section as the config generator writes it: it begins with the begin
/// marker, ends with the end marker and a newline, and holds the end marker
/// nowhere before that.
pub open spec fn is_managed_block(block: Seq<char>) -> bool {
    &&& block.len() >= BEGIN_MARKER@.len() + END_MARKER@.len() + 1
    &&& occurs_at(block, BEGIN_MARKER@, 0)
    &&& occurs_at(block, END_MARKER@, block.len() - END_MARKER@.len() - 1)
    &&& block.last() == '\n'
    &&& forall|j: int| 0 <= j < block.len() - END_MARKER@.len() - 1 ==> !occurs_at(block, END_MARKER@, j)
}

/// Whether the managed section of a config file can be told apart: it holds
/// neither marker, or its first begin marker comes before its first end marker.
pub open spec fn markers_in_order(existing: Seq<char>) -> bool {
    match (first_occurrence(existing, BEGIN_MARKER@), first_occurrence(existing, END_MARKER@)) {
        (None, None) => true,
        (Some(b), Some(e)) => b < e,
        _ => false,
    }
}

proof fn lemma_same_prefix_occurs(s: Seq<char>, u: Seq<char>, n: int, t: Seq<char>, i: int)
    requires
        0 <= n <= s.len(),
        n <= u.len(),
        s.take(n) == u.take(n),
        0 <= i,
        i + t.len() <= n,
    ensures
        occurs_at(s, t, i) == occurs_at(u, t, i),
{
    assert(s.subrange(i, i + t.len()) =~= s.take(n).subrange(i, i + t.len()));
    assert(u.subrange(i, i + t.len()) =~= u.take(n).subrange(i, i + t.len()));
}

proof fn lemma_occurs_right(u: Seq<char>, v: Seq<char>, t: Seq<char>, i: int)
    requires
        u.len() <= i,
    ensures
        occurs_at(u + v, t, i) == occurs_at(v, t, i - u.len()),
{
    if i + t.len() <= u.len() + v.len() {
        assert((u + v).subrange(i, i + t.len()) =~= v.subrange(i - u.len(), i - u.len() + t.len()));
    }
}

/// No newline-free text `t` starts before the end of `p` in `p + w` when `p` is
/// `x` followed by newlines only and `t` does not occur in `x`.
proof fn lemma_not_in_padding(x: Seq<char>, p: Seq<char>, w: Seq<char>, t: Seq<char>, j: int)
    requires
        x.len() <= p.len(),
        p.take(x.len() as int) == x,
        forall|k: int| x.len() <= k < p.len() ==> p[k] == '\n',
        x.len() < p.len() || x.len() == 0,
        forall|k: int| 0 <= k < t.len() ==> t[k] != '\n',
        t.len() >= 1,
        !contains_sub(x, t),
        0 <= j < p.len(),
    ensures
        !occurs_at(p + w, t, j),
{
    let s = p + w;
    if occurs_at(s, t, j) {
        if j + t.len() <= x.len() {
            assert(s.take(x.len() as int) =~= x.take(x.len() as int));
            lemma_same_prefix_occurs(s, x, x.len() as int, t, j);
            assert(occurs_at(x, t, j));
        } else {
            let k = if j >= x.len() { j } else { x.len() as int };
            assert(s.subrange(j, j + t.len())[k - j] == s[k]);
            assert(s[k] == p[k]);
        }
    }
}

/// Writing the same managed section twice gives what writing it once gave, for a
/// section as the generator writes it and a file whose markers are in order.
pub proof fn lemma_managed_section_idempotent(existing: Seq<char>, block: Seq<char>)
    requires
        is_managed_block(block),
        markers_in_order(existing),
    ensures
        managed_replaced(managed_replaced(existing, block), block) == managed_replaced(existing, block),
{
    reveal_strlit("# === BEGIN MAZE-SSH MANAGED ===");
    reveal_strlit("# === END MAZE-SSH MANAGED ===");
    let bm = BEGIN_MARKER@;
    let em = END_MARKER@;
    let r = managed_replaced(existing, block);
    let q = block.len() - em.len() - 1;
    lemma_first_occurrence_found(existing, bm);
    lemma_first_occurrence_found(existing, em);
    match (first_occurrence(existing, bm), first_occurrence(existing, em)) {
        (Some(b), Some(e)) => {
            let eom = e + em.len();
            let ep = if eom < existing.len() && existing[eom] == '\n' {
                eom + 1
            } else {
                eom
            };
            assert(r == existing.take(b) + block + existing.skip(ep));
            let n = b + bm.len();
            assert(r.take(n) =~= existing.take(n)) by {
                assert forall|k: int| 0 <= k < n implies r.take(n)[k] == existing.take(n)[k] by {
                    if k >= b {
                        assert(block.subrange(0, bm.len() as int)[k - b] == block[k - b]);
                        assert(existing.subrange(b, b + bm.len())[k - b] == existing[k]);
                    }
                }
            }
            assert forall|j: int| 0 <= j < b implies !occurs_at(r, bm, j) by {
                lemma_same_prefix_occurs(r, existing, n, bm, j);
            }
            lemma_occurs_right(existing.take(b), block + existing.skip(ep), bm, b);
            assert((existing.take(b) + block + existing.skip(ep)) =~= existing.take(b) + (block + existing.skip(ep)));
            assert(occurs_at(block + existing.skip(ep), bm, 0)) by {
                assert((block + existing.skip(ep)).subrange(0, bm.len() as int) =~= block.subrange(0, bm.len() as int));
            }
            lemma_first_occurrence(r, bm, b);
            assert forall|j: int| 0 <= j < b + q implies !occurs_at(r, em, j) by {
                if j < b {
                    lemma_same_prefix_occurs(r, existing, n, em, j);
                    assert(!occurs_at(existing, em, j));
                } else {
                    let w = block + existing.skip(ep);
                    lemma_occurs_right(existing.take(b), w, em, j);
                    assert(!occurs_at(block, em, j - b));
                    assert(w.subrange(j - b, j - b + em.len()) =~= block.subrange(j - b, j - b + em.len()));
                    assert(!occurs_at(w, em, j - b));
                    assert(occurs_at(r, em, j) == occurs_at(w, em, j - b));
                }
            }
            lemma_occurs_right(existing.take(b), block + existing.skip(ep), em, b + q);
            assert((block + existing.skip(ep)).subrange(q, q + em.len()) =~= block.subrange(q, q + em.len()));
            lemma_first_occurrence(r, em, b + q);
            assert(r[b + block.len() - 1] == block.last());
            assert(r.take(b) =~= existing.take(b));
            assert(r.skip(b + block.len()) =~= existing.skip(ep));
        },
        _ => {
            let r1 = if existing.len() > 0 && existing.last() != '\n' {
                existing.push('\n')
            } else {
                existing
            };
            let p = if existing.len() > 0 {
                r1.push('\n')
            } else {
                r1
            };
            assert(r == p + block);
            assert(p.take(existing.len() as int) =~= existing);
            assert forall|j: int| 0 <= j < p.len() implies !occurs_at(p + block, bm, j) && !occurs_at(p + block, em, j) by {
                lemma_not_in_padding(existing, p, block, bm, j);
                lemma_not_in_padding(existing, p, block, em, j);
            }
            lemma_occurs_right(p, block, bm, p.len() as int);
            lemma_first_occurrence(r, bm, p.len() as int);
            assert forall|j: int| 0 <= j < p.len() + q implies !occurs_at(r, em, j) by {
                if j >= p.len() {
                    lemma_occurs_right(p, block, em, j);
                }
            }
            lemma_occurs_right(p, block, em, p.len() + q);
            lemma_first_occurrence(r, em, p.len() + q);
            assert(r[p.len() + block.len() - 1] == block.last());
            assert(r.take(p.len() as int) =~= p);
            assert(r.skip((p.len() + block.len()) as int) =~= Seq::<char>::empty());
        },
    }
}

fn splice(c: &Vec<char>, b: usize, eom: usize, block: &str) -> (r: String)
    requires
        b <= c@.len(),
        eom <= c@.len(),
    ensures
        r@ == c@.take(b as int) + block@ + c@.skip(
            if eom < c@.len() && c@[eom as int] == '\n' {
                eom + 1
            } else {
                eom as int
            },
        ),
{
    let ep = if eom < c.len() && c[eom] == '\n' {
        eom + 1
    } else {
        eom
    };
    let head = vstd::slice::slice_subrange(c.as_slice(), 0, b);
    let mut r = string_of(head);
    r.append(block);
    let tail = string_of(vstd::slice::slice_subrange(c.as_slice(), ep, c.len()));
    r.append(tail.as_str());
    assert(c@.subrange(0, b as int) == c@.take(b as int));
    assert(c@.subrange(ep as int, c@.len() as int) == c@.skip(ep as int));
    r
}

fn append_after_blank(existing: &str, block: &str) -> (r: String)
    ensures
        r@ == (if existing@.len() > 0 {
            (if existing@.last() != '\n' {
                existing@.push('\n')
            } else {
                existing@
            }).push('\n')
        } else {
            existing@
        }) + block@,
{
    let c = chars_of(existing);
    let mut r = existing.to_string();
    if c.len() > 0 && c[c.len() - 1] != '\n' {
        push_char(&mut r, '\n');
    }
    if c.len() > 0 {
        push_char(&mut r, '\n');
    }
    r.append(block);
    r
}

pub fn replace_managed_section(existing: &str, new_block: &str) -> (r: String)
    ensures
        r@ == managed_replaced(existing@, new_block@),
{
    let c = chars_of(existing);
    let bm = chars_of(BEGIN_MARKER);
    let em = chars_of(END_MARKER);
    let fb = find_str(c.as_slice(), bm.as_slice());
    let fe = find_str(c.as_slice(), em.as_slice());
    let n: usize = c.len();
    match (fb, fe) {
        (Some(b), Some(e)) => splice(&c, b, e + em.len(), new_block),
        _ => append_after_blank(existing, new_block),
    }
}

// ── GIT_SSH_COMMAND ──

/// The `GIT_SSH_COMMAND` that makes git use the profile's key.
pub open spec fn git_ssh_command(p: SshProfile) -> Seq<char> {
    if port_or_default_of(p) == 22 {
        "ssh -i \""@ + p.private_key_path@ + "\" -o IdentitiesOnly=yes -o StrictHostKeyChecking=accept-new"@
    } else {
        "ssh -i \""@ + p.private_key_path@ + "\" -p "@ + decimal(port_or_default_of(p) as nat)
            + " -o IdentitiesOnly=yes -o StrictHostKeyChecking=accept-new"@
    }
}

pub fn build_git_ssh_command(profile: &SshProfile) -> (r: String)
    ensures
        r@ == git_ssh_command(*profile),
{
    let port = profile.port_or_default();
    let mut r = "ssh -i \"".to_string();
    r.append(profile.private_key_path.as_str());
    if port == 22 {
        r.append("\" -o IdentitiesOnly=yes -o StrictHostKeyChecking=accept-new");
    } else {
        r.append("\" -p ");
        push_decimal(&mut r, port as u64);
        r.append(" -o IdentitiesOnly=yes -o StrictHostKeyChecking=accept-new");
    }
    r
}

/// The env file that shells source to pick up the active profile.
pub open spec fn env_file_content(p: SshProfile) -> Seq<char> {
    "export GIT_SSH_COMMAND='"@ + git_ssh_command(p) + "'\n# Active profile: "@ + p.name@ + " ("@
        + provider_text(p.provider) + ")\n"@
}

pub fn build_env_file_content(profile: &SshProfile) -> (r: String)
    ensures
        r@ == env_file_content(*profile),
{
    let cmd = build_git_ssh_command(profile);
    let mut r = "export GIT_SSH_COMMAND='".to_string();
    r.append(cmd.as_str());
    r.append("'\n# Active profile: ");
    r.append(profile.name.as_str());
    r.append(" (");
    let p = profile.provider.to_text();
    r.append(p.as_str());
    r.append(")\n");
    r
}

/// The PowerShell command that stores the profile's `GIT_SSH_COMMAND` as a user
/// environment variable (single quotes doubled inside the quoted value).
pub open spec fn user_env_script(p: SshProfile) -> Seq<char> {
    "[Environment]::SetEnvironmentVariable('GIT_SSH_COMMAND', '"@ + replace_char(
        git_ssh_command(p),
        '\'',
        "''"@,
    ) + "', 'User')"@
}

pub fn git_ssh_env_script(profile: &SshProfile) -> (r: String)
    ensures
        r@ == user_env_script(*profile),
{
    let cmd = build_git_ssh_command(profile);
    let mut r = "[Environment]::SetEnvironmentVariable('GIT_SSH_COMMAND', '".to_string();
    let quoted = replace_char_str(cmd.as_str(), '\'', "''");
    r.append(quoted.as_str());
    r.append("', 'User')");
    r
}

// ── Validation ──

/// Unicode general category Cc (`char::is_control`).
pub open spec fn control_char(c: char) -> bool {
    (c as u32) <= 0x1F || (0x7F <= (c as u32) <= 0x9F)
}

pub fn is_control(c: char) -> (r: bool)
    ensures
        r == control_char(c),
{
    let u = c as u32;
    u <= 0x1F || (0x7F <= u && u <= 0x9F)
}

pub open spec fn byte_len(s: Seq<char>) -> usize {
    vstd::utf8::encode_utf8(s).len() as usize
}

pub open spec fn hostname_char(c: char) -> bool {
    crate::text::alnum(c) || c == '-' || c == '.'
}

pub open spec fn alias_char(c: char) -> bool {
    crate::text::alnum(c) || c == '-' || c == '.' || c == '_'
}

/// Why a hostname is refused, or `None` when it is accepted.
pub open spec fn hostname_error(h: Seq<char>) -> Option<Seq<char>> {
    if trim(h).len() == 0 || byte_len(h) > 253 {
        Some("Hostname must be 1-253 characters"@)
    } else if !(forall|i: int| 0 <= i < h.len() ==> hostname_char(#[trigger] h[i])) {
        Some("Hostname contains invalid characters (use alphanumeric, hyphens, dots only)"@)
    } else {
        None
    }
}

pub open spec fn validation_result(e: Option<Seq<char>>, r: Result<(), MazeSshError>) -> bool {
    match r {
        Ok(()) => e is None,
        Err(err) => err matches MazeSshError::ValidationError(m) && e == Some(m@),
    }
}

fn all_satisfy_hostname(s: &str) -> (r: bool)
    ensures
        r == (forall|i: int| 0 <= i < s@.len() ==> hostname_char(#[trigger] s@[i])),
{
    let c = chars_of(s);
    let mut i: usize = 0;
    while i < c.len()
        invariant
            i <= c@.len(),
            c@ == s@,
            forall|k: int| 0 <= k < i ==> hostname_char(#[trigger] c@[k]),
        decreases c@.len() - i,
    {
        let ch = c[i];
        if !(crate::text::is_alphanumeric(ch) || ch == '-' || ch == '.') {
            return false;
        }
        i = i + 1;
    }
    true
}

fn all_satisfy_alias(s: &str) -> (r: bool)
    ensures
        r == (forall|i: int| 0 <= i < s@.len() ==> alias_char(#[trigger] s@[i])),
{
    let c = chars_of(s);
    let mut i: usize = 0;
    while i < c.len()
        invariant
            i <= c@.len(),
            c@ == s@,
            forall|k: int| 0 <= k < i ==> alias_char(#[trigger] c@[k]),
        decreases c@.len() - i,
    {
        let ch = c[i];
        if !(crate::text::is_alphanumeric(ch) || ch == '-' || ch == '.' || ch == '_') {
            return false;
        }
        i = i + 1;
    }
    true
}

fn any_control(s: &str) -> (r: bool)
    ensures
        r == (exists|i: int| 0 <= i < s@.len() && control_char(#[trigger] s@[i])),
{
    let c = chars_of(s);
    let mut i: usize = 0;
    while i < c.len()
        invariant
            i <= c@.len(),
            c@ == s@,
            forall|k: int| 0 <= k < i ==> !control_char(#[trigger] c@[k]),
        decreases c@.len() - i,
    {
        if is_control(c[i]) {
            assert(control_char(s@[i as int]));
            return true;
        }
        i = i + 1;
    }
    false
}

fn is_blank(s: &str) -> (r: bool)
    ensures
        r == (trim(s@).len() == 0),
{
    let c = chars_of(s);
    let t = trim_chars(c.as_slice());
    t.len() == 0
}

fn invalid(m: &str) -> (r: Result<(), MazeSshError>)
    ensures
        r matches Err(MazeSshError::ValidationError(x)) && x@ == m@,
{
    Err(MazeSshError::ValidationError(m.to_string()))
}

/// Validates a hostname: 1-253 bytes, not blank, only letters, digits, `-` and `.`
/// (nothing a shell would interpret).
pub fn validate_hostname(hostname: &str) -> (r: Result<(), MazeSshError>)
    ensures
        validation_result(hostname_error(hostname@), r),
{
    if is_blank(hostname) || hostname.len() > 253 {
        return invalid("Hostname must be 1-253 characters");
    }
    if !all_satisfy_hostname(hostname) {
        return invalid("Hostname contains invalid characters (use alphanumeric, hyphens, dots only)");
    }
    Ok(())
}

/// Why a new profile's input is refused, or `None` when it is accepted; the
/// checks run in this order and the first that fails decides.
pub open spec fn profile_input_error(i: CreateProfileInput) -> Option<Seq<char>> {
    if trim(i.name@).len() == 0 || byte_len(i.name@) > 100 {
        Some("Profile name must be 1-100 characters"@)
    } else if exists|k: int| 0 <= k < i.name@.len() && control_char(#[trigger] i.name@[k]) {
        Some("Profile name must not contain control characters"@)
    } else if !i.email@.contains('@') || byte_len(i.email@) > 254 {
        Some("Invalid email address"@)
    } else if hostname_error(i.hostname@) is Some {
        hostname_error(i.hostname@)
    } else if trim(i.host_alias@).len() == 0 || byte_len(i.host_alias@) > 253 {
        Some("Host alias must be 1-253 characters"@)
    } else if !(forall|k: int| 0 <= k < i.host_alias@.len() ==> alias_char(#[trigger] i.host_alias@[k])) {
        Some("Host alias contains invalid characters (use alphanumeric, hyphens, dots, underscores)"@)
    } else if trim(i.git_username@).len() == 0 || byte_len(i.git_username@) > 100 {
        Some("Git username must be 1-100 characters"@)
    } else if i.port == Some(0u16) {
        Some("Port must be between 1 and 65535"@)
    } else {
        None
    }
}

fn has_at(s: &str) -> (r: bool)
    ensures
        r == s@.contains('@'),
{
    let c = chars_of(s);
    let mut i: usize = 0;
    while i < c.len()
        invariant
            i <= c@.len(),
            c@ == s@,
            forall|k: int| 0 <= k < i ==> c@[k] != '@',
        decreases c@.len() - i,
    {
        if c[i] == '@' {
            assert(s@[i as int] == '@');
            return true;
        }
        i = i + 1;
    }
    false
}

/// Validates the input of a new profile.
pub fn validate_profile_input(input: &CreateProfileInput) -> (r: Result<(), MazeSshError>)
    ensures
        validation_result(profile_input_error(*input), r),
{
    if is_blank(input.name.as_str()) || input.name.as_str().len() > 100 {
        return invalid("Profile name must be 1-100 characters");
    }
    if any_control(input.name.as_str()) {
        return invalid("Profile name must not contain control characters");
    }
    if !has_at(input.email.as_str()) || input.email.as_str().len() > 254 {
        return invalid("Invalid email address");
    }
    match validate_hostname(input.hostname.as_str()) {
        Ok(()) => {},
        Err(e) => {
            return Err(e);
        },
    }
    if is_blank(input.host_alias.as_str()) || input.host_alias.as_str().len() > 253 {
        return invalid("Host alias must be 1-253 characters");
    }
    if !all_satisfy_alias(input.host_alias.as_str()) {
        return invalid(
            "Host alias contains invalid characters (use alphanumeric, hyphens, dots, underscores)",
        );
    }
    if is_blank(input.git_username.as_str()) || input.git_username.as_str().len() > 100 {
        return invalid("Git username must be 1-100 characters");
    }
    match input.port {
        Some(p) => {
            if p == 0 {
                return invalid("Port must be between 1 and 65535");
            }
        },
        None => {},
    }
    Ok(())
}

/// Why a PIN is refused (fewer than 4 or more than 128 bytes), or `None`.
pub open spec fn pin_error(pin: Seq<char>) -> Option<Seq<char>> {
    if byte_len(pin) < 4 {
        Some("PIN must be at least 4 characters"@)
    } else if byte_len(pin) > 128 {
        Some("PIN must be at most 128 characters"@)
    } else {
        None
    }
}

pub fn validate_pin(pin: &str) -> (r: Result<(), MazeSshError>)
    ensures
        validation_result(pin_error(pin@), r),
{
    if pin.len() < 4 {
        return invalid("PIN must be at least 4 characters");
    }
    if pin.len() > 128 {
        return invalid("PIN must be at most 128 characters");
    }
    Ok(())
}

/// A value quoted for a shell script: each `'` becomes `'\''`.
pub fn shell_escape(s: &str) -> (r: String)
    ensures
        r@ == replace_char(s@, '\'', "'\\''"@),
{
    replace_char_str(s, '\'', "'\\''")
}

// ── Importing profiles ──

/// `chrono::Utc::now().to_rfc3339()`: the current time; nothing is said of it.
#[verifier::external_body]
pub(crate) fn rfc3339_now() -> (r: String) {
    chrono::Utc::now().to_rfc3339()
}

/// Whether some profile is named `name` (exactly).
pub open spec fn name_used(ps: Seq<SshProfile>, name: Seq<char>) -> bool {
    exists|i: int| 0 <= i < ps.len() && (#[trigger] ps[i]).name@ == name
}

/// The profile `p` as imported: a new id and creation time, all else kept.
pub open spec fn imported_as(q: SshProfile, p: SshProfile) -> bool {
    &&& q.name == p.name && q.provider == p.provider && q.email == p.email
    &&& q.git_username == p.git_username && q.private_key_path == p.private_key_path
    &&& q.public_key_path == p.public_key_path && q.host_alias == p.host_alias
    &&& q.hostname == p.hostname && q.port == p.port && q.ssh_user == p.ssh_user
    &&& q.has_passphrase == p.has_passphrase && q.vault_key_id == p.vault_key_id
    &&& q.created_at == q.updated_at
}

/// The profiles after importing the first `n` of `imported` into `ps`: each one is
/// added unless a profile of the same name is there already.
pub open spec fn import_fits(ps: Seq<SshProfile>, imported: Seq<SshProfile>, flags: Seq<bool>, out: Seq<SshProfile>) -> bool
    decreases imported.len(),
{
    if imported.len() == 0 {
        flags.len() == 0 && out == ps
    } else {
        let k = imported.len() - 1;
        let mid = if flags[k] {
            out.drop_last()
        } else {
            out
        };
        &&& flags.len() == imported.len()
        &&& import_fits(ps, imported.drop_last(), flags.drop_last(), mid)
        &&& flags[k] == !name_used(mid, imported[k].name@)
        &&& flags[k] ==> out.len() > 0 && imported_as(out.last(), imported[k])
    }
}

fn name_taken(ps: &Vec<SshProfile>, name: &String) -> (r: bool)
    ensures
        r == name_used(ps@, name@),
{
    let mut i: usize = 0;
    while i < ps.len()
        invariant
            i <= ps@.len(),
            forall|j: int| 0 <= j < i ==> (#[trigger] ps@[j]).name@ != name@,
        decreases ps@.len() - i,
    {
        if ps[i].name == *name {
            return true;
        }
        i = i + 1;
    }
    false
}

/// Imports profiles in order, skipping those whose name is taken (by a profile
/// there before or imported earlier); each added profile gets a new id and the
/// current time as its creation and update time. Returns, per imported profile,
/// whether it was added.
pub fn import_profiles(profiles: &mut Vec<SshProfile>, imported: Vec<SshProfile>) -> (r: Vec<bool>)
    ensures
        import_fits(old(profiles)@, imported@, r@, final(profiles)@),
{
    let ghost start = profiles@;
    let ghost all = imported@;
    let mut flags: Vec<bool> = Vec::new();
    let mut k: usize = 0;
    assert(all.take(0) =~= Seq::<SshProfile>::empty());
    assert(import_fits(start, all.take(0), flags@, profiles@));
    while k < imported.len()
        invariant
            k <= all.len(),
            imported@ == all,
            flags@.len() == k,
            import_fits(start, all.take(k as int), flags@, profiles@),
        decreases all.len() - k,
    {
        let ghost mid = profiles@;
        let ghost fl = flags@;
        let p = &imported[k];
        let taken = name_taken(profiles, &p.name);
        if !taken {
            let now = rfc3339_now();
            let q = SshProfile {
                id: crate::vault::fresh_key_id(),
                name: p.name.clone(),
                provider: p.provider.duplicate(),
                email: p.email.clone(),
                git_username: p.git_username.clone(),
                private_key_path: p.private_key_path.clone(),
                public_key_path: p.public_key_path.clone(),
                host_alias: p.host_alias.clone(),
                hostname: p.hostname.clone(),
                port: p.port,
                ssh_user: p.ssh_user.clone(),
                has_passphrase: p.has_passphrase,
                created_at: now.clone(),
                updated_at: now,
                vault_key_id: p.vault_key_id.clone(),
            };
            profiles.push(q);
        }
        flags.push(!taken);
        proof {
            let t = all.take(k + 1);
            assert(t.drop_last() =~= all.take(k as int));
            assert(flags@.drop_last() =~= fl);
            if !taken {
                assert(profiles@.drop_last() =~= mid);
            }
            assert(import_fits(start, t.drop_last(), flags@.drop_last(), mid));
            assert(flags@.len() == t.len());
            assert(t[k as int] == *p);
            assert(flags@[k as int] == !name_used(mid, t[k as int].name@));
            if !taken {
                assert(imported_as(profiles@.last(), t[k as int]));
            }
            assert(import_fits(start, t, flags@, profiles@));
        }
        k = k + 1;
    }
    assert(all.take(all.len() as int) =~= all);
    flags
}

proof fn lemma_entries_end_in_newline(ps: Seq<SshProfile>)
    requires
        ps.len() > 0,
    ensures
        host_entries(ps).len() > 0 && host_entries(ps).last() == '\n',
{
    reveal_strlit("\n");
    let e = host_entry(ps.last());
    assert(e.len() > 0 && e.last() == '\n');
    assert(host_entries(ps) == host_entries(ps.drop_last()) + e);
}

pub open spec fn config_header() -> Seq<char> {
    BEGIN_MARKER@ + "\n# Do not edit this section manually. Managed by Maze SSH.\n\n"@
}

proof fn lemma_header_facts()
    ensures
        config_header().len() == 92,
        config_header()[91] == '\n',
        END_MARKER@.len() == 30,
        BEGIN_MARKER@.len() == 32,
        forall|k: int| 0 <= k < 30 ==> END_MARKER@[k] != '\n',
{
    reveal_strlit("# === BEGIN MAZE-SSH MANAGED ===");
    reveal_strlit("# === END MAZE-SSH MANAGED ===");
    reveal_strlit("\n# Do not edit this section manually. Managed by Maze SSH.\n\n");
}

proof fn lemma_header_no_end(j: int)
    requires
        0 <= j,
        j + 30 <= 92,
    ensures
        !occurs_at(config_header(), END_MARKER@, j),
{
    reveal_strlit("# === BEGIN MAZE-SSH MANAGED ===");
    reveal_strlit("# === END MAZE-SSH MANAGED ===");
    reveal_strlit("\n# Do not edit this section manually. Managed by Maze SSH.\n\n");
    let p = config_header();
    let em = END_MARKER@;
    assert(p.len() == 92);
    if occurs_at(p, em, j) {
        assert(p.subrange(j, j + 30)[0] == p[j]);
        assert(p[j] == '#');
        assert(p[j] != '#' || j == 0 || j == 33);
        if j == 0 {
            assert(p.subrange(j, j + 30)[6] == p[6]);
        } else {
            assert(p.subrange(j, j + 30)[2] == p[35]);
        }
    }
}

/// The managed section the generator writes is a managed block, as long as no
/// profile's entry holds the end marker.
#[verifier::spinoff_prover]
proof fn lemma_config_block_is_managed(ps: Seq<SshProfile>)
    requires
        !contains_sub(host_entries(ps), END_MARKER@),
    ensures
        is_managed_block(config_block(ps)),
{
    lemma_header_facts();
    reveal_strlit("\n");
    let bm = BEGIN_MARKER@;
    let em = END_MARKER@;
    let p = config_header();
    let e = host_entries(ps);
    let block = config_block(ps);
    assert(block =~= p + e + (em + seq!['\n']));
    let q: int = 92 + e.len() as int;
    assert(block.len() == q + 31);
    assert(block.subrange(0, 32) =~= bm);
    assert(block.subrange(q, q + 30) =~= em);
    assert(block.last() == '\n');
    assert(block.take(92) =~= p.take(92));
    assert forall|j: int| 0 <= j < q implies !occurs_at(block, em, j) by {
        if j + 30 <= 92 {
            lemma_same_prefix_occurs(block, p, 92, em, j);
            lemma_header_no_end(j);
        } else if occurs_at(block, em, j) {
            assert forall|k: int| j <= k < j + 30 implies block[k] == em[k - j] by {
                assert(block.subrange(j, j + 30)[k - j] == block[k]);
            }
            if j <= 91 {
                assert(block[91] == p[91]);
                assert(em[91 - j] != '\n');
            } else if j + 30 <= q {
                assert(e.subrange(j - 92, j - 92 + 30) =~= block.subrange(j, j + 30));
                assert(occurs_at(e, em, j - 92));
            } else {
                assert(ps.len() > 0) by {
                    if ps.len() == 0 {
                        assert(e.len() == 0);
                    }
                }
                lemma_entries_end_in_newline(ps);
                assert(block[q - 1] == e.last());
                assert(em[q - 1 - j] != '\n');
            }
        }
    }
}

/// Writing the generated managed section twice gives what writing it once gave,
/// for a config file whose markers are in order and profiles whose entries do not
/// hold the end marker.
pub proof fn lemma_config_write_idempotent(existing: Seq<char>, ps: Seq<SshProfile>)
    requires
        !contains_sub(host_entries(ps), END_MARKER@),
        markers_in_order(existing),
    ensures
        managed_replaced(managed_replaced(existing, config_block(ps)), config_block(ps)) == managed_replaced(
            existing,
            config_block(ps),
        ),
{
    lemma_config_block_is_managed(ps);
    lemma_managed_section_idempotent(existing, config_block(ps));
}

} // verus!

