//! Moving profile keys into the vault: what a migration would do, and doing it.
//! Reading the key files and the keyring is the caller's; the results come in as
//! plain values, one per profile (preview) or per requested id (migration).
use vstd::prelude::*;

use crate::crypto::EncryptedBlob;
use crate::profile::{find_profile, lemma_profile_index, profile_index, SshProfile};
use crate::text::{contains_sub, str_contains};
use crate::vault::{
    import_outcome, keys_view, name_taken, opt_string_view, parsed_key, vault_error_text, ImportKeyInput,
    KeyItemModel, SshKeyItem, SshKeyVault, VaultError, VaultMeta, VaultSession,
};

verus! {

#[derive(Debug, Clone)]
pub struct MigrationEligible {
    pub profile_id: String,
    pub profile_name: String,
    pub key_path: String,
    pub algorithm: String,
}

#[derive(Debug, Clone)]
pub struct MigrationSkipped {
    pub profile_id: String,
    pub profile_name: String,
    pub reason: String,
}

/// What a migration would do.
#[derive(Debug, Clone)]
pub struct MigrationPreview {
    pub eligible: Vec<MigrationEligible>,
    pub skipped: Vec<MigrationSkipped>,
}

#[derive(Debug, Clone)]
pub struct MigrationSuccess {
    pub profile_id: String,
    pub profile_name: String,
    pub vault_key_id: String,
}

#[derive(Debug, Clone)]
pub struct MigrationFailed {
    pub profile_id: String,
    pub profile_name: String,
    pub error: String,
}

/// What a migration did.
#[derive(Debug, Clone)]
pub struct MigrationReport {
    pub succeeded: Vec<MigrationSuccess>,
    pub skipped: Vec<MigrationSkipped>,
    pub failed: Vec<MigrationFailed>,
}

impl View for MigrationEligible {
    type V = (Seq<char>, Seq<char>, Seq<char>, Seq<char>);

    open spec fn view(&self) -> (Seq<char>, Seq<char>, Seq<char>, Seq<char>) {
        (self.profile_id@, self.profile_name@, self.key_path@, self.algorithm@)
    }
}

impl View for MigrationSkipped {
    type V = (Seq<char>, Seq<char>, Seq<char>);

    open spec fn view(&self) -> (Seq<char>, Seq<char>, Seq<char>) {
        (self.profile_id@, self.profile_name@, self.reason@)
    }
}

impl View for MigrationSuccess {
    type V = (Seq<char>, Seq<char>, Seq<char>);

    open spec fn view(&self) -> (Seq<char>, Seq<char>, Seq<char>) {
        (self.profile_id@, self.profile_name@, self.vault_key_id@)
    }
}

impl View for MigrationFailed {
    type V = (Seq<char>, Seq<char>, Seq<char>);

    open spec fn view(&self) -> (Seq<char>, Seq<char>, Seq<char>) {
        (self.profile_id@, self.profile_name@, self.error@)
    }
}

/// What reading a profile's private key file gave.
#[derive(Debug, Clone)]
pub enum KeyFileRead {
    /// The file does not exist
    Missing,
    /// The file exists but could not be read; the error's text
    Unreadable(String),
    /// The file's content
    Read(String),
}

// ── Preview ──

/// The algorithm a key file looks like it holds (a rough guess from its text).
pub open spec fn algorithm_guess(content: Option<Seq<char>>) -> Seq<char> {
    match content {
        Some(c) => if contains_sub(c, "ssh-ed25519"@) || contains_sub(c, "ED25519"@) {
            "ed25519"@
        } else if contains_sub(c, "RSA"@) {
            "rsa"@
        } else {
            "unknown"@
        },
        None => "unknown"@,
    }
}

fn guess_algorithm(read: &KeyFileRead) -> (r: String)
    ensures
        r@ == algorithm_guess(match read {
            KeyFileRead::Read(c) => Some(c@),
            _ => None,
        }),
{
    match read {
        KeyFileRead::Read(c) => {
            if str_contains(c.as_str(), "ssh-ed25519") || str_contains(c.as_str(), "ED25519") {
                "ed25519".to_string()
            } else if str_contains(c.as_str(), "RSA") {
                "rsa".to_string()
            } else {
                "unknown".to_string()
            }
        },
        _ => "unknown".to_string(),
    }
}

/// The preview of the first `n` profiles: profiles already in the vault and
/// profiles whose key file is missing are skipped; the others are eligible.
pub open spec fn preview_of(ps: Seq<SshProfile>, reads: Seq<KeyFileRead>, n: nat) -> (
    Seq<(Seq<char>, Seq<char>, Seq<char>, Seq<char>)>,
    Seq<(Seq<char>, Seq<char>, Seq<char>)>,
)
    decreases n,
{
    if n == 0 {
        (Seq::empty(), Seq::empty())
    } else {
        let (e, s) = preview_of(ps, reads, (n - 1) as nat);
        let p = ps[n - 1];
        if p.vault_key_id is Some {
            (e, s.push((p.id@, p.name@, "Already migrated to vault"@)))
        } else {
            match reads[n - 1] {
                KeyFileRead::Missing => (e, s.push((p.id@, p.name@, "Key file not found: "@ + p.private_key_path@))),
                KeyFileRead::Unreadable(_) => (e.push((p.id@, p.name@, p.private_key_path@, "unknown"@)), s),
                KeyFileRead::Read(c) => (e.push((p.id@, p.name@, p.private_key_path@, algorithm_guess(Some(c@)))), s),
            }
        }
    }
}

fn prefixed(p: &str, s: &String) -> (r: String)
    ensures
        r@ == p@ + s@,
{
    let mut r = p.to_string();
    r.append(s.as_str());
    r
}

/// What migrating the profiles would do. `reads[i]` is what reading the key file of
/// `profiles[i]` gave (it is not looked at for a profile already in the vault).
pub fn build_preview(profiles: &[SshProfile], reads: &[KeyFileRead]) -> (r: MigrationPreview)
    requires
        reads@.len() == profiles@.len(),
    ensures
        r.eligible@.map_values(|e: MigrationEligible| e@) == preview_of(profiles@, reads@, profiles@.len()).0,
        r.skipped@.map_values(|s: MigrationSkipped| s@) == preview_of(profiles@, reads@, profiles@.len()).1,
{
    let mut eligible: Vec<MigrationEligible> = Vec::new();
    let mut skipped: Vec<MigrationSkipped> = Vec::new();
    let mut i: usize = 0;
    while i < profiles.len()
        invariant
            i <= profiles@.len(),
            reads@.len() == profiles@.len(),
            eligible@.map_values(|e: MigrationEligible| e@) == preview_of(profiles@, reads@, i as nat).0,
            skipped@.map_values(|s: MigrationSkipped| s@) == preview_of(profiles@, reads@, i as nat).1,
        decreases profiles@.len() - i,
    {
        let p = &profiles[i];
        let ghost e0 = eligible@.map_values(|e: MigrationEligible| e@);
        let ghost s0 = skipped@.map_values(|s: MigrationSkipped| s@);
        if p.vault_key_id.is_some() {
            skipped.push(MigrationSkipped {
                profile_id: p.id.clone(),
                profile_name: p.name.clone(),
                reason: "Already migrated to vault".to_string(),
            });
            assert(skipped@.map_values(|s: MigrationSkipped| s@) =~= s0.push((p.id@, p.name@, "Already migrated to vault"@)));
        } else {
            match &reads[i] {
                KeyFileRead::Missing => {
                    skipped.push(MigrationSkipped {
                        profile_id: p.id.clone(),
                        profile_name: p.name.clone(),
                        reason: prefixed("Key file not found: ", &p.private_key_path),
                    });
                    assert(skipped@.map_values(|s: MigrationSkipped| s@) =~= s0.push(
                        (p.id@, p.name@, "Key file not found: "@ + p.private_key_path@),
                    ));
                },
                _ => {
                    let algorithm = guess_algorithm(&reads[i]);
                    eligible.push(MigrationEligible {
                        profile_id: p.id.clone(),
                        profile_name: p.name.clone(),
                        key_path: p.private_key_path.clone(),
                        algorithm,
                    });
                    assert(eligible@.map_values(|e: MigrationEligible| e@) =~= e0.push(
                        (p.id@, p.name@, p.private_key_path@, algorithm@),
                    ));
                },
            }
        }
        i = i + 1;
    }
    MigrationPreview { eligible, skipped }
}

// ── Migration ──

/// What the checks before an import decide for a requested profile id.
pub enum Precheck {
    Skip((Seq<char>, Seq<char>, Seq<char>)),
    Fail((Seq<char>, Seq<char>, Seq<char>)),
    /// The profile, its key file's text and the passphrase to open it with
    Import((SshProfile, Seq<char>, Option<Seq<char>>)),
}

/// The checks before an import: the profile must exist, not be in the vault yet,
/// have a readable key file, and, if its key has a passphrase, have it stored.
pub open spec fn precheck(
    profiles: Seq<SshProfile>,
    id: Seq<char>,
    read: KeyFileRead,
    passphrase: Result<Option<String>, String>,
) -> Precheck {
    match profile_index(profiles, id) {
        None => Precheck::Fail((id, id, "Profile not found"@)),
        Some(k) => {
            let p = profiles[k];
            if p.vault_key_id is Some {
                Precheck::Skip((p.id@, p.name@, "Already migrated"@))
            } else {
                match read {
                    KeyFileRead::Missing => Precheck::Fail((p.id@, p.name@, "Key file not found: "@ + p.private_key_path@)),
                    KeyFileRead::Unreadable(e) => Precheck::Fail((p.id@, p.name@, "Failed to read key file: "@ + e@)),
                    KeyFileRead::Read(c) => if !p.has_passphrase {
                        Precheck::Import((p, c@, None))
                    } else {
                        match passphrase {
                            Ok(Some(pw)) => Precheck::Import((p, c@, Some(pw@))),
                            Ok(None) => Precheck::Fail((p.id@, p.name@, "Key has passphrase but none stored in keyring"@)),
                            Err(e) => Precheck::Fail((p.id@, p.name@, "Failed to get passphrase from keyring: "@ + e@)),
                        }
                    },
                }
            }
        },
    }
}

/// What happened to one requested profile.
pub enum Outcome {
    Succeeded((Seq<char>, Seq<char>, Seq<char>)),
    Skipped((Seq<char>, Seq<char>, Seq<char>)),
    Failed((Seq<char>, Seq<char>, Seq<char>)),
}

/// The report's three lists from the outcomes, each in request order.
pub open spec fn report_of(outs: Seq<Outcome>) -> (
    Seq<(Seq<char>, Seq<char>, Seq<char>)>,
    Seq<(Seq<char>, Seq<char>, Seq<char>)>,
    Seq<(Seq<char>, Seq<char>, Seq<char>)>,
)
    decreases outs.len(),
{
    if outs.len() == 0 {
        (Seq::empty(), Seq::empty(), Seq::empty())
    } else {
        let (a, b, c) = report_of(outs.drop_last());
        match outs.last() {
            Outcome::Succeeded(x) => (a.push(x), b, c),
            Outcome::Skipped(x) => (a, b.push(x), c),
            Outcome::Failed(x) => (a, b, c.push(x)),
        }
    }
}

/// Whether some key in `keys` is named `name`.
pub open spec fn taken_in(keys: Seq<KeyItemModel>, name: Seq<char>) -> bool {
    exists|i: int| 0 <= i < keys.len() && (#[trigger] keys[i]).name == name
}

/// Whether `res` is what importing profile `p`'s key (text `pem`, opened with
/// `pass`) under the name "<profile name> (migrated)" can give, by
/// `SshKeyVault::import_key`'s contract, with the vault's keys going from `before`
/// to `after`.
pub open spec fn import_fits(
    res: Result<(SshKeyItem, EncryptedBlob), VaultError>,
    p: SshProfile,
    pem: Seq<char>,
    pass: Option<Seq<char>>,
    before: Seq<KeyItemModel>,
    after: Seq<KeyItemModel>,
    vek: Seq<u8>,
) -> bool {
    let name = p.name@ + " (migrated)"@;
    &&& res is Err ==> after == before
    &&& if taken_in(before, name) {
        res matches Err(VaultError::DuplicateKeyName(n)) && n@ == name
    } else {
        import_outcome(parsed_key(pem, pass), name, p.email@, vek, before, after, res)
    }
}

/// How an import's result is reported for profile `p`: a success with the new
/// key's id, or a failure with the error's text.
pub open spec fn import_reported(p: SshProfile, res: Result<(SshKeyItem, EncryptedBlob), VaultError>) -> Outcome {
    match res {
        Ok((item, _)) => Outcome::Succeeded((p.id@, p.name@, item.id@)),
        Err(e) => Outcome::Failed((p.id@, p.name@, vault_error_text(e))),
    }
}

/// An outcome agrees with the checks and the import: a skip or a failure found by
/// the checks is reported as such and leaves the vault's keys as they were; an
/// import is reported as the vault's import of that key gave it.
pub open spec fn outcome_fits(pre: Precheck, o: Outcome, before: Seq<KeyItemModel>, after: Seq<KeyItemModel>, vek: Seq<u8>) -> bool {
    match pre {
        Precheck::Skip(x) => o == Outcome::Skipped(x) && after == before,
        Precheck::Fail(x) => o == Outcome::Failed(x) && after == before,
        Precheck::Import((p, pem, pass)) => exists|res: Result<(SshKeyItem, EncryptedBlob), VaultError>|
            #[trigger] import_fits(res, p, pem, pass, before, after, vek) && o == import_reported(p, res),
    }
}

/// How many successes the first `j` outcomes hold.
pub open spec fn successes_before(outs: Seq<Outcome>, j: int) -> int {
    report_of(outs.take(j)).0.len() as int
}

/// The vault's keys just before the `j`-th import: the keys it had, and one more
/// per success before it.
pub open spec fn keys_at(before: Seq<KeyItemModel>, after: Seq<KeyItemModel>, outs: Seq<Outcome>, j: int) -> Seq<KeyItemModel> {
    after.take(before.len() + successes_before(outs, j))
}

/// The migration agrees with its inputs: one outcome per requested id, fitting
/// the checks, making up the report; the vault gained one key per success, in
/// order, named after the profile with " (migrated)".
pub open spec fn migration_fits(
    profiles: Seq<SshProfile>,
    ids: Seq<String>,
    reads: Seq<KeyFileRead>,
    passphrases: Seq<Result<Option<String>, String>>,
    before: Seq<KeyItemModel>,
    after: Seq<KeyItemModel>,
    report: (Seq<(Seq<char>, Seq<char>, Seq<char>)>, Seq<(Seq<char>, Seq<char>, Seq<char>)>, Seq<(Seq<char>, Seq<char>, Seq<char>)>),
    outs: Seq<Outcome>,
    vek: Seq<u8>,
) -> bool {
    &&& outs.len() == ids.len()
    &&& forall|k: int| 0 <= k < ids.len() ==> outcome_fits(
        precheck(profiles, ids[k]@, reads[k], passphrases[k]),
        #[trigger] outs[k],
        keys_at(before, after, outs, k),
        keys_at(before, after, outs, k + 1),
        vek,
    )
    &&& report == report_of(outs)
    &&& after.len() == before.len() + report.0.len()
    &&& after.take(before.len() as int) == before
    &&& forall|i: int| 0 <= i < report.0.len() ==> (#[trigger] report.0[i]).2 == after[before.len() + i].id
        && after[before.len() + i].name == report.0[i].1 + " (migrated)"@
}

/// The report's three lists as sequences of views.
pub open spec fn report_view(r: MigrationReport) -> (
    Seq<(Seq<char>, Seq<char>, Seq<char>)>,
    Seq<(Seq<char>, Seq<char>, Seq<char>)>,
    Seq<(Seq<char>, Seq<char>, Seq<char>)>,
) {
    (
        r.succeeded@.map_values(|x: MigrationSuccess| x@),
        r.skipped@.map_values(|x: MigrationSkipped| x@),
        r.failed@.map_values(|x: MigrationFailed| x@),
    )
}

fn fail_entry(id: &String, name: &String, error: String) -> (r: MigrationFailed)
    ensures
        r@ == (id@, name@, error@),
{
    MigrationFailed { profile_id: id.clone(), profile_name: name.clone(), error }
}

/// Migrates the keys of the requested profiles into the vault, in request order.
/// `reads[k]` is what reading the key file of the profile `profile_ids[k]` gave and
/// `passphrases[k]` what the keyring holds for it (looked at only when its key has
/// a passphrase). Returns the report and, for each success in order, the new key's
/// id and sealed file, which the caller writes. Profiles are not changed and key
/// files are not deleted.
#[verifier::rlimit(40)]
pub fn migrate_profiles(
    session: &VaultSession,
    meta: &mut VaultMeta,
    profiles: &[SshProfile],
    profile_ids: &[String],
    reads: Vec<KeyFileRead>,
    passphrases: Vec<Result<Option<String>, String>>,
) -> (r: (MigrationReport, Vec<(String, EncryptedBlob)>))
    requires
        reads@.len() == profile_ids@.len(),
        passphrases@.len() == profile_ids@.len(),
    ensures
        exists|outs: Seq<Outcome>| #[trigger] migration_fits(
            profiles@,
            profile_ids@,
            reads@,
            passphrases@,
            keys_view(old(meta).keys@),
            keys_view(final(meta).keys@),
            report_view(r.0),
            outs,
            session.key(),
        ),
        r.1@.len() == r.0.succeeded@.len(),
        forall|i: int| 0 <= i < r.1@.len() ==> (#[trigger] r.1@[i]).0@ == r.0.succeeded@[i].vault_key_id@,
        final(meta).version == old(meta).version,
        final(meta).kdf_params == old(meta).kdf_params,
        final(meta).encrypted_vek == old(meta).encrypted_vek,
{
    let ghost before = keys_view(meta.keys@);
    let ghost reads_in = reads@;
    let ghost pass_in = passphrases@;
    let mut succeeded: Vec<MigrationSuccess> = Vec::new();
    let mut skipped: Vec<MigrationSkipped> = Vec::new();
    let mut failed: Vec<MigrationFailed> = Vec::new();
    let mut files: Vec<(String, EncryptedBlob)> = Vec::new();
    let ghost mut outs: Seq<Outcome> = Seq::empty();
    let mut rs = reads;
    let mut ps = passphrases;
    let mut k: usize = 0;
    let ghost v0 = meta.version;
    let ghost kp0 = meta.kdf_params;
    let ghost ev0 = meta.encrypted_vek;
    assert(keys_view(meta.keys@).take(before.len() as int) =~= before);
    while k < profile_ids.len()
        invariant
            k <= profile_ids@.len(),
            rs@.len() == profile_ids@.len(),
            ps@.len() == profile_ids@.len(),
            forall|j: int| k <= j < profile_ids@.len() ==> rs@[j] == reads_in[j] && ps@[j] == pass_in[j],
            reads_in.len() == profile_ids@.len(),
            pass_in.len() == profile_ids@.len(),
            outs.len() == k,
            forall|j: int| 0 <= j < k ==> outcome_fits(
                precheck(profiles@, profile_ids@[j]@, reads_in[j], pass_in[j]),
                #[trigger] outs[j],
                keys_view(meta.keys@).take(before.len() + successes_before(outs, j)),
                keys_view(meta.keys@).take(before.len() + successes_before(outs, j + 1)),
                session.key(),
            ),
            (
                succeeded@.map_values(|x: MigrationSuccess| x@),
                skipped@.map_values(|x: MigrationSkipped| x@),
                failed@.map_values(|x: MigrationFailed| x@),
            ) == report_of(outs),
            keys_view(meta.keys@).len() == before.len() + succeeded@.len(),
            keys_view(meta.keys@).take(before.len() as int) == before,
            forall|i: int| 0 <= i < succeeded@.len() ==> (#[trigger] succeeded@[i]).vault_key_id@ == keys_view(meta.keys@)[before.len() + i].id
                && keys_view(meta.keys@)[before.len() + i].name == succeeded@[i].profile_name@ + " (migrated)"@,
            files@.len() == succeeded@.len(),
            forall|i: int| 0 <= i < files@.len() ==> (#[trigger] files@[i]).0@ == succeeded@[i].vault_key_id@,
            meta.version == v0,
            meta.kdf_params == kp0,
            meta.encrypted_vek == ev0,
        decreases profile_ids@.len() - k,
    {
        let id = &profile_ids[k];
        let mut read = KeyFileRead::Missing;
        std::mem::swap(&mut read, &mut rs[k]);
        let mut pass: Result<Option<String>, String> = Ok(None);
        std::mem::swap(&mut pass, &mut ps[k]);
        let ghost pre = precheck(profiles@, id@, read, pass);
        let ghost s_view = succeeded@.map_values(|x: MigrationSuccess| x@);
        let ghost k_view = skipped@.map_values(|x: MigrationSkipped| x@);
        let ghost f_view = failed@.map_values(|x: MigrationFailed| x@);
        let ghost keys_before = keys_view(meta.keys@);
        proof {
            lemma_profile_index(profiles@, id@);
        }
        let ghost mut outcome: Outcome = Outcome::Skipped((Seq::empty(), Seq::empty(), Seq::empty()));
        let found = find_profile(profiles, id.as_str());
        match found {
            None => {
                failed.push(fail_entry(id, id, "Profile not found".to_string()));
                proof {
                    outcome = Outcome::Failed((id@, id@, "Profile not found"@));
                    assert(outcome_fits(pre, outcome, keys_before, keys_view(meta.keys@), session.key()));
                    assert(failed@.map_values(|x: MigrationFailed| x@) =~= f_view.push((id@, id@, "Profile not found"@)));
                }
            },
            Some(pi) => {
                let p = &profiles[pi];
                if p.vault_key_id.is_some() {
                    skipped.push(MigrationSkipped {
                        profile_id: p.id.clone(),
                        profile_name: p.name.clone(),
                        reason: "Already migrated".to_string(),
                    });
                    proof {
                        outcome = Outcome::Skipped((p.id@, p.name@, "Already migrated"@));
                        assert(outcome_fits(pre, outcome, keys_before, keys_view(meta.keys@), session.key()));
                        assert(skipped@.map_values(|x: MigrationSkipped| x@) =~= k_view.push((p.id@, p.name@, "Already migrated"@)));
                    }
                } else {
                    match read {
                        KeyFileRead::Missing => {
                            let e = prefixed("Key file not found: ", &p.private_key_path);
                            failed.push(fail_entry(&p.id, &p.name, e));
                            proof {
                                outcome = Outcome::Failed((p.id@, p.name@, "Key file not found: "@ + p.private_key_path@));
                                assert(outcome_fits(pre, outcome, keys_before, keys_view(meta.keys@), session.key()));
                                assert(failed@.map_values(|x: MigrationFailed| x@) =~= f_view.push((p.id@, p.name@, e@)));
                            }
                        },
                        KeyFileRead::Unreadable(err) => {
                            let e = prefixed("Failed to read key file: ", &err);
                            failed.push(fail_entry(&p.id, &p.name, e));
                            proof {
                                outcome = Outcome::Failed((p.id@, p.name@, "Failed to read key file: "@ + err@));
                                assert(outcome_fits(pre, outcome, keys_before, keys_view(meta.keys@), session.key()));
                                assert(failed@.map_values(|x: MigrationFailed| x@) =~= f_view.push((p.id@, p.name@, e@)));
                            }
                        },
                        KeyFileRead::Read(pem) => {
                            let mut source: Option<String> = None;
                            let mut blocked: Option<String> = None;
                            if p.has_passphrase {
                                match pass {
                                    Ok(Some(pw)) => {
                                        source = Some(pw);
                                    },
                                    Ok(None) => {
                                        blocked = Some("Key has passphrase but none stored in keyring".to_string());
                                    },
                                    Err(e) => {
                                        blocked = Some(prefixed("Failed to get passphrase from keyring: ", &e));
                                    },
                                }
                            }
                            match blocked {
                                Some(msg) => {
                                    let ghost m = msg@;
                                    failed.push(fail_entry(&p.id, &p.name, msg));
                                    proof {
                                        outcome = Outcome::Failed((p.id@, p.name@, m));
                                        assert(outcome_fits(pre, outcome, keys_before, keys_view(meta.keys@), session.key()));
                                        assert(failed@.map_values(|x: MigrationFailed| x@) =~= f_view.push((p.id@, p.name@, m)));
                                    }
                                },
                                None => {
                                    let ghost pem_v = pem@;
                                    let ghost pass_v = opt_string_view(source);
                                    let input = ImportKeyInput {
                                        private_key_pem: pem,
                                        name: prefixed_name(&p.name),
                                        comment: Some(p.email.clone()),
                                        export_policy: None,
                                        source_passphrase: source,
                                    };
                                    let ghost new_name = input.name@;
                                    let ghost keys_items = meta.keys@;
                                    proof {
                                        lemma_taken_in(keys_items, new_name);
                                    }
                                    let res = SshKeyVault::import_key(session, input, meta);
                                    let ghost gres = res;
                                    proof {
                                        assert(import_fits(gres, *p, pem_v, pass_v, keys_before, keys_view(meta.keys@), session.key()));
                                        outcome = import_reported(*p, gres);
                                        assert(pre == Precheck::Import((*p, pem_v, pass_v)));
                                        lemma_import_fits(pre, *p, pem_v, pass_v, gres, keys_before, keys_view(meta.keys@), session.key());
                                    }
                                    match res {
                                        Ok((item, file)) => {
                                            let ghost item_view = item@;
                                            files.push((item.id.clone(), file));
                                            succeeded.push(MigrationSuccess {
                                                profile_id: p.id.clone(),
                                                profile_name: p.name.clone(),
                                                vault_key_id: item.id,
                                            });
                                            proof {
                                                assert(keys_view(meta.keys@) =~= keys_before.push(item_view));
                                                assert(succeeded@.map_values(|x: MigrationSuccess| x@) =~= s_view.push(
                                                    (p.id@, p.name@, item_view.id),
                                                ));
                                                assert(keys_view(meta.keys@).take(before.len() as int) =~= keys_before.take(before.len() as int));
                                            }
                                        },
                                        Err(e) => {
                                            let msg = e.message();
                                            let ghost m = msg@;
                                            failed.push(fail_entry(&p.id, &p.name, msg));
                                            proof {
                                                assert(failed@.map_values(|x: MigrationFailed| x@) =~= f_view.push((p.id@, p.name@, m)));
                                            }
                                        },
                                    }
                                },
                            }
                        },
                    }
                }
            },
        }
        proof {
            let o2 = outs.push(outcome);
            assert(o2.drop_last() =~= outs);
            assert(outs.take(outs.len() as int) =~= outs);
            assert(keys_view(meta.keys@).take(keys_before.len() as int) =~= keys_before);
            lemma_fits_extend(profiles@, profile_ids@, reads_in, pass_in, outs, outcome, before.len() as int, keys_before, keys_view(meta.keys@), session.key());
            outs = o2;
        }
        k = k + 1;
    }
    let report = MigrationReport { succeeded, skipped, failed };
    proof {
        assert(migration_fits(profiles@, profile_ids@, reads_in, pass_in, before, keys_view(meta.keys@), report_view(report), outs, session.key()));
        assert(before == keys_view(old(meta).keys@));
    }
    let r = (report, files);
    assert(report_view(r.0) == report_view(report));
    r
}

proof fn lemma_fits_extend(
    profiles: Seq<SshProfile>,
    ids: Seq<String>,
    reads: Seq<KeyFileRead>,
    passes: Seq<Result<Option<String>, String>>,
    outs: Seq<Outcome>,
    o: Outcome,
    b: int,
    prev: Seq<KeyItemModel>,
    cur: Seq<KeyItemModel>,
    vek: Seq<u8>,
)
    requires
        outs.len() < ids.len(),
        reads.len() == ids.len(),
        passes.len() == ids.len(),
        0 <= b,
        prev.len() == b + report_of(outs).0.len(),
        cur.len() == b + report_of(outs.push(o)).0.len(),
        cur.take(prev.len() as int) == prev,
        forall|j: int| 0 <= j < outs.len() ==> outcome_fits(
            precheck(profiles, ids[j]@, reads[j], passes[j]),
            #[trigger] outs[j],
            prev.take(b + successes_before(outs, j)),
            prev.take(b + successes_before(outs, j + 1)),
            vek,
        ),
        outcome_fits(precheck(profiles, ids[outs.len() as int]@, reads[outs.len() as int], passes[outs.len() as int]), o, prev, cur, vek),
    ensures
        forall|j: int| 0 <= j < outs.len() + 1 ==> outcome_fits(
            precheck(profiles, ids[j]@, reads[j], passes[j]),
            #[trigger] outs.push(o)[j],
            cur.take(b + successes_before(outs.push(o), j)),
            cur.take(b + successes_before(outs.push(o), j + 1)),
            vek,
        ),
{
    let o2 = outs.push(o);
    let k = outs.len() as int;
    assert(o2.take(k) =~= outs);
    assert(o2.take(k + 1) =~= o2);
    assert(outs.take(k) =~= outs);
    assert(cur.take(b + successes_before(o2, k)) =~= prev);
    assert(cur.take(b + successes_before(o2, k + 1)) =~= cur);
    assert forall|j: int| 0 <= j < k + 1 implies outcome_fits(
        precheck(profiles, ids[j]@, reads[j], passes[j]),
        #[trigger] o2[j],
        cur.take(b + successes_before(o2, j)),
        cur.take(b + successes_before(o2, j + 1)),
        vek,
    ) by {
        if j < k {
            assert(o2.take(j) =~= outs.take(j));
            assert(o2.take(j + 1) =~= outs.take(j + 1));
            lemma_successes_le(outs, j);
            lemma_successes_le(outs, j + 1);
            assert(cur.take(b + successes_before(outs, j)) =~= prev.take(b + successes_before(outs, j)));
            assert(cur.take(b + successes_before(outs, j + 1)) =~= prev.take(b + successes_before(outs, j + 1)));
            assert(o2[j] == outs[j]);
        }
    }
}

proof fn lemma_import_fits(
    pre: Precheck,
    p: SshProfile,
    pem: Seq<char>,
    pass: Option<Seq<char>>,
    res: Result<(SshKeyItem, EncryptedBlob), VaultError>,
    before: Seq<KeyItemModel>,
    after: Seq<KeyItemModel>,
    vek: Seq<u8>,
)
    requires
        pre == Precheck::Import((p, pem, pass)),
        import_fits(res, p, pem, pass, before, after, vek),
    ensures
        outcome_fits(pre, import_reported(p, res), before, after, vek),
{
    let o = import_reported(p, res);
    match pre {
        Precheck::Import((q, m, s)) => {
            assert(q == p && m == pem && s == pass);
            assert(import_fits(res, q, m, s, before, after, vek) && o == import_reported(q, res));
        },
        _ => {},
    }
}

proof fn lemma_successes_le(outs: Seq<Outcome>, j: int)
    requires
        0 <= j <= outs.len(),
    ensures
        successes_before(outs, j) <= report_of(outs).0.len(),
    decreases outs.len() - j,
{
    if j < outs.len() {
        lemma_successes_le(outs, j + 1);
        assert(outs.take(j + 1).drop_last() =~= outs.take(j));
    } else {
        assert(outs.take(j) =~= outs);
    }
}

proof fn lemma_taken_in(keys: Seq<SshKeyItem>, name: Seq<char>)
    ensures
        name_taken(keys, name) == taken_in(keys_view(keys), name),
{
    if name_taken(keys, name) {
        let i = choose|i: int| 0 <= i < keys.len() && (#[trigger] keys[i]).name@ == name;
        assert(keys_view(keys)[i] == keys[i]@);
    }
    if taken_in(keys_view(keys), name) {
        let i = choose|i: int| 0 <= i < keys_view(keys).len() && (#[trigger] keys_view(keys)[i]).name == name;
        assert(keys_view(keys)[i] == keys[i]@);
    }
}

fn prefixed_name(name: &String) -> (r: String)
    ensures
        r@ == name@ + " (migrated)"@,
{
    let mut r = name.clone();
    r.append(" (migrated)");
    r
}

} // verus!
