//! The SSH agent served from the vault: what each request leads to, which key a
//! request names, the identities offered, the signature reply, and the consent
//! policy for signing.
use vstd::prelude::*;

use crate::protocol::{ssh_string, write_string, AgentMessage, AgentResponse, ResponseModel};
use crate::crypto::{nonce_fits, EncryptedBlob};
use crate::policy::{add_always_rule, has_always_rule, has_rule, PolicyRule, SessionRules};
use crate::vault::{key_index, signed, KeyAlgorithm, KeyState, SshKeyItem, SshKeyVault, VaultMeta, VaultSession};
use subtle::ConstantTimeEq;

verus! {

/// What the agent does with a decoded request.
#[derive(Debug)]
pub enum AgentAction {
    /// Answer at once
    Respond(AgentResponse),
    /// Offer the vault's active keys
    ListIdentities,
    /// Sign `data` with the key whose public blob is `key_blob`
    Sign { key_blob: Vec<u8>, data: Vec<u8> },
}

/// The action a request leads to. Keys are only managed in the vault: adding one is
/// refused, removing succeeds without effect, and extensions are not supported.
pub fn handle_message(msg: AgentMessage) -> (a: AgentAction)
    ensures
        match msg {
            AgentMessage::RequestIdentities => a is ListIdentities,
            AgentMessage::SignRequest { key_blob, data, flags } => a matches AgentAction::Sign {
                key_blob: kb,
                data: d,
            } && kb@ == key_blob@ && d@ == data@,
            AgentMessage::RemoveAllIdentities => a matches AgentAction::Respond(r) && r@ == ResponseModel::Success,
            AgentMessage::RemoveIdentity { .. } => a matches AgentAction::Respond(r) && r@ == ResponseModel::Success,
            _ => a matches AgentAction::Respond(r) && r@ == ResponseModel::Failure,
        },
{
    match msg {
        AgentMessage::RequestIdentities => AgentAction::ListIdentities,
        AgentMessage::SignRequest { key_blob, data, flags: _ } => AgentAction::Sign { key_blob, data },
        AgentMessage::RemoveAllIdentities => AgentAction::Respond(AgentResponse::Success),
        AgentMessage::AddIdentity { .. } => AgentAction::Respond(AgentResponse::Failure),
        AgentMessage::RemoveIdentity { .. } => AgentAction::Respond(AgentResponse::Success),
        AgentMessage::Extension { .. } => AgentAction::Respond(AgentResponse::Failure),
        AgentMessage::Unknown { .. } => AgentAction::Respond(AgentResponse::Failure),
    }
}

/// The SSH wire-format blob of an OpenSSH public key line, if it parses.
pub uninterp spec fn openssh_blob(line: Seq<char>) -> Option<Seq<u8>>;

pub open spec fn bytes_opt(o: Option<Vec<u8>>) -> Option<Seq<u8>> {
    match o {
        Some(v) => Some(v@),
        None => None,
    }
}

/// `PublicKey::from_openssh` followed by `to_bytes`: the key's wire blob.
#[verifier::external_body]
fn public_key_blob(line: &str) -> (r: Option<Vec<u8>>)
    ensures
        bytes_opt(r) == openssh_blob(line@),
{
    let key = ssh_key::PublicKey::from_openssh(line).ok()?;
    key.to_bytes().ok()
}

/// `ConstantTimeEq::ct_eq` on byte slices: whether they are equal, in time that
/// does not depend on their contents when their lengths agree.
#[verifier::external_body]
fn constant_time_eq(a: &[u8], b: &[u8]) -> (r: bool)
    ensures
        r == (a@ == b@),
{
    bool::from(a.ct_eq(b))
}

/// The identities offered: each active key whose public key parses, with its name.
pub open spec fn offered(keys: Seq<SshKeyItem>) -> Seq<(Seq<u8>, Seq<char>)>
    decreases keys.len(),
{
    if keys.len() == 0 {
        Seq::empty()
    } else {
        let p = offered(keys.drop_last());
        let k = keys.last();
        if k.state == KeyState::Active && openssh_blob(k.public_key_openssh@) is Some {
            p.push((openssh_blob(k.public_key_openssh@)->0, k.name@))
        } else {
            p
        }
    }
}

/// The identities answer: the active vault keys when the vault is unlocked and
/// its metadata could be read, none otherwise.
pub fn handle_request_identities(unlocked: bool, meta: Option<&VaultMeta>) -> (r: AgentResponse)
    ensures
        r@ == (ResponseModel::IdentitiesAnswer {
            identities: if unlocked && meta is Some {
                offered(meta->0.keys@)
            } else {
                Seq::empty()
            },
        }),
{
    let mut identities: Vec<(Vec<u8>, String)> = Vec::new();
    if !unlocked {
        assert(crate::protocol::identities_model(identities@) =~= Seq::<(Seq<u8>, Seq<char>)>::empty());
        return AgentResponse::IdentitiesAnswer { identities };
    }
    let m = match meta {
        Some(m) => m,
        None => {
            assert(crate::protocol::identities_model(identities@) =~= Seq::<(Seq<u8>, Seq<char>)>::empty());
            return AgentResponse::IdentitiesAnswer { identities };
        },
    };
    let keys = &m.keys;
    let mut i: usize = 0;
    assert(keys@.take(0) =~= Seq::<SshKeyItem>::empty());
    assert(crate::protocol::identities_model(identities@) =~= Seq::<(Seq<u8>, Seq<char>)>::empty());
    while i < keys.len()
        invariant
            i <= keys@.len(),
            crate::protocol::identities_model(identities@) == offered(keys@.take(i as int)),
        decreases keys@.len() - i,
    {
        assert(keys@.take(i + 1).drop_last() =~= keys@.take(i as int));
        assert(keys@.take(i + 1).last() == keys@[i as int]);
        let k = &keys[i];
        if k.state == KeyState::Active {
            match public_key_blob(k.public_key_openssh.as_str()) {
                Some(blob) => {
                    let ghost before = crate::protocol::identities_model(identities@);
                    let ghost entry = (blob@, k.name@);
                    identities.push((blob, k.name.clone()));
                    assert(crate::protocol::identities_model(identities@) =~= before.push(entry));
                },
                None => {},
            }
        }
        i = i + 1;
    }
    assert(keys@.take(keys@.len() as int) =~= keys@);
    AgentResponse::IdentitiesAnswer { identities }
}

/// Only active keys are offered, and every active key whose public key parses is:
/// each identity offered is the wire blob and name of an active vault key, and each
/// active key with a readable public key appears among them. Archived or otherwise
/// inactive keys are never offered (unless an active key has the same blob).
pub proof fn lemma_offered_are_the_active_keys(keys: Seq<SshKeyItem>)
    ensures
        offered(keys).len() <= keys.len(),
        forall|j: int| 0 <= j < offered(keys).len() ==> exists|i: int|
            0 <= i < keys.len() && keys[i].state == KeyState::Active
                && openssh_blob(keys[i].public_key_openssh@) == Some(#[trigger] offered(keys)[j].0)
                && offered(keys)[j].1 == keys[i].name@,
        forall|i: int| 0 <= i < keys.len() && (#[trigger] keys[i]).state == KeyState::Active
            && openssh_blob(keys[i].public_key_openssh@) is Some ==> exists|j: int|
                0 <= j < offered(keys).len() && #[trigger] offered(keys)[j] == (
                    openssh_blob(keys[i].public_key_openssh@)->0,
                    keys[i].name@,
                ),
    decreases keys.len(),
{
    if keys.len() > 0 {
        let init = keys.drop_last();
        lemma_offered_are_the_active_keys(init);
        let p = offered(init);
        let o = offered(keys);
        let k = keys.last();
        let n = keys.len() - 1;
        assert forall|j: int| 0 <= j < o.len() implies exists|i: int|
            0 <= i < keys.len() && keys[i].state == KeyState::Active
                && openssh_blob(keys[i].public_key_openssh@) == Some(#[trigger] o[j].0)
                && o[j].1 == keys[i].name@ by {
            if j < p.len() {
                assert(o[j] == p[j]);
                let i = choose|i: int|
                    0 <= i < init.len() && init[i].state == KeyState::Active
                        && openssh_blob(init[i].public_key_openssh@) == Some(#[trigger] p[j].0)
                        && p[j].1 == init[i].name@;
                assert(keys[i] == init[i]);
            } else {
                assert(keys[n] == k);
            }
        }
        assert forall|i: int| 0 <= i < keys.len() && (#[trigger] keys[i]).state == KeyState::Active
            && openssh_blob(keys[i].public_key_openssh@) is Some implies exists|j: int|
                0 <= j < o.len() && #[trigger] o[j] == (
                    openssh_blob(keys[i].public_key_openssh@)->0,
                    keys[i].name@,
                ) by {
            if i < n {
                assert(keys[i] == init[i]);
                let j = choose|j: int|
                    0 <= j < p.len() && #[trigger] p[j] == (
                        openssh_blob(init[i].public_key_openssh@)->0,
                        init[i].name@,
                    );
                assert(o[j] == p[j]);
            } else {
                assert(o[p.len() as int] == (openssh_blob(k.public_key_openssh@)->0, k.name@));
            }
        }
    }
}

/// The identities offered are, in vault order, exactly the active keys whose public
/// key parses, each as its wire blob and name.
pub proof fn lemma_offered_in_vault_order(keys: Seq<SshKeyItem>)
    ensures
        offered(keys) == keys.filter(
            |k: SshKeyItem| k.state == KeyState::Active && openssh_blob(k.public_key_openssh@) is Some,
        ).map_values(|k: SshKeyItem| (openssh_blob(k.public_key_openssh@)->0, k.name@)),
    decreases keys.len(),
{
    reveal(Seq::filter);
    let pred = |k: SshKeyItem| k.state == KeyState::Active && openssh_blob(k.public_key_openssh@) is Some;
    let f = |k: SshKeyItem| (openssh_blob(k.public_key_openssh@)->0, k.name@);
    if keys.len() == 0 {
        assert(keys.filter(pred).map_values(f) =~= Seq::<(Seq<u8>, Seq<char>)>::empty());
    } else {
        lemma_offered_in_vault_order(keys.drop_last());
        let sub = keys.drop_last().filter(pred);
        if pred(keys.last()) {
            assert(sub.push(keys.last()).map_values(f) =~= sub.map_values(f).push(f(keys.last())));
        }
    }
}

/// The id of the first active key whose public blob is `target`.
pub open spec fn key_for_blob(keys: Seq<SshKeyItem>, target: Seq<u8>) -> Option<Seq<char>>
    decreases keys.len(),
{
    if keys.len() == 0 {
        None
    } else if keys[0].state == KeyState::Active && openssh_blob(keys[0].public_key_openssh@) == Some(target) {
        Some(keys[0].id@)
    } else {
        key_for_blob(keys.drop_first(), target)
    }
}

/// A request is only ever served by an active key with the requested public blob:
/// the key found is the first active key whose public key gives that blob, and none
/// is found when no active key does.
pub proof fn lemma_key_for_blob_is_first_active_match(keys: Seq<SshKeyItem>, target: Seq<u8>)
    ensures
        key_for_blob(keys, target) is None <==> forall|i: int| 0 <= i < keys.len() ==> !((#[trigger] keys[i]).state
            == KeyState::Active && openssh_blob(keys[i].public_key_openssh@) == Some(target)),
        key_for_blob(keys, target) matches Some(id) ==> exists|i: int|
            0 <= i < keys.len() && (#[trigger] keys[i]).state == KeyState::Active
                && openssh_blob(keys[i].public_key_openssh@) == Some(target) && keys[i].id@ == id
                && forall|j: int| 0 <= j < i ==> !((#[trigger] keys[j]).state == KeyState::Active
                    && openssh_blob(keys[j].public_key_openssh@) == Some(target)),
    decreases keys.len(),
{
    if keys.len() > 0 {
        let rest = keys.drop_first();
        lemma_key_for_blob_is_first_active_match(rest, target);
        assert forall|i: int| 0 < i < keys.len() implies keys[i] == rest[i - 1] by {}
        if !(keys[0].state == KeyState::Active && openssh_blob(keys[0].public_key_openssh@) == Some(target))
            && key_for_blob(rest, target) is Some {
            let id = key_for_blob(rest, target)->0;
            let i = choose|i: int|
                0 <= i < rest.len() && (#[trigger] rest[i]).state == KeyState::Active
                    && openssh_blob(rest[i].public_key_openssh@) == Some(target) && rest[i].id@ == id
                    && forall|j: int| 0 <= j < i ==> !((#[trigger] rest[j]).state == KeyState::Active
                        && openssh_blob(rest[j].public_key_openssh@) == Some(target));
            assert(keys[i + 1] == rest[i]);
            assert forall|j: int| 0 <= j < i + 1 implies !((#[trigger] keys[j]).state == KeyState::Active
                && openssh_blob(keys[j].public_key_openssh@) == Some(target)) by {
                if j > 0 {
                    assert(keys[j] == rest[j - 1]);
                }
            }
        } else if !(keys[0].state == KeyState::Active && openssh_blob(keys[0].public_key_openssh@) == Some(
            target,
        )) {
            assert forall|i: int| 0 <= i < keys.len() implies !((#[trigger] keys[i]).state == KeyState::Active
                && openssh_blob(keys[i].public_key_openssh@) == Some(target)) by {
                if i > 0 {
                    assert(keys[i] == rest[i - 1]);
                }
            }
        }
    }
}

/// The vault key a request names by its public blob (compared in constant time).
pub fn find_key_by_blob(keys: &Vec<SshKeyItem>, target_blob: &[u8]) -> (r: Option<String>)
    ensures
        match r {
            Some(id) => key_for_blob(keys@, target_blob@) == Some(id@),
            None => key_for_blob(keys@, target_blob@) is None,
        },
{
    let mut i: usize = 0;
    assert(keys@.skip(0) == keys@);
    while i < keys.len()
        invariant
            i <= keys@.len(),
            key_for_blob(keys@, target_blob@) == key_for_blob(keys@.skip(i as int), target_blob@),
        decreases keys@.len() - i,
    {
        assert(keys@.skip(i as int)[0] == keys@[i as int]);
        assert(keys@.skip(i as int).drop_first() == keys@.skip(i as int + 1));
        let k = &keys[i];
        if k.state == KeyState::Active {
            match public_key_blob(k.public_key_openssh.as_str()) {
                Some(blob) => {
                    if blob.len() == target_blob.len() && constant_time_eq(blob.as_slice(), target_blob) {
                        return Some(k.id.clone());
                    }
                },
                None => {},
            }
        }
        i = i + 1;
    }
    None
}

/// The signature algorithm name a key signs with.
pub open spec fn signature_algorithm(a: KeyAlgorithm) -> Seq<char> {
    match a {
        KeyAlgorithm::Ed25519 => "ssh-ed25519"@,
        KeyAlgorithm::Rsa4096 => "rsa-sha2-512"@,
    }
}

/// The signature reply: the algorithm name and the signature, each as an SSH string.
pub fn sign_response(algorithm: KeyAlgorithm, signature: &[u8]) -> (r: AgentResponse)
    ensures
        r@ == (ResponseModel::SignResponse {
            signature_blob: ssh_string(vstd::utf8::encode_utf8(signature_algorithm(algorithm))) + ssh_string(signature@),
        }),
{
    let name: &str = match algorithm {
        KeyAlgorithm::Ed25519 => "ssh-ed25519",
        KeyAlgorithm::Rsa4096 => "rsa-sha2-512",
    };
    let alg_bytes = name.as_bytes();
    let mut blob: Vec<u8> = Vec::new();
    write_string(&mut blob, alg_bytes);
    write_string(&mut blob, signature);
    assert(blob@ =~= ssh_string(vstd::utf8::encode_utf8(signature_algorithm(algorithm))) + ssh_string(signature@));
    AgentResponse::SignResponse { signature_blob: blob }
}

/// How long a signing consent is remembered.
#[derive(Debug, Clone, Copy, PartialEq, Eq, Structural)]
pub enum AllowMode {
    /// This request only
    Once,
    /// Until the app locks or restarts
    Session,
    /// Persisted as an "always allow" rule
    Always,
}

/// The user's answer to a consent request.
#[derive(Debug, Clone)]
pub struct ConsentDecision {
    pub approved: bool,
    /// The key chosen to sign with; empty for the requested key
    pub selected_key_id: String,
    /// "once", "session" or "always"
    pub allow_mode: String,
}

pub open spec fn allow_mode_of(text: Seq<char>) -> AllowMode {
    if text == "session"@ {
        AllowMode::Session
    } else if text == "always"@ {
        AllowMode::Always
    } else {
        AllowMode::Once
    }
}

/// What a consent answer leads to: `None` when signing is refused, otherwise the key
/// to sign with and how long the permission is remembered.
pub fn consent_outcome(decision: &ConsentDecision, requested_key_id: &str) -> (r: Option<(String, AllowMode)>)
    ensures
        !decision.approved ==> r is None,
        decision.approved ==> (r matches Some((k, m)) && k@ == (if decision.selected_key_id@.len() == 0 {
            requested_key_id@
        } else {
            decision.selected_key_id@
        }) && m == allow_mode_of(decision.allow_mode@)),
{
    if !decision.approved {
        return None;
    }
    let key = if decision.selected_key_id.as_str().is_empty() {
        requested_key_id.to_string()
    } else {
        decision.selected_key_id.clone()
    };
    let mode = if decision.allow_mode == "session".to_string() {
        AllowMode::Session
    } else if decision.allow_mode == "always".to_string() {
        AllowMode::Always
    } else {
        AllowMode::Once
    };
    Some((key, mode))
}

/// How long the user has to answer a consent request, in milliseconds.
pub const CONSENT_TIMEOUT_MS: u64 = 60_000;

/// What happened while a consent request waits for its answer.
#[derive(Debug)]
pub enum ConsentEvent {
    /// The user answered
    Answered(ConsentDecision),
    /// The consent window went away without an answer
    Closed,
    /// The clock reads this many milliseconds (monotonic)
    Tick(u64),
}

/// What the wait for a consent answer does next.
#[derive(Debug)]
pub enum ConsentWait {
    /// Keep waiting
    Wait,
    /// No answer will come in time: the request is refused
    Refuse,
    /// The answer to apply
    Decide(ConsentDecision),
}

/// One step of waiting for the user's consent to a request made at `started_at`: an
/// answer is applied, a closed window refuses, and once `CONSENT_TIMEOUT_MS` have
/// passed without an answer the request is refused.
pub fn consent_wait_step(started_at: u64, event: ConsentEvent) -> (r: ConsentWait)
    ensures
        match event {
            ConsentEvent::Answered(d) => r == ConsentWait::Decide(d),
            ConsentEvent::Closed => r is Refuse,
            ConsentEvent::Tick(now) => if now >= started_at && now - started_at >= CONSENT_TIMEOUT_MS {
                r is Refuse
            } else {
                r is Wait
            },
        },
{
    match event {
        ConsentEvent::Answered(d) => ConsentWait::Decide(d),
        ConsentEvent::Closed => ConsentWait::Refuse,
        ConsentEvent::Tick(now) => if now >= started_at && now - started_at >= CONSENT_TIMEOUT_MS {
            ConsentWait::Refuse
        } else {
            ConsentWait::Wait
        },
    }
}

/// Whether a signing request needs the user's consent: not when the key has an
/// "always allow" rule or was allowed for this session.
pub fn needs_consent(has_always_rule: bool, allowed_this_session: bool) -> (r: bool)
    ensures
        r == (!has_always_rule && !allowed_this_session),
{
    !has_always_rule && !allowed_this_session
}

// ── Signing requests ──

/// How a signing request starts.
#[derive(Debug)]
pub enum SignStart {
    /// No active vault key has the requested public blob
    Refuse,
    /// A rule allows the key: sign at once
    Sign(String),
    /// Ask the user: the key's id, name and fingerprint
    AskConsent(String, String, String),
}

/// The start of a signing request: the key named by its public blob, signed with at
/// once when an "always" rule or this session allows it, otherwise after consent.
pub fn start_sign_request(
    meta: &VaultMeta,
    rules: &[PolicyRule],
    session_rules: &SessionRules,
    key_blob: &[u8],
) -> (r: SignStart)
    ensures
        match key_for_blob(meta.keys@, key_blob@) {
            None => r is Refuse,
            Some(id) => match key_index(meta.keys@, id) {
                None => r is Refuse,
                Some(i) => if has_rule(rules@, id) || session_rules.allowed_ids().contains(id) {
                    r matches SignStart::Sign(k) && k@ == id
                } else {
                    r matches SignStart::AskConsent(k, n, f) && k@ == id && n@ == meta.keys@[i].name@
                        && f@ == meta.keys@[i].fingerprint@
                },
            },
        },
{
    let key_id = match find_key_by_blob(&meta.keys, key_blob) {
        None => return SignStart::Refuse,
        Some(id) => id,
    };
    let item = match SshKeyVault::get_key(meta, key_id.as_str()) {
        Err(_) => return SignStart::Refuse,
        Ok(k) => k,
    };
    if has_always_rule(rules, key_id.as_str()) || session_rules.is_allowed(key_id.as_str()) {
        return SignStart::Sign(key_id);
    }
    SignStart::AskConsent(key_id, item.name, item.fingerprint)
}

/// Applies the user's answer: `None` when refused; otherwise the key to sign with,
/// remembered for the session or as an "always" rule (named after the vault key,
/// or with an empty name when the vault has no such key) as the answer says.
pub fn apply_consent(
    decision: &ConsentDecision,
    requested_key_id: &str,
    meta: &VaultMeta,
    rules: &mut Vec<PolicyRule>,
    session_rules: &mut SessionRules,
    created_at: &str,
) -> (r: Option<String>)
    ensures
        !decision.approved ==> r is None && final(rules)@ == old(rules)@ && final(session_rules).allowed_ids() == old(session_rules).allowed_ids(),
        decision.approved ==> (r matches Some(k) && k@ == (if decision.selected_key_id@.len() == 0 {
            requested_key_id@
        } else {
            decision.selected_key_id@
        }) && match allow_mode_of(decision.allow_mode@) {
            AllowMode::Once => final(rules)@ == old(rules)@ && final(session_rules).allowed_ids() == old(session_rules).allowed_ids(),
            AllowMode::Session => final(rules)@ == old(rules)@
                && final(session_rules).allowed_ids() == old(session_rules).allowed_ids().insert(k@),
            AllowMode::Always => final(session_rules).allowed_ids() == old(session_rules).allowed_ids()
                && has_rule(final(rules)@, k@) && (has_rule(old(rules)@, k@) ==> final(rules)@ == old(rules)@)
                && (!has_rule(old(rules)@, k@) ==> final(rules)@.drop_last() == old(rules)@
                    && final(rules)@.last().key_name@ == match key_index(meta.keys@, k@) {
                        Some(i) => meta.keys@[i].name@,
                        None => Seq::<char>::empty(),
                    }),
        }),
{
    let (key, mode) = match consent_outcome(decision, requested_key_id) {
        None => return None,
        Some(x) => x,
    };
    match mode {
        AllowMode::Once => {},
        AllowMode::Session => {
            session_rules.allow(key.as_str());
        },
        AllowMode::Always => {
            let name = match SshKeyVault::get_key(meta, key.as_str()) {
                Ok(k) => k.name,
                Err(_) => String::new(),
            };
            add_always_rule(rules, key.as_str(), name.as_str(), created_at);
            proof {
                if !has_rule(old(rules)@, key@) {
                    assert(rules@[rules@.len() - 1].key_id@ == key@);
                }
            }
        },
    }
    Some(key)
}

/// The signature reply owed for signing `data` with key `key_id`: with the vault
/// unlocked, the key's sealed file at hand (with a nonce the cipher takes), the
/// file opening to a key that signs, and the key listed, the algorithm name and
/// the signature; otherwise none.
pub open spec fn sign_reply(
    session: Option<&VaultSession>,
    keys: Seq<SshKeyItem>,
    key_id: Seq<char>,
    data: Seq<u8>,
    key_file: Option<&EncryptedBlob>,
) -> Option<Seq<u8>> {
    match (session, key_file) {
        (Some(s), Some(b)) => if nonce_fits(b@) {
            match (signed(s.key(), b@, data), key_index(keys, key_id)) {
                (Some(sig), Some(i)) => Some(
                    ssh_string(vstd::utf8::encode_utf8(signature_algorithm(keys[i].algorithm))) + ssh_string(sig),
                ),
                _ => None,
            }
        } else {
            None
        },
        _ => None,
    }
}

/// The signature reply for `key_id`: refused without an unlocked session, when
/// signing fails, or when the vault has no such key; otherwise the signature
/// framed with the key's algorithm name.
pub fn perform_sign(
    session: Option<&VaultSession>,
    meta: &VaultMeta,
    key_id: &str,
    data: &[u8],
    key_file: Option<&EncryptedBlob>,
) -> (r: AgentResponse)
    ensures
        match sign_reply(session, meta.keys@, key_id@, data@, key_file) {
            Some(blob) => r@ == (ResponseModel::SignResponse { signature_blob: blob }),
            None => r is Failure,
        },
{
    let s = match session {
        None => return AgentResponse::Failure,
        Some(s) => s,
    };
    if key_file.is_none() {
        return AgentResponse::Failure;
    }
    let sig = match SshKeyVault::sign_checked(s, key_id, data, key_file) {
        Some(Ok(v)) => v,
        _ => return AgentResponse::Failure,
    };
    match SshKeyVault::get_key(meta, key_id) {
        Err(_) => AgentResponse::Failure,
        Ok(k) => sign_response(k.algorithm, sig.as_slice()),
    }
}

// ── The course of a signing request ──

/// A line for the audit log: what happened, to which key, and how it ended.
#[derive(Debug, Clone)]
pub struct AuditNote {
    pub action: String,
    pub key_name: String,
    pub result: String,
}

/// Where a signing request stands.
#[derive(Debug, Clone)]
pub enum SignFlow {
    /// No request has come yet
    Start,
    /// The user was asked about key `key_id` (named `key_name`) at clock reading `started_at`
    AwaitingConsent { key_id: String, key_name: String, started_at: u64 },
    /// Signed or refused
    Finished,
}

/// What moves a signing request on.
#[derive(Debug)]
pub enum SignEvent {
    /// The client asks for a signature by the key with this public blob, at clock reading `now`
    Request { key_blob: Vec<u8>, now: u64 },
    /// Something happened while the user is being asked
    Consent(ConsentEvent),
}

/// What the agent does next with a signing request.
#[derive(Debug)]
pub enum SignAction {
    /// Sign with this key and send the signature
    Sign(String),
    /// Show the consent popup for the key's id, name and fingerprint, and wait
    AskConsent(String, String, String),
    /// Keep waiting for the user
    Wait,
    /// Answer with a failure, after writing this line to the audit log when there is one
    Refuse(Option<AuditNote>),
}

/// The audit line `action` / `result` for the key named `key_name`.
pub open spec fn is_note(n: Option<AuditNote>, action: Seq<char>, key_name: Seq<char>, result: Seq<char>) -> bool {
    n matches Some(a) && a.action@ == action && a.key_name@ == key_name && a.result@ == result
}

/// One step of a signing request. A request is signed at once when an "always" rule
/// or this session allows its key, and otherwise waits for the user; an approving
/// answer signs (with the key the user picked) and is remembered as the answer says,
/// a refusal refuses, a closed window refuses with a "consent_dropped" audit line, and
/// an answer that has not come within `CONSENT_TIMEOUT_MS` refuses with a
/// "consent_timeout" audit line. So a signature is only ever given after a rule, a
/// session permission or an approving answer. An event that does not fit the stage
/// the request is at ends it with a refusal.
pub fn sign_flow_step(
    flow: SignFlow,
    event: SignEvent,
    meta: &VaultMeta,
    rules: &mut Vec<PolicyRule>,
    session_rules: &mut SessionRules,
    created_at: &str,
) -> (r: (SignFlow, SignAction))
    ensures
        // a signature only after a rule, a session permission or an approving answer
        r.1 matches SignAction::Sign(k) ==> (flow is Start && event is Request && (has_rule(old(rules)@, k@)
            || old(session_rules).allowed_ids().contains(k@))) || (flow is AwaitingConsent
            && (event matches SignEvent::Consent(ConsentEvent::Answered(d)) && d.approved)),
        (r.1 is Sign || r.1 is Refuse) ==> r.0 is Finished,
        match (flow, event) {
            (SignFlow::Start, SignEvent::Request { key_blob, now }) => final(rules)@ == old(rules)@
                && final(session_rules).allowed_ids() == old(session_rules).allowed_ids()
                && match key_for_blob(meta.keys@, key_blob@) {
                    None => r.1 == SignAction::Refuse(None),
                    Some(id) => match key_index(meta.keys@, id) {
                        None => r.1 == SignAction::Refuse(None),
                        Some(i) => if has_rule(old(rules)@, id) || old(session_rules).allowed_ids().contains(id) {
                            r.1 matches SignAction::Sign(k) && k@ == id
                        } else {
                            &&& (r.1 matches SignAction::AskConsent(k, n, f) && k@ == id && n@ == meta.keys@[i].name@
                                && f@ == meta.keys@[i].fingerprint@)
                            &&& (r.0 matches SignFlow::AwaitingConsent { key_id, key_name, started_at }
                                && key_id@ == id && key_name@ == meta.keys@[i].name@ && started_at == now)
                        },
                    },
                },
            (SignFlow::AwaitingConsent { key_id, key_name, started_at }, SignEvent::Consent(e)) => match e {
                ConsentEvent::Closed => final(rules)@ == old(rules)@
                    && final(session_rules).allowed_ids() == old(session_rules).allowed_ids()
                    && (r.1 matches SignAction::Refuse(n) && is_note(n, "consent_dropped"@, key_name@, "channel closed"@)),
                ConsentEvent::Tick(t) => final(rules)@ == old(rules)@
                    && final(session_rules).allowed_ids() == old(session_rules).allowed_ids()
                    && (if t >= started_at && t - started_at >= CONSENT_TIMEOUT_MS {
                        r.1 matches SignAction::Refuse(n) && is_note(n, "consent_timeout"@, key_name@, "auto-denied after 60s"@)
                    } else {
                        r.1 is Wait && r.0 == flow
                    }),
                ConsentEvent::Answered(d) => if !d.approved {
                    r.1 == SignAction::Refuse(None) && final(rules)@ == old(rules)@
                        && final(session_rules).allowed_ids() == old(session_rules).allowed_ids()
                } else {
                    (r.1 matches SignAction::Sign(k) && k@ == (if d.selected_key_id@.len() == 0 {
                        key_id@
                    } else {
                        d.selected_key_id@
                    }) && match allow_mode_of(d.allow_mode@) {
                        AllowMode::Once => final(rules)@ == old(rules)@
                            && final(session_rules).allowed_ids() == old(session_rules).allowed_ids(),
                        AllowMode::Session => final(rules)@ == old(rules)@
                            && final(session_rules).allowed_ids() == old(session_rules).allowed_ids().insert(k@),
                        AllowMode::Always => final(session_rules).allowed_ids() == old(session_rules).allowed_ids()
                            && has_rule(final(rules)@, k@) && (has_rule(old(rules)@, k@) ==> final(rules)@ == old(rules)@)
                            && (!has_rule(old(rules)@, k@) ==> final(rules)@.drop_last() == old(rules)@
                                && final(rules)@.last().key_name@ == match key_index(meta.keys@, k@) {
                                    Some(i) => meta.keys@[i].name@,
                                    None => Seq::<char>::empty(),
                                }),
                    })
                },
            },
            _ => r == (SignFlow::Finished, SignAction::Refuse(None)) && final(rules)@ == old(rules)@
                && final(session_rules).allowed_ids() == old(session_rules).allowed_ids(),
        },
{
    match flow {
        SignFlow::Start => match event {
            SignEvent::Request { key_blob, now } => {
                match start_sign_request(meta, rules.as_slice(), session_rules, key_blob.as_slice()) {
                    SignStart::Refuse => (SignFlow::Finished, SignAction::Refuse(None)),
                    SignStart::Sign(k) => (SignFlow::Finished, SignAction::Sign(k)),
                    SignStart::AskConsent(k, n, f) => {
                        let waiting = SignFlow::AwaitingConsent { key_id: k.clone(), key_name: n.clone(), started_at: now };
                        (waiting, SignAction::AskConsent(k, n, f))
                    },
                }
            },
            SignEvent::Consent(_) => (SignFlow::Finished, SignAction::Refuse(None)),
        },
        SignFlow::AwaitingConsent { key_id, key_name, started_at } => match event {
            SignEvent::Request { .. } => (SignFlow::Finished, SignAction::Refuse(None)),
            SignEvent::Consent(ConsentEvent::Closed) => {
                let note = AuditNote {
                    action: "consent_dropped".to_string(),
                    key_name: key_name,
                    result: "channel closed".to_string(),
                };
                (SignFlow::Finished, SignAction::Refuse(Some(note)))
            },
            SignEvent::Consent(e) => {
                let ghost waiting = SignFlow::AwaitingConsent { key_id: key_id, key_name: key_name, started_at: started_at };
                match consent_wait_step(started_at, e) {
                    ConsentWait::Wait => {
                        let back = SignFlow::AwaitingConsent { key_id, key_name, started_at };
                        assert(back == waiting);
                        (back, SignAction::Wait)
                    },
                    ConsentWait::Refuse => {
                        let note = AuditNote {
                            action: "consent_timeout".to_string(),
                            key_name: key_name,
                            result: "auto-denied after 60s".to_string(),
                        };
                        (SignFlow::Finished, SignAction::Refuse(Some(note)))
                    },
                    ConsentWait::Decide(d) => match apply_consent(&d, key_id.as_str(), meta, rules, session_rules, created_at) {
                        None => (SignFlow::Finished, SignAction::Refuse(None)),
                        Some(k) => (SignFlow::Finished, SignAction::Sign(k)),
                    },
                }
            },
        },
        SignFlow::Finished => (SignFlow::Finished, SignAction::Refuse(None)),
    }
}

/// Who is asking: the client process, when it is known.
#[derive(Debug, Clone)]
pub struct ClientInfo {
    pub process_name: String,
    pub process_path: String,
    pub pid: u32,
}

/// The last part of a path, after its last `\` or `/`.
pub open spec fn path_file_name(p: Seq<char>) -> Seq<char>
    decreases p.len(),
{
    if p.len() == 0 {
        p
    } else if p.last() == '\\' || p.last() == '/' {
        Seq::empty()
    } else {
        path_file_name(p.drop_last()).push(p.last())
    }
}

/// The client of process `pid` whose executable is at `path` (`None` or empty when
/// it could not be read): named after the executable, or "PID <pid>".
pub fn client_info(pid: u32, path: Option<String>) -> (r: ClientInfo)
    ensures
        r.pid == pid,
        match path {
            Some(p) => if p@.len() > 0 {
                r.process_path@ == p@ && r.process_name@ == path_file_name(p@)
            } else {
                r.process_path@.len() == 0 && r.process_name@ == "PID "@ + crate::text::decimal(pid as nat)
            },
            None => r.process_path@.len() == 0 && r.process_name@ == "PID "@ + crate::text::decimal(pid as nat),
        },
{
    let p = match path {
        Some(p) => p,
        None => String::new(),
    };
    let c = crate::text::chars_of(p.as_str());
    if c.len() == 0 {
        let mut name = "PID ".to_string();
        crate::text::push_decimal(&mut name, pid as u64);
        return ClientInfo { process_name: name, process_path: String::new(), pid };
    }
    let mut start: usize = c.len();
    assert(c@.take(start as int) =~= c@);
    assert(c@.skip(start as int) =~= Seq::<char>::empty());
    while start > 0 && c[start - 1] != '\\' && c[start - 1] != '/'
        invariant
            start <= c@.len(),
            path_file_name(c@) == path_file_name(c@.take(start as int)) + c@.skip(start as int),
        decreases start,
    {
        proof {
            let t = c@.take(start as int);
            assert(t.drop_last() =~= c@.take(start - 1));
            assert(c@.skip(start - 1) =~= seq![c@[start - 1]] + c@.skip(start as int));
            assert(path_file_name(t) == path_file_name(t.drop_last()).push(t.last()));
            assert(path_file_name(t.drop_last()).push(t.last()) + c@.skip(start as int)
                =~= path_file_name(c@.take(start - 1)) + c@.skip(start - 1));
        }
        start = start - 1;
    }
    proof {
        let t = c@.take(start as int);
        if start > 0 {
            assert(path_file_name(t) == Seq::<char>::empty());
        } else {
            assert(t =~= Seq::<char>::empty());
        }
        assert(c@.skip(start as int) =~= c@.subrange(start as int, c@.len() as int));
    }
    let name = crate::text::string_of(vstd::slice::slice_subrange(c.as_slice(), start, c.len()));
    ClientInfo { process_name: name, process_path: p, pid }
}

} // verus!
