//! The SSH key vault. Two-layer key hierarchy: a passphrase derives (Argon2id) the
//! vault master key, which seals the vault encryption key (VEK) kept in the
//! metadata; the VEK seals each private key. The vault works on its metadata and
//! key files in memory; reading and writing them is the caller's.
use vstd::prelude::*;

use crate::crypto::{
    b64_encode, blob_result, bytes_result, decrypt, decrypt_model, derive_key, derive_key_model, encrypt,
    encrypt_model, key_result, nonce_fits, BlobModel, CryptoError, CryptoErrorModel,
    EncryptedBlob, KdfParams,
};
use crate::text::decimal;

use rand::rngs::OsRng;
use signature::Signer;
use ssh_key::{Algorithm, HashAlg, LineEnding, PrivateKey};

verus! {

#[derive(Debug, Clone, Copy, PartialEq, Eq, Structural)]
pub enum KeyAlgorithm {
    Ed25519,
    Rsa4096,
}

pub open spec fn algorithm_text(a: KeyAlgorithm) -> Seq<char> {
    match a {
        KeyAlgorithm::Ed25519 => "ed25519"@,
        KeyAlgorithm::Rsa4096 => "rsa-4096"@,
    }
}

impl KeyAlgorithm {
    /// The text the algorithm is shown with.
    pub fn to_text(&self) -> (r: &'static str)
        ensures
            r@ == algorithm_text(*self),
    {
        match self {
            KeyAlgorithm::Ed25519 => "ed25519",
            KeyAlgorithm::Rsa4096 => "rsa-4096",
        }
    }
}

#[derive(Debug, Clone, Copy, PartialEq, Eq, Structural)]
pub enum KeyState {
    Active,
    Archived,
}

#[derive(Debug, Clone, Copy, PartialEq, Eq, Structural)]
pub struct ExportPolicy {
    pub allow_private_export: bool,
}

impl Default for ExportPolicy {
    fn default() -> (r: Self)
        ensures
            r.allow_private_export,
    {
        ExportPolicy { allow_private_export: true }
    }
}

/// Metadata of one key. Times are RFC-3339 texts.
#[derive(Debug, Clone)]
pub struct SshKeyItem {
    pub id: String,
    pub name: String,
    pub algorithm: KeyAlgorithm,
    pub fingerprint: String,
    pub public_key_openssh: String,
    pub state: KeyState,
    pub export_policy: ExportPolicy,
    pub comment: String,
    pub allowed_hosts: Vec<String>,
    pub created_at: String,
    pub updated_at: String,
}

/// Model of a key's metadata: its strings as character sequences.
pub struct KeyItemModel {
    pub id: Seq<char>,
    pub name: Seq<char>,
    pub algorithm: KeyAlgorithm,
    pub fingerprint: Seq<char>,
    pub public_key_openssh: Seq<char>,
    pub state: KeyState,
    pub export_policy: ExportPolicy,
    pub comment: Seq<char>,
    pub allowed_hosts: Seq<Seq<char>>,
    pub created_at: Seq<char>,
    pub updated_at: Seq<char>,
}

impl View for SshKeyItem {
    type V = KeyItemModel;

    open spec fn view(&self) -> KeyItemModel {
        KeyItemModel {
            id: self.id@,
            name: self.name@,
            algorithm: self.algorithm,
            fingerprint: self.fingerprint@,
            public_key_openssh: self.public_key_openssh@,
            state: self.state,
            export_policy: self.export_policy,
            comment: self.comment@,
            allowed_hosts: self.allowed_hosts@.map_values(|h: String| h@),
            created_at: self.created_at@,
            updated_at: self.updated_at@,
        }
    }
}

/// The keys of the vault, as models.
pub open spec fn keys_view(keys: Seq<SshKeyItem>) -> Seq<KeyItemModel> {
    keys.map_values(|k: SshKeyItem| k@)
}

/// What list views show of a key.
#[derive(Debug, Clone)]
pub struct SshKeyItemSummary {
    pub id: String,
    pub name: String,
    pub algorithm: KeyAlgorithm,
    pub fingerprint: String,
    pub state: KeyState,
    pub created_at: String,
}

impl SshKeyItemSummary {
    pub fn from_item(item: &SshKeyItem) -> (r: Self)
        ensures
            r.id@ == item.id@ && r.name@ == item.name@ && r.algorithm == item.algorithm
                && r.fingerprint@ == item.fingerprint@ && r.state == item.state
                && r.created_at@ == item.created_at@,
    {
        SshKeyItemSummary {
            id: item.id.clone(),
            name: item.name.clone(),
            algorithm: item.algorithm,
            fingerprint: item.fingerprint.clone(),
            state: item.state,
            created_at: item.created_at.clone(),
        }
    }
}

/// The vault metadata file.
#[derive(Debug, Clone)]
pub struct VaultMeta {
    pub version: u32,
    pub kdf_params: KdfParams,
    pub encrypted_vek: EncryptedBlob,
    pub keys: Vec<SshKeyItem>,
}

/// An unlocked vault: holds the decrypted VEK.
pub struct VaultSession {
    vek: [u8; 32],
}

impl VaultSession {
    pub closed spec fn key(&self) -> Seq<u8> {
        self.vek@
    }
}

#[derive(Debug, Clone)]
pub struct GenerateKeyInput {
    pub name: String,
    pub algorithm: KeyAlgorithm,
    pub comment: Option<String>,
    pub export_policy: Option<ExportPolicy>,
    pub allowed_hosts: Vec<String>,
}

#[derive(Debug, Clone)]
pub struct ImportKeyInput {
    pub private_key_pem: String,
    pub name: String,
    pub comment: Option<String>,
    pub export_policy: Option<ExportPolicy>,
    /// Passphrase of the source PEM, if it is encrypted
    pub source_passphrase: Option<String>,
}

#[derive(Debug, Clone)]
pub struct UpdateKeyInput {
    pub name: Option<String>,
    pub comment: Option<String>,
    pub export_policy: Option<ExportPolicy>,
    pub allowed_hosts: Option<Vec<String>>,
}

#[derive(Debug)]
pub enum VaultError {
    NotInitialized(String),
    AlreadyInitialized,
    Locked,
    KeyNotFound(String),
    DuplicateKeyName(String),
    InvalidPassphrase,
    KeyGenError(String),
    KeyParseError(String),
    ExportDenied,
    Crypto(CryptoError),
    Io(String),
    Serde(String),
}

/// The text a crypto error is shown with.
pub open spec fn crypto_error_text(e: CryptoError) -> Seq<char> {
    match e {
        CryptoError::KdfError(s) => "KDF error: "@ + s@,
        CryptoError::EncryptionError(s) => "Encryption error: "@ + s@,
        CryptoError::DecryptionError(s) => "Decryption error: "@ + s@,
        CryptoError::InvalidInput(s) => "Invalid input: "@ + s@,
    }
}

/// The text a vault error is shown with.
pub open spec fn vault_error_text(e: VaultError) -> Seq<char> {
    match e {
        VaultError::NotInitialized(s) => "Vault not initialized at "@ + s@,
        VaultError::AlreadyInitialized => "Vault already initialized"@,
        VaultError::Locked => "Vault is locked (no active session)"@,
        VaultError::KeyNotFound(s) => "Key not found: "@ + s@,
        VaultError::DuplicateKeyName(s) => "Duplicate key name: "@ + s@,
        VaultError::InvalidPassphrase => "Invalid passphrase"@,
        VaultError::KeyGenError(s) => "Key generation error: "@ + s@,
        VaultError::KeyParseError(s) => "Key parse error: "@ + s@,
        VaultError::ExportDenied => "Export denied: key policy forbids private export"@,
        VaultError::Crypto(c) => "Crypto error: "@ + crypto_error_text(c),
        VaultError::Io(s) => "IO error: "@ + s@,
        VaultError::Serde(s) => "Serialization error: "@ + s@,
    }
}

impl VaultError {
    /// The text the error is shown with.
    pub fn message(&self) -> (r: String)
        ensures
            r@ == vault_error_text(*self),
    {
        match self {
            VaultError::NotInitialized(s) => prefixed_text("Vault not initialized at ", s),
            VaultError::AlreadyInitialized => "Vault already initialized".to_string(),
            VaultError::Locked => "Vault is locked (no active session)".to_string(),
            VaultError::KeyNotFound(s) => prefixed_text("Key not found: ", s),
            VaultError::DuplicateKeyName(s) => prefixed_text("Duplicate key name: ", s),
            VaultError::InvalidPassphrase => "Invalid passphrase".to_string(),
            VaultError::KeyGenError(s) => prefixed_text("Key generation error: ", s),
            VaultError::KeyParseError(s) => prefixed_text("Key parse error: ", s),
            VaultError::ExportDenied => "Export denied: key policy forbids private export".to_string(),
            VaultError::Crypto(c) => {
                let inner = match c {
                    CryptoError::KdfError(t) => prefixed_text("KDF error: ", t),
                    CryptoError::EncryptionError(t) => prefixed_text("Encryption error: ", t),
                    CryptoError::DecryptionError(t) => prefixed_text("Decryption error: ", t),
                    CryptoError::InvalidInput(t) => prefixed_text("Invalid input: ", t),
                };
                prefixed_text("Crypto error: ", &inner)
            },
            VaultError::Io(s) => prefixed_text("IO error: ", s),
            VaultError::Serde(s) => prefixed_text("Serialization error: ", s),
        }
    }
}

/// The vault's format version.
pub const VAULT_VERSION: u32 = 1;

// ── Key material from the ssh-key crate ──

/// A key pair as plain values.
#[derive(Debug)]
pub struct KeyMaterial {
    /// 0: Ed25519, 1: RSA, 2: another algorithm
    pub algorithm_tag: u8,
    /// The algorithm as `Debug` prints it
    pub algorithm_text: String,
    /// SHA-256 fingerprint
    pub fingerprint: String,
    /// Public key in OpenSSH format, no comment
    pub public_openssh: String,
    /// Private key in OpenSSH format, unencrypted, LF line endings
    pub private_pem: String,
}

pub open spec fn material_view(m: KeyMaterial) -> (u8, Seq<char>, Seq<char>, Seq<char>, Seq<char>) {
    (m.algorithm_tag, m.algorithm_text@, m.fingerprint@, m.public_openssh@, m.private_pem@)
}

/// What parsing an OpenSSH private key (and decrypting it with the passphrase, if
/// one is given) yields: its material, or whether decryption failed and the error text.
pub uninterp spec fn parsed_key(pem: Seq<char>, passphrase: Option<Seq<char>>) -> Result<
    (u8, Seq<char>, Seq<char>, Seq<char>, Seq<char>),
    (bool, Seq<char>),
>;

/// The SSH signature bytes that the private key `pem` makes over `data`, or whether
/// parsing (false) or signing (true) failed and the error text.
pub uninterp spec fn pem_signature(pem: Seq<char>, data: Seq<u8>) -> Result<Seq<u8>, (bool, Seq<char>)>;

/// The tag that key material of an algorithm carries.
pub open spec fn algorithm_tag(a: KeyAlgorithm) -> u8 {
    match a {
        KeyAlgorithm::Ed25519 => 0,
        KeyAlgorithm::Rsa4096 => 1,
    }
}

/// Whether the material's OpenSSH text parses, without a passphrase, back to the
/// same material.
pub open spec fn reparses(m: KeyMaterial) -> bool {
    parsed_key(m.private_pem@, None) == Ok::<(u8, Seq<char>, Seq<char>, Seq<char>, Seq<char>), (bool, Seq<char>)>(
        material_view(m),
    )
}

/// Whether `pem` is the text of a key whose algorithm tag, fingerprint and public
/// key are `tag`, `fingerprint` and `public`.
pub open spec fn pem_describes(pem: Seq<char>, tag: u8, fingerprint: Seq<char>, public: Seq<char>) -> bool {
    parsed_key(pem, None) matches Ok((t, _, f, p, x)) && t == tag && f == fingerprint && p == public && x == pem
}

pub open spec fn opt_text(o: Option<&str>) -> Option<Seq<char>> {
    match o {
        Some(s) => Some(s@),
        None => None,
    }
}

pub open spec fn parsed_view(r: Result<KeyMaterial, (bool, String)>) -> Result<
    (u8, Seq<char>, Seq<char>, Seq<char>, Seq<char>),
    (bool, Seq<char>),
> {
    match r {
        Ok(m) => Ok(material_view(m)),
        Err((d, e)) => Err((d, e@)),
    }
}

pub open spec fn signature_view(r: Result<Vec<u8>, (bool, String)>) -> Result<Seq<u8>, (bool, Seq<char>)> {
    match r {
        Ok(v) => Ok(v@),
        Err((d, e)) => Err((d, e@)),
    }
}

/// `PrivateKey::random` with the operating system's random source (RSA keys with
/// SHA-512 signatures), converted to plain values. The key is random; what is
/// stated is that its algorithm is the one asked for and that its OpenSSH text
/// parses back to the same algorithm, fingerprint, public key and text.
#[verifier::external_body]
fn generate_key_material(algorithm: KeyAlgorithm) -> (r: Result<KeyMaterial, String>)
    ensures
        r matches Ok(m) ==> m.algorithm_tag == algorithm_tag(algorithm) && reparses(m),
{
    let alg = match algorithm {
        KeyAlgorithm::Ed25519 => Algorithm::Ed25519,
        KeyAlgorithm::Rsa4096 => Algorithm::Rsa { hash: Some(HashAlg::Sha512) },
    };
    let k = PrivateKey::random(&mut OsRng, alg).map_err(|e| e.to_string())?;
    Ok(KeyMaterial {
        algorithm_tag: match k.algorithm() { Algorithm::Ed25519 => 0, Algorithm::Rsa { .. } => 1, _ => 2 },
        algorithm_text: format!("{:?}", k.algorithm()),
        fingerprint: k.fingerprint(HashAlg::Sha256).to_string(),
        public_openssh: k.public_key().to_openssh().map_err(|e| e.to_string())?,
        private_pem: k.to_openssh(LineEnding::LF).map_err(|e| e.to_string())?.to_string(),
    })
}

/// `PrivateKey::from_openssh`, then `decrypt` with the passphrase when one is
/// given, converted to plain values; the result is named. The key's OpenSSH text
/// parses back, without a passphrase, to the same material.
#[verifier::external_body]
fn parse_key_material(pem: &str, passphrase: Option<&str>) -> (r: Result<KeyMaterial, (bool, String)>)
    ensures
        parsed_view(r) == parsed_key(pem@, opt_text(passphrase)),
        r matches Ok(m) ==> reparses(m),
{
    let mut k = PrivateKey::from_openssh(pem).map_err(|e| (false, e.to_string()))?;
    if let Some(p) = passphrase {
        k = k.decrypt(p).map_err(|e| (true, e.to_string()))?;
    }
    Ok(KeyMaterial {
        algorithm_tag: match k.algorithm() { Algorithm::Ed25519 => 0, Algorithm::Rsa { .. } => 1, _ => 2 },
        algorithm_text: format!("{:?}", k.algorithm()),
        fingerprint: k.fingerprint(HashAlg::Sha256).to_string(),
        public_openssh: k.public_key().to_openssh().map_err(|e| (false, e.to_string()))?,
        private_pem: k.to_openssh(LineEnding::LF).map_err(|e| (false, e.to_string()))?.to_string(),
    })
}

/// `PrivateKey::from_openssh` and `Signer::try_sign`: the signature bytes; the
/// result is named.
#[verifier::external_body]
fn sign_with_pem(pem: &str, data: &[u8]) -> (r: Result<Vec<u8>, (bool, String)>)
    ensures
        signature_view(r) == pem_signature(pem@, data@),
{
    let k = PrivateKey::from_openssh(pem).map_err(|e| (false, e.to_string()))?;
    let s = Signer::try_sign(&k, data).map_err(|e| (true, e.to_string()))?;
    Ok(s.as_bytes().to_vec())
}

/// The current UTC time in RFC-3339 (as the metadata file stores it).
#[verifier::external_body]
fn utc_now() -> (r: String) {
    chrono::Utc::now().to_rfc3339_opts(chrono::SecondsFormat::AutoSi, true)
}

/// A fresh key id (a random UUID v4).
#[verifier::external_body]
pub(crate) fn fresh_key_id() -> (r: String) {
    uuid::Uuid::new_v4().to_string()
}

// ── Models ──

/// What unlocking with `passphrase` yields: the VEK, or the crypto error.
pub open spec fn vek_model(passphrase: Seq<char>, meta: VaultMeta) -> Result<Seq<u8>, CryptoErrorModel> {
    match derive_key_model(passphrase, meta.kdf_params) {
        Err(e) => Err(e),
        Ok(k) => match decrypt_model(meta.encrypted_vek@, k) {
            Err(e) => Err(e),
            Ok(v) => if v.len() == 32 {
                Ok(v)
            } else {
                Err(CryptoErrorModel::DecryptionError(
                    "VEK has wrong length: "@ + decimal(v.len()) + " (expected 32)"@,
                ))
            },
        },
    }
}

/// Fresh KDF parameters as `KdfParams::default` makes them: a random 32-byte salt,
/// 64 MiB memory, 3 iterations, parallelism 1.
pub open spec fn fresh_params(p: KdfParams) -> bool {
    &&& p.memory_cost == 65_536 && p.time_cost == 3 && p.parallelism == 1
    &&& exists|s: Seq<u8>| s.len() == 32 && p.salt@ == #[trigger] b64_encode(s)
}

/// Whether `c` is what re-sealing `vek` under `passphrase` can fail with: the key
/// derivation with some fresh parameters, or the sealing under the derived key
/// with some nonce.
pub open spec fn rekey_failed(c: CryptoErrorModel, passphrase: Seq<char>, vek: Seq<u8>) -> bool {
    exists|p: KdfParams| #[trigger] fresh_params(p) && (derive_key_model(passphrase, p) == Err::<Seq<u8>, CryptoErrorModel>(c)
        || exists|k: Seq<u8>, n: Seq<u8>| derive_key_model(passphrase, p) == Ok::<Seq<u8>, CryptoErrorModel>(k)
            && n.len() == 12 && #[trigger] encrypt_model(vek, k, n) == Err::<BlobModel, CryptoErrorModel>(c))
}

/// What changing the passphrase of the vault `before` from `old_pass` to
/// `new_pass` may give: nothing changes on an error; opening the VEK with the old
/// passphrase fails with its error; otherwise the VEK is re-sealed, opening with
/// the new passphrase under fresh parameters, the keys kept, or the error is one
/// that re-deriving or re-sealing gives.
pub open spec fn passphrase_change_fits(
    before: VaultMeta,
    after: VaultMeta,
    old_pass: Seq<char>,
    new_pass: Seq<char>,
    r: Result<(), VaultError>,
) -> bool {
    &&& r is Err ==> after == before
    &&& match vek_model(old_pass, before) {
        Err(e) => r matches Err(VaultError::Crypto(c)) && c@ == e,
        Ok(v) => match r {
            Ok(()) => seals_vek(after, new_pass, v) && fresh_params(after.kdf_params) && nonce_fits(after.encrypted_vek@)
                && vek_model(new_pass, after) == Ok::<Seq<u8>, CryptoErrorModel>(v) && after.keys == before.keys
                && after.version == before.version,
            Err(e) => e matches VaultError::Crypto(c) && rekey_failed(c@, new_pass, v),
        },
    }
}

/// Whether `meta` holds `vek` sealed under what `passphrase` derives.
pub open spec fn seals_vek(meta: VaultMeta, passphrase: Seq<char>, vek: Seq<u8>) -> bool {
    exists|k: Seq<u8>, n: Seq<u8>|
        n.len() == 12 && derive_key_model(passphrase, meta.kdf_params) == Ok::<Seq<u8>, CryptoErrorModel>(k)
            && #[trigger] encrypt_model(vek, k, n) == Ok::<BlobModel, CryptoErrorModel>(meta.encrypted_vek@)
}

pub open spec fn crypto_err(r: Result<VaultSession, VaultError>) -> Option<CryptoErrorModel> {
    match r {
        Err(VaultError::Crypto(e)) => Some(e@),
        _ => None,
    }
}

/// The index of the key with id `id`.
pub open spec fn key_index(keys: Seq<SshKeyItem>, id: Seq<char>) -> Option<int> {
    if exists|i: int| 0 <= i < keys.len() && (#[trigger] keys[i]).id@ == id {
        Some(choose|i: int| 0 <= i < keys.len() && (#[trigger] keys[i]).id@ == id && forall|j: int| 0 <= j < i ==> keys[j].id@ != id)
    } else {
        None
    }
}

/// Whether some key is named `name`.
pub open spec fn name_taken(keys: Seq<SshKeyItem>, name: Seq<char>) -> bool {
    exists|i: int| 0 <= i < keys.len() && (#[trigger] keys[i]).name@ == name
}

fn find_key(keys: &Vec<SshKeyItem>, id: &str) -> (r: Option<usize>)
    ensures
        match r {
            Some(i) => key_index(keys@, id@) == Some(i as int) && i < keys@.len(),
            None => key_index(keys@, id@) is None,
        },
{
    let k = id.to_string();
    let mut i: usize = 0;
    while i < keys.len()
        invariant
            i <= keys@.len(),
            k@ == id@,
            forall|j: int| 0 <= j < i ==> (#[trigger] keys@[j]).id@ != id@,
        decreases keys@.len() - i,
    {
        if keys[i].id == k {
            proof {
                let c = choose|c: int| 0 <= c < keys@.len() && (#[trigger] keys@[c]).id@ == id@ && forall|j: int| 0 <= j < c ==> keys@[j].id@ != id@;
                assert(keys@[i as int].id@ == id@);
                if c < i {
                } else if c > i {
                    assert(keys@[i as int].id@ != id@);
                }
            }
            return Some(i);
        }
        i = i + 1;
    }
    None
}

fn has_name(keys: &Vec<SshKeyItem>, name: &str, except: Option<&str>) -> (r: bool)
    ensures
        r == (exists|i: int|
            0 <= i < keys@.len() && (#[trigger] keys@[i]).name@ == name@ && (match except {
                Some(x) => keys@[i].id@ != x@,
                None => true,
            })),
{
    let n = name.to_string();
    let x: Option<String> = match except {
        Some(e) => Some(e.to_string()),
        None => None,
    };
    let mut i: usize = 0;
    while i < keys.len()
        invariant
            i <= keys@.len(),
            n@ == name@,
            match x {
                Some(s) => except matches Some(e) && s@ == e@,
                None => except is None,
            },
            forall|j: int|
                0 <= j < i ==> !((#[trigger] keys@[j]).name@ == name@ && (match except {
                    Some(e) => keys@[j].id@ != e@,
                    None => true,
                })),
        decreases keys@.len() - i,
    {
        let other = match &x {
            Some(s) => keys[i].id != *s,
            None => true,
        };
        if keys[i].name == n && other {
            return true;
        }
        i = i + 1;
    }
    false
}

fn key_blob_session(vek: [u8; 32]) -> (s: VaultSession)
    ensures
        s.key() == vek@,
{
    VaultSession { vek }
}

fn decrypt_vek(vmk: &[u8; 32], blob: &EncryptedBlob) -> (r: Result<[u8; 32], VaultError>)
    requires
        nonce_fits(blob@),
    ensures
        match r {
            Ok(v) => decrypt_model(blob@, vmk@) == Ok::<Seq<u8>, CryptoErrorModel>(v@),
            Err(VaultError::Crypto(e)) => match decrypt_model(blob@, vmk@) {
                Err(m) => e@ == m,
                Ok(v) => v.len() != 32 && e@ == CryptoErrorModel::DecryptionError(
                    "VEK has wrong length: "@ + decimal(v.len()) + " (expected 32)"@,
                ),
            },
            Err(_) => false,
        },
        forall|p: Seq<u8>, n: Seq<u8>|
            p.len() == 32 && n.len() == 12 && #[trigger] encrypt_model(p, vmk@, n) == Ok::<BlobModel, CryptoErrorModel>(blob@)
                ==> (r matches Ok(v) && v@ == p),
{
    let bytes = match decrypt(blob, vmk) {
        Ok(b) => b,
        Err(e) => return Err(VaultError::Crypto(e)),
    };
    if bytes.len() != 32 {
        let mut m = "VEK has wrong length: ".to_string();
        crate::text::push_decimal(&mut m, bytes.len() as u64);
        m.append(" (expected 32)");
        return Err(VaultError::Crypto(CryptoError::DecryptionError(m)));
    }
    let mut vek = [0u8; 32];
    let mut i: usize = 0;
    while i < 32
        invariant
            i <= 32,
            bytes@.len() == 32,
            forall|j: int| 0 <= j < i ==> vek@[j] == bytes@[j],
        decreases 32 - i,
    {
        vek.set(i, bytes[i]);
        i = i + 1;
    }
    assert(vek@ =~= bytes@);
    Ok(vek)
}

pub struct SshKeyVault;

impl SshKeyVault {
    /// A new vault: a random VEK sealed under the key `passphrase` derives with fresh
    /// KDF parameters, and no keys. Fails with `AlreadyInitialized` when metadata exists.
    #[verifier::spinoff_prover]
    pub fn init(passphrase: &str, existing: &Option<VaultMeta>) -> (r: Result<VaultMeta, VaultError>)
        ensures
            existing is Some <==> (r matches Err(VaultError::AlreadyInitialized)),
            existing is None ==> match r {
                Ok(m) => m.version == VAULT_VERSION && m.keys@.len() == 0 && fresh_params(m.kdf_params)
                    && nonce_fits(m.encrypted_vek@)
                    && exists|vek: Seq<u8>| vek.len() == 32 && #[trigger] seals_vek(m, passphrase@, vek)
                        && vek_model(passphrase@, m) == Ok::<Seq<u8>, CryptoErrorModel>(vek),
                Err(e) => e matches VaultError::Crypto(c) && exists|vek: Seq<u8>| vek.len() == 32 && #[trigger] rekey_failed(
                    c@,
                    passphrase@,
                    vek,
                ),
            },
    {
        if existing.is_some() {
            return Err(VaultError::AlreadyInitialized);
        }
        let vek = crate::crypto::os_random_32();
        let kdf_params = KdfParams::default();
        assert(fresh_params(kdf_params));
        let vmk = match derive_key(passphrase, &kdf_params) {
            Ok(k) => k,
            Err(e) => {
                assert(rekey_failed(e@, passphrase@, vek@));
                return Err(VaultError::Crypto(e));
            },
        };
        let encrypted_vek = match encrypt(&vek, vmk.as_bytes()) {
            Ok(b) => b,
            Err(e) => {
                proof {
                    let n = choose|n: Seq<u8>| n.len() == 12 && blob_result(Err::<EncryptedBlob, CryptoError>(e)) == #[trigger] encrypt_model(vek@, vmk.key(), n);
                    assert(encrypt_model(vek@, vmk.key(), n) == Err::<BlobModel, CryptoErrorModel>(e@));
                    assert(rekey_failed(e@, passphrase@, vek@));
                }
                return Err(VaultError::Crypto(e));
            },
        };
        let meta = VaultMeta { version: VAULT_VERSION, kdf_params, encrypted_vek, keys: Vec::new() };
        assert(seals_vek(meta, passphrase@, vek@));
        assert(derive_key_model(passphrase@, meta.kdf_params) == Ok::<Seq<u8>, CryptoErrorModel>(vmk.key()));
        assert(decrypt_model(meta.encrypted_vek@, vmk.key()) == Ok::<Seq<u8>, CryptoErrorModel>(vek@));
        assert(vek_model(passphrase@, meta) == Ok::<Seq<u8>, CryptoErrorModel>(vek@));
        Ok(meta)
    }

    /// Whether the vault exists: its metadata was found.
    pub fn is_initialized(meta: &Option<VaultMeta>) -> (r: bool)
        ensures
            r == meta is Some,
    {
        meta.is_some()
    }

    /// Unlocks: derives the master key from `passphrase` and opens the VEK. A vault
    /// that `init` or `change_passphrase` sealed under this passphrase opens to its VEK.
    pub fn unlock(passphrase: &str, meta: &VaultMeta) -> (r: Result<VaultSession, VaultError>)
        requires
            nonce_fits(meta.encrypted_vek@),
        ensures
            match r {
                Ok(s) => vek_model(passphrase@, *meta) == Ok::<Seq<u8>, CryptoErrorModel>(s.key()),
                Err(_) => crypto_err(r) matches Some(e) && vek_model(passphrase@, *meta) == Err::<Seq<u8>, CryptoErrorModel>(e),
            },
            forall|vek: Seq<u8>| vek.len() == 32 && #[trigger] seals_vek(*meta, passphrase@, vek) ==> (r matches Ok(s) && s.key() == vek),
    {
        let vmk = match derive_key(passphrase, &meta.kdf_params) {
            Ok(k) => k,
            Err(e) => return Err(VaultError::Crypto(e)),
        };
        match decrypt_vek(vmk.as_bytes(), &meta.encrypted_vek) {
            Ok(v) => Ok(key_blob_session(v)),
            Err(e) => Err(e),
        }
    }

    /// `unlock`, or `None` where the cipher would refuse the stored nonce.
    pub fn unlock_checked(passphrase: &str, meta: &VaultMeta) -> (r: Option<Result<VaultSession, VaultError>>)
        ensures
            r is None <==> !nonce_fits(meta.encrypted_vek@),
            r matches Some(x) ==> match x {
                Ok(s) => vek_model(passphrase@, *meta) == Ok::<Seq<u8>, CryptoErrorModel>(s.key()),
                Err(_) => crypto_err(x) matches Some(e) && vek_model(passphrase@, *meta) == Err::<Seq<u8>, CryptoErrorModel>(e),
            },
    {
        if crate::crypto::blob_nonce_fits(&meta.encrypted_vek) {
            Some(Self::unlock(passphrase, meta))
        } else {
            None
        }
    }
}

pub open spec fn opt_string_view(o: Option<String>) -> Option<Seq<char>> {
    match o {
        Some(s) => Some(s@),
        None => None,
    }
}

/// Whether the sealed key file `file` opens under `vek` to the private key `pem`,
/// with a nonce the cipher takes.
pub open spec fn opens_to(file: BlobModel, vek: Seq<u8>, pem: Seq<char>) -> bool {
    nonce_fits(file) && pem_model(file, vek) == Ok::<Seq<char>, Option<CryptoErrorModel>>(pem)
}

/// Whether `e` is the error of sealing `plaintext` under `vek` with some nonce.
pub open spec fn sealing_failed(e: VaultError, plaintext: Seq<u8>, vek: Seq<u8>) -> bool {
    e matches VaultError::Crypto(c) && exists|n: Seq<u8>| n.len() == 12 && #[trigger] encrypt_model(
        plaintext,
        vek,
        n,
    ) == Err::<BlobModel, CryptoErrorModel>(c@)
}

/// What importing a key whose PEM parses to `parsed` gives.
pub open spec fn import_outcome(
    parsed: Result<(u8, Seq<char>, Seq<char>, Seq<char>, Seq<char>), (bool, Seq<char>)>,
    name: Seq<char>,
    comment: Seq<char>,
    vek: Seq<u8>,
    before: Seq<KeyItemModel>,
    after: Seq<KeyItemModel>,
    r: Result<(SshKeyItem, EncryptedBlob), VaultError>,
) -> bool {
    match parsed {
        Err((false, e)) => r matches Err(VaultError::KeyParseError(m)) && m@ == e,
        Err((true, e)) => r matches Err(VaultError::KeyParseError(m)) && m@ == "decryption failed: "@ + e,
        Ok((tag, alg_text, fingerprint, public, pem)) => if tag > 1 {
            r matches Err(VaultError::KeyParseError(m)) && m@ == "unsupported algorithm: "@ + alg_text
        } else {
            &&& r matches Err(e) ==> sealing_failed(e, vstd::utf8::encode_utf8(pem), vek)
            &&& r matches Ok((item, file)) ==> {
                &&& pem_describes(pem, tag, fingerprint, public)
                &&& opens_to(file@, vek, pem)
                &&& after == before.push(item@)
                &&& item.name@ == name
                &&& item.algorithm == (if tag == 0 {
                    KeyAlgorithm::Ed25519
                } else {
                    KeyAlgorithm::Rsa4096
                })
                &&& item.fingerprint@ == fingerprint
                &&& item.public_key_openssh@ == public_line(public, comment)
                &&& item.state == KeyState::Active
                &&& item.allowed_hosts@.len() == 0
                &&& exists|n: Seq<u8>| n.len() == 12 && #[trigger] encrypt_model(
                    vstd::utf8::encode_utf8(pem),
                    vek,
                    n,
                ) == Ok::<BlobModel, CryptoErrorModel>(file@)
            }
        },
    }
}

pub open spec fn opt_string(o: Option<String>) -> Seq<char> {
    match o {
        Some(s) => s@,
        None => Seq::empty(),
    }
}

/// The public key line: the key, then the comment after a space if there is one.
pub open spec fn public_line(key: Seq<char>, comment: Seq<char>) -> Seq<char> {
    if comment.len() == 0 {
        key
    } else {
        key + " "@ + comment
    }
}

fn copy_item(item: &SshKeyItem) -> (r: SshKeyItem)
    ensures
        r@ == item@,
{
    let hosts = item.allowed_hosts.clone();
    assert(hosts@ =~= item.allowed_hosts@);
    assert(hosts@.map_values(|h: String| h@) =~= item.allowed_hosts@.map_values(|h: String| h@));
    SshKeyItem {
        id: item.id.clone(),
        name: item.name.clone(),
        algorithm: item.algorithm,
        fingerprint: item.fingerprint.clone(),
        public_key_openssh: item.public_key_openssh.clone(),
        state: item.state,
        export_policy: item.export_policy,
        comment: item.comment.clone(),
        allowed_hosts: hosts,
        created_at: item.created_at.clone(),
        updated_at: item.updated_at.clone(),
    }
}

fn public_key_line(key: &str, comment: &str) -> (r: String)
    ensures
        r@ == public_line(key@, comment@),
{
    let mut r = key.to_string();
    if !comment.is_empty() {
        r.append(" ");
        r.append(comment);
    }
    r
}

fn unwrap_comment(c: &Option<String>) -> (r: String)
    ensures
        r@ == opt_string(*c),
{
    match c {
        Some(s) => s.clone(),
        None => String::new(),
    }
}

fn policy_or_default(p: Option<ExportPolicy>) -> (r: ExportPolicy)
    ensures
        r == (match p {
            Some(x) => x,
            None => ExportPolicy { allow_private_export: true },
        }),
{
    match p {
        Some(x) => x,
        None => ExportPolicy::default(),
    }
}

fn prefixed_text(p: &str, e: &String) -> (r: String)
    ensures
        r@ == p@ + e@,
{
    let mut r = p.to_string();
    r.append(e.as_str());
    r
}

/// What decrypting a key file with the VEK and reading it as UTF-8 gives: the PEM
/// text, or the error.
/// Whether the key file is the sealing of `pem` under `vek` with the nonce `n`.
pub open spec fn file_seals_pem(file: Option<&EncryptedBlob>, pem: Seq<char>, vek: Seq<u8>, n: Seq<u8>) -> bool {
    match file {
        Some(b) => n.len() == 12 && encrypt_model(vstd::utf8::encode_utf8(pem), vek, n) == Ok::<BlobModel, CryptoErrorModel>(b@),
        None => false,
    }
}

/// Whether the key `id` exists and its policy allows exporting the private key.
pub open spec fn export_allowed(keys: Seq<SshKeyItem>, id: Seq<char>) -> bool {
    match key_index(keys, id) {
        Some(i) => keys[i].export_policy.allow_private_export,
        None => false,
    }
}

pub open spec fn pem_model(file: BlobModel, vek: Seq<u8>) -> Result<Seq<char>, Option<CryptoErrorModel>> {
    match decrypt_model(file, vek) {
        Err(e) => Err(Some(e)),
        Ok(b) => if vstd::utf8::valid_utf8(b) {
            Ok(vstd::utf8::decode_utf8(b))
        } else {
            Err(None)
        },
    }
}

/// What exporting the private key `id` gives: refused for an unknown key or one
/// whose policy forbids it, otherwise the PEM that its sealed file opens to.
pub open spec fn export_outcome(
    vek: Seq<u8>,
    keys: Seq<SshKeyItem>,
    id: Seq<char>,
    key_file: Option<&EncryptedBlob>,
    r: Result<String, VaultError>,
) -> bool {
    match key_index(keys, id) {
        None => r matches Err(VaultError::KeyNotFound(x)) && x@ == id,
        Some(i) => if !keys[i].export_policy.allow_private_export {
            r matches Err(VaultError::ExportDenied)
        } else {
            match key_file {
                None => r matches Err(VaultError::KeyNotFound(x)) && x@ == id,
                Some(b) => match pem_model(b@, vek) {
                    Ok(pem) => r matches Ok(s) && s@ == pem,
                    Err(Some(e)) => r matches Err(VaultError::Crypto(c)) && c@ == e,
                    Err(None) => r matches Err(VaultError::KeyParseError(_)),
                },
            }
        },
    }
}

/// Exporting a key whose sealed file opens to a PEM gives that PEM, so the exported
/// key is the key the item's recorded fingerprint describes (when the key was
/// recorded by `generate_key` or `import_key`, which state both facts).
pub proof fn lemma_export_gives_recorded_key(
    vek: Seq<u8>,
    keys: Seq<SshKeyItem>,
    id: Seq<char>,
    file: &EncryptedBlob,
    pem: Seq<char>,
    tag: u8,
    public: Seq<char>,
    r: Result<String, VaultError>,
)
    requires
        key_index(keys, id) matches Some(i) && keys[i].export_policy.allow_private_export
            && pem_describes(pem, tag, keys[i].fingerprint@, public),
        opens_to(file@, vek, pem),
        export_outcome(vek, keys, id, Some(file), r),
    ensures
        r matches Ok(s) && s@ == pem && pem_describes(s@, tag, keys[key_index(keys, id)->0].fingerprint@, public),
{
}

/// A key just recorded (its item appended to the keys) exports, by id, the public
/// key line it was recorded with, as long as no earlier key has the same id.
pub proof fn lemma_recorded_key_exports_public(before: Seq<SshKeyItem>, after: Seq<SshKeyItem>, item: SshKeyItem)
    requires
        keys_view(after) == keys_view(before).push(item@),
        forall|j: int| 0 <= j < before.len() ==> (#[trigger] before[j]).id@ != item.id@,
    ensures
        key_index(after, item.id@) == Some(before.len() as int),
        after[before.len() as int].public_key_openssh@ == item.public_key_openssh@,
{
    let n = before.len() as int;
    assert(keys_view(after).len() == after.len());
    assert(keys_view(before).len() == before.len());
    assert(after.len() == n + 1);
    assert(keys_view(after)[n] == after[n]@);
    assert forall|j: int| 0 <= j < n implies (#[trigger] after[j]).id@ != item.id@ by {
        assert(keys_view(after)[j] == after[j]@);
        assert(keys_view(before)[j] == before[j]@);
    }
    let k = choose|i: int| 0 <= i < after.len() && (#[trigger] after[i]).id@ == item.id@ && forall|j: int| 0 <= j < i ==> after[j].id@ != item.id@;
    assert(after[n].id@ == item.id@);
    if key_index(after, item.id@) is Some {
        if k < n {
            assert(after[k].id@ != item.id@);
        } else if k > n {
            assert(after[n].id@ != item.id@);
        }
    }
}

/// The signature that the private key sealed in `file` makes over `data`, when the
/// file opens under `vek` to a key that signs.
pub open spec fn signed(vek: Seq<u8>, file: BlobModel, data: Seq<u8>) -> Option<Seq<u8>> {
    match pem_model(file, vek) {
        Ok(pem) => match pem_signature(pem, data) {
            Ok(sig) => Some(sig),
            Err(_) => None,
        },
        Err(_) => None,
    }
}

/// Seals a private key under the VEK and records its metadata as a new active key.
fn record_key(
    session: &VaultSession,
    meta: &mut VaultMeta,
    name: String,
    algorithm: KeyAlgorithm,
    fingerprint: String,
    public_openssh: &str,
    comment: String,
    export_policy: ExportPolicy,
    allowed_hosts: Vec<String>,
    private_pem: &str,
) -> (r: Result<(SshKeyItem, EncryptedBlob), VaultError>)
    ensures
        r is Err ==> *final(meta) == *old(meta),
        r matches Err(e) ==> sealing_failed(e, vstd::utf8::encode_utf8(private_pem@), session.key()),
        r matches Ok((item, file)) ==> {
            &&& keys_view(final(meta).keys@) == keys_view(old(meta).keys@).push(item@)
            &&& final(meta).version == old(meta).version && final(meta).kdf_params == old(meta).kdf_params
            &&& final(meta).encrypted_vek == old(meta).encrypted_vek
            &&& item.name@ == name@ && item.algorithm == algorithm && item.fingerprint@ == fingerprint@
            &&& item.public_key_openssh@ == public_line(public_openssh@, comment@)
            &&& item.state == KeyState::Active && item.export_policy == export_policy
            &&& item.comment@ == comment@ && item.allowed_hosts@ == allowed_hosts@
            &&& item.created_at@ == item.updated_at@
            &&& exists|n: Seq<u8>| n.len() == 12 && #[trigger] encrypt_model(
                vstd::utf8::encode_utf8(private_pem@),
                session.key(),
                n,
            ) == Ok::<BlobModel, CryptoErrorModel>(file@)
            &&& opens_to(file@, session.key(), private_pem@)
        },
{
    broadcast use {vstd::utf8::encode_utf8_valid_utf8, vstd::utf8::encode_utf8_decode_utf8};
    let public_key_openssh = public_key_line(public_openssh, comment.as_str());
    let pem_bytes = private_pem.as_bytes();
    assert(pem_bytes@ == vstd::utf8::encode_utf8(private_pem@));
    let encrypted = match encrypt(pem_bytes, &session.vek) {
        Ok(b) => b,
        Err(e) => return Err(VaultError::Crypto(e)),
    };
    proof {
        let n = choose|n: Seq<u8>| n.len() == 12 && #[trigger] encrypt_model(pem_bytes@, session.vek@, n) == Ok::<BlobModel, CryptoErrorModel>(encrypted@);
        assert(encrypt_model(vstd::utf8::encode_utf8(private_pem@), session.key(), n) == Ok::<BlobModel, CryptoErrorModel>(encrypted@));
    }
    let now = utc_now();
    let item = SshKeyItem {
        id: fresh_key_id(),
        name,
        algorithm,
        fingerprint,
        public_key_openssh,
        state: KeyState::Active,
        export_policy,
        comment,
        allowed_hosts,
        created_at: now.clone(),
        updated_at: now,
    };
    let stored = copy_item(&item);
    let ghost before = meta.keys@;
    meta.keys.push(stored);
    assert(keys_view(meta.keys@) =~= keys_view(before).push(item@));
    Ok((item, encrypted))
}

impl SshKeyVault {
    /// Re-seals the VEK under a new passphrase (with fresh KDF parameters); the
    /// keys are unchanged. Nothing changes on failure.
    pub fn change_passphrase(old_passphrase: &str, new_passphrase: &str, meta: &mut VaultMeta) -> (r: Result<(), VaultError>)
        requires
            nonce_fits(old(meta).encrypted_vek@),
        ensures
            passphrase_change_fits(*old(meta), *final(meta), old_passphrase@, new_passphrase@, r),
    {
        let old_vmk = match derive_key(old_passphrase, &meta.kdf_params) {
            Ok(k) => k,
            Err(e) => return Err(VaultError::Crypto(e)),
        };
        let vek = match decrypt_vek(old_vmk.as_bytes(), &meta.encrypted_vek) {
            Ok(v) => v,
            Err(e) => return Err(e),
        };
        let new_kdf_params = KdfParams::default();
        assert(fresh_params(new_kdf_params));
        let new_vmk = match derive_key(new_passphrase, &new_kdf_params) {
            Ok(k) => k,
            Err(e) => {
                assert(rekey_failed(e@, new_passphrase@, vek@));
                return Err(VaultError::Crypto(e));
            },
        };
        let new_encrypted_vek = match encrypt(&vek, new_vmk.as_bytes()) {
            Ok(b) => b,
            Err(e) => {
                proof {
                    let n = choose|n: Seq<u8>| n.len() == 12 && blob_result(Err::<EncryptedBlob, CryptoError>(e)) == #[trigger] encrypt_model(vek@, new_vmk.key(), n);
                    assert(derive_key_model(new_passphrase@, new_kdf_params) == Ok::<Seq<u8>, CryptoErrorModel>(new_vmk.key()));
                    assert(encrypt_model(vek@, new_vmk.key(), n) == Err::<BlobModel, CryptoErrorModel>(e@));
                    assert(rekey_failed(e@, new_passphrase@, vek@));
                }
                return Err(VaultError::Crypto(e));
            },
        };
        meta.kdf_params = new_kdf_params;
        meta.encrypted_vek = new_encrypted_vek;
        assert(seals_vek(*meta, new_passphrase@, vek@));
        Ok(())
    }

    /// `change_passphrase`, or `None` (nothing changed) where the cipher would refuse
    /// the stored nonce.
    pub fn change_passphrase_checked(old_passphrase: &str, new_passphrase: &str, meta: &mut VaultMeta) -> (r: Option<Result<(), VaultError>>)
        ensures
            r is None <==> !nonce_fits(old(meta).encrypted_vek@),
            r is None ==> *final(meta) == *old(meta),
            r matches Some(Err(_)) ==> *final(meta) == *old(meta),
            r matches Some(x) ==> passphrase_change_fits(*old(meta), *final(meta), old_passphrase@, new_passphrase@, x),
    {
        if crate::crypto::blob_nonce_fits(&meta.encrypted_vek) {
            Some(Self::change_passphrase(old_passphrase, new_passphrase, meta))
        } else {
            None
        }
    }

    /// Generates a key pair, seals its private key under the VEK and records it.
    /// Returns the new key and its sealed key file. Refused when the name is taken.
    pub fn generate_key(session: &VaultSession, input: GenerateKeyInput, meta: &mut VaultMeta) -> (r: Result<(SshKeyItem, EncryptedBlob), VaultError>)
        ensures
            name_taken(old(meta).keys@, input.name@) ==> (r matches Err(VaultError::DuplicateKeyName(n)) && n@ == input.name@),
            r matches Err(VaultError::DuplicateKeyName(_)) ==> name_taken(old(meta).keys@, input.name@),
            r matches Err(e) ==> (e is DuplicateKeyName || e is KeyGenError || e is Crypto),
            r matches Err(VaultError::Crypto(c)) ==> exists|pem: Seq<char>| #[trigger] sealing_failed(
                VaultError::Crypto(c),
                vstd::utf8::encode_utf8(pem),
                session.key(),
            ),
            r is Err ==> *final(meta) == *old(meta),
            r matches Ok((item, file)) ==> {
                &&& !name_taken(old(meta).keys@, input.name@)
                &&& exists|pem: Seq<char>, public: Seq<char>, n: Seq<u8>|
                    #[trigger] pem_describes(pem, algorithm_tag(input.algorithm), item.fingerprint@, public)
                    && item.public_key_openssh@ == public_line(public, opt_string(input.comment))
                    && n.len() == 12 && #[trigger] encrypt_model(vstd::utf8::encode_utf8(pem), session.key(), n)
                    == Ok::<BlobModel, CryptoErrorModel>(file@) && opens_to(file@, session.key(), pem)
                &&& keys_view(final(meta).keys@) == keys_view(old(meta).keys@).push(item@)
                &&& final(meta).version == old(meta).version && final(meta).kdf_params == old(meta).kdf_params
                &&& item.name@ == input.name@ && item.algorithm == input.algorithm
                &&& item.state == KeyState::Active
                &&& item.comment@ == opt_string(input.comment)
                &&& item.export_policy == (match input.export_policy {
                    Some(x) => x,
                    None => ExportPolicy { allow_private_export: true },
                })
                &&& item.allowed_hosts@ == input.allowed_hosts@
                &&& item.created_at@ == item.updated_at@
                &&& exists|pem: Seq<char>, n: Seq<u8>| n.len() == 12 && #[trigger] encrypt_model(
                    vstd::utf8::encode_utf8(pem),
                    session.key(),
                    n,
                ) == Ok::<BlobModel, CryptoErrorModel>(file@)
            },
    {
        if has_name(&meta.keys, input.name.as_str(), None) {
            return Err(VaultError::DuplicateKeyName(input.name));
        }
        let material = match generate_key_material(input.algorithm) {
            Ok(m) => m,
            Err(e) => return Err(VaultError::KeyGenError(e)),
        };
        let comment = unwrap_comment(&input.comment);
        let ghost mv = material_view(material);
        let ghost alg = input.algorithm;
        let res = record_key(
            session,
            meta,
            input.name,
            input.algorithm,
            material.fingerprint,
            material.public_openssh.as_str(),
            comment,
            policy_or_default(input.export_policy),
            input.allowed_hosts,
            material.private_pem.as_str(),
        );
        proof {
            if res is Ok {
                assert(pem_describes(mv.4, algorithm_tag(alg), mv.2, mv.3));
            } else {
                assert(sealing_failed(res->Err_0, vstd::utf8::encode_utf8(mv.4), session.key()));
            }
        }
        res
    }

    /// Imports an OpenSSH private key (decrypting it with the source passphrase,
    /// if given), seals it under the VEK and records it. Only Ed25519 and RSA keys
    /// are accepted.
    #[verifier::spinoff_prover]
    #[verifier::rlimit(60)]
    pub fn import_key(session: &VaultSession, input: ImportKeyInput, meta: &mut VaultMeta) -> (r: Result<(SshKeyItem, EncryptedBlob), VaultError>)
        ensures
            name_taken(old(meta).keys@, input.name@) ==> (r matches Err(VaultError::DuplicateKeyName(n)) && n@ == input.name@),
            r is Err ==> *final(meta) == *old(meta),
            final(meta).version == old(meta).version && final(meta).kdf_params == old(meta).kdf_params
                && final(meta).encrypted_vek == old(meta).encrypted_vek,
            !name_taken(old(meta).keys@, input.name@) ==> import_outcome(
                parsed_key(input.private_key_pem@, opt_string_view(input.source_passphrase)),
                input.name@,
                opt_string(input.comment),
                session.key(),
                keys_view(old(meta).keys@),
                keys_view(final(meta).keys@),
                r,
            ),
    {
        if has_name(&meta.keys, input.name.as_str(), None) {
            return Err(VaultError::DuplicateKeyName(input.name));
        }
        let pass: Option<&str> = match &input.source_passphrase {
            Some(p) => Some(p.as_str()),
            None => None,
        };
        assert(opt_text(pass) == opt_string_view(input.source_passphrase));
        let material = match parse_key_material(input.private_key_pem.as_str(), pass) {
            Ok(m) => m,
            Err((false, e)) => return Err(VaultError::KeyParseError(e)),
            Err((true, e)) => return Err(VaultError::KeyParseError(prefixed_text("decryption failed: ", &e))),
        };
        let ghost mv = material_view(material);
        let ghost spec_pass = opt_string_view(input.source_passphrase);
        assert(parsed_key(input.private_key_pem@, spec_pass) == Ok::<(u8, Seq<char>, Seq<char>, Seq<char>, Seq<char>), (bool, Seq<char>)>(mv));
        let algorithm = if material.algorithm_tag == 0 {
            KeyAlgorithm::Ed25519
        } else if material.algorithm_tag == 1 {
            KeyAlgorithm::Rsa4096
        } else {
            return Err(VaultError::KeyParseError(prefixed_text("unsupported algorithm: ", &material.algorithm_text)));
        };
        let comment = unwrap_comment(&input.comment);
        let res = record_key(
            session,
            meta,
            input.name,
            algorithm,
            material.fingerprint,
            material.public_openssh.as_str(),
            comment,
            policy_or_default(input.export_policy),
            Vec::new(),
            material.private_pem.as_str(),
        );
        proof {
            if res is Ok {
                let file = res->Ok_0.1;
                let n = choose|n: Seq<u8>|
                    n.len() == 12 && #[trigger] encrypt_model(vstd::utf8::encode_utf8(mv.4), session.key(), n)
                        == Ok::<BlobModel, CryptoErrorModel>(file@);
                assert(encrypt_model(vstd::utf8::encode_utf8(mv.4), session.key(), n) == Ok::<BlobModel, CryptoErrorModel>(file@));
                let item = res->Ok_0.0;
                assert(keys_view(meta.keys@) == keys_view(old(meta).keys@).push(item@));
                assert(item.name@ == input.name@);
                assert(item.algorithm == (if mv.0 == 0 { KeyAlgorithm::Ed25519 } else { KeyAlgorithm::Rsa4096 }));
                assert(item.fingerprint@ == mv.2);
                assert(item.public_key_openssh@ == public_line(mv.3, opt_string(input.comment)));
                assert(item.state == KeyState::Active);
                assert(item.allowed_hosts@.len() == 0);
            }
        }
        res
    }

    /// Summaries of all keys, in order.
    pub fn list_keys(meta: &VaultMeta) -> (r: Vec<SshKeyItemSummary>)
        ensures
            r@.len() == meta.keys@.len(),
            forall|i: int|
                0 <= i < r@.len() ==> (#[trigger] r@[i]).id@ == meta.keys@[i].id@ && r@[i].name@
                    == meta.keys@[i].name@ && r@[i].algorithm == meta.keys@[i].algorithm
                    && r@[i].fingerprint@ == meta.keys@[i].fingerprint@ && r@[i].state
                    == meta.keys@[i].state && r@[i].created_at@ == meta.keys@[i].created_at@,
    {
        let mut r: Vec<SshKeyItemSummary> = Vec::new();
        let mut i: usize = 0;
        while i < meta.keys.len()
            invariant
                i <= meta.keys@.len(),
                r@.len() == i,
                forall|j: int|
                    0 <= j < i ==> (#[trigger] r@[j]).id@ == meta.keys@[j].id@ && r@[j].name@
                        == meta.keys@[j].name@ && r@[j].algorithm == meta.keys@[j].algorithm
                        && r@[j].fingerprint@ == meta.keys@[j].fingerprint@ && r@[j].state
                        == meta.keys@[j].state && r@[j].created_at@ == meta.keys@[j].created_at@,
            decreases meta.keys@.len() - i,
        {
            r.push(SshKeyItemSummary::from_item(&meta.keys[i]));
            i = i + 1;
        }
        r
    }

    /// The metadata of the key with id `id`.
    pub fn get_key(meta: &VaultMeta, id: &str) -> (r: Result<SshKeyItem, VaultError>)
        ensures
            match key_index(meta.keys@, id@) {
                Some(i) => r matches Ok(k) && k@ == meta.keys@[i]@,
                None => r matches Err(VaultError::KeyNotFound(x)) && x@ == id@,
            },
    {
        match find_key(&meta.keys, id) {
            Some(i) => Ok(copy_item(&meta.keys[i])),
            None => Err(VaultError::KeyNotFound(id.to_string())),
        }
    }

    /// Updates a key's name, comment, export policy or allowed hosts (those given).
    /// Refused when another key has the new name, or no key has the id.
    pub fn update_key(meta: &mut VaultMeta, id: &str, input: UpdateKeyInput) -> (r: Result<SshKeyItem, VaultError>)
        ensures
            r is Err ==> *final(meta) == *old(meta),
            (input.name matches Some(n) && exists|i: int|
                0 <= i < old(meta).keys@.len() && (#[trigger] old(meta).keys@[i]).id@ != id@
                    && old(meta).keys@[i].name@ == n@) ==> (r matches Err(VaultError::DuplicateKeyName(x)) && input.name matches Some(n) && x@ == n@),
            key_index(old(meta).keys@, id@) is None ==> r is Err,
            r matches Ok(k) ==> (key_index(old(meta).keys@, id@) matches Some(i) && {
                let o = old(meta).keys@[i];
                &&& keys_view(final(meta).keys@) == keys_view(old(meta).keys@).update(i, k@)
                &&& k.id@ == o.id@ && k.algorithm == o.algorithm && k.fingerprint@ == o.fingerprint@
                &&& k.public_key_openssh@ == o.public_key_openssh@ && k.state == o.state
                &&& k.created_at@ == o.created_at@
                &&& k.name@ == (match input.name {
                    Some(n) => n@,
                    None => o.name@,
                })
                &&& k.comment@ == (match input.comment {
                    Some(c) => c@,
                    None => o.comment@,
                })
                &&& k.export_policy == (match input.export_policy {
                    Some(p) => p,
                    None => o.export_policy,
                })
                &&& k@.allowed_hosts == (match input.allowed_hosts {
                    Some(h) => h@.map_values(|x: String| x@),
                    None => o@.allowed_hosts,
                })
            }),
    {
        match &input.name {
            Some(n) => {
                if has_name(&meta.keys, n.as_str(), Some(id)) {
                    return Err(VaultError::DuplicateKeyName(n.clone()));
                }
            },
            None => {},
        }
        let i = match find_key(&meta.keys, id) {
            Some(i) => i,
            None => return Err(VaultError::KeyNotFound(id.to_string())),
        };
        let mut k = copy_item(&meta.keys[i]);
        match input.name {
            Some(n) => {
                k.name = n;
            },
            None => {},
        }
        match input.comment {
            Some(c) => {
                k.comment = c;
            },
            None => {},
        }
        match input.export_policy {
            Some(p) => {
                k.export_policy = p;
            },
            None => {},
        }
        match input.allowed_hosts {
            Some(h) => {
                k.allowed_hosts = h;
            },
            None => {},
        }
        k.updated_at = utc_now();
        let stored = copy_item(&k);
        let ghost before = meta.keys@;
        meta.keys.set(i, stored);
        assert(keys_view(meta.keys@) =~= keys_view(before).update(i as int, k@));
        Ok(k)
    }

    /// Removes a key from the metadata (the caller deletes its key file).
    pub fn delete_key(_session: &VaultSession, meta: &mut VaultMeta, id: &str) -> (r: Result<(), VaultError>)
        ensures
            match key_index(old(meta).keys@, id@) {
                Some(i) => r is Ok && final(meta).keys@ == old(meta).keys@.remove(i)
                    && final(meta).kdf_params == old(meta).kdf_params,
                None => (r matches Err(VaultError::KeyNotFound(x)) && x@ == id@) && *final(meta) == *old(meta),
            },
    {
        match find_key(&meta.keys, id) {
            Some(i) => {
                meta.keys.remove(i);
                Ok(())
            },
            None => Err(VaultError::KeyNotFound(id.to_string())),
        }
    }

    /// Marks a key archived.
    pub fn archive_key(meta: &mut VaultMeta, id: &str) -> (r: Result<(), VaultError>)
        ensures
            match key_index(old(meta).keys@, id@) {
                Some(i) => r is Ok && final(meta).keys@.len() == old(meta).keys@.len() && (forall|j: int|
                    0 <= j < old(meta).keys@.len() && j != i ==> final(meta).keys@[j] == old(meta).keys@[j])
                    && final(meta).keys@[i].state == KeyState::Archived && final(meta).keys@[i].id@
                    == old(meta).keys@[i].id@ && final(meta).keys@[i].name@ == old(meta).keys@[i].name@,
                None => (r matches Err(VaultError::KeyNotFound(x)) && x@ == id@) && *final(meta) == *old(meta),
            },
    {
        match find_key(&meta.keys, id) {
            Some(i) => {
                let mut k = copy_item(&meta.keys[i]);
                k.state = KeyState::Archived;
                k.updated_at = utc_now();
                meta.keys.set(i, k);
                Ok(())
            },
            None => Err(VaultError::KeyNotFound(id.to_string())),
        }
    }

    /// The OpenSSH public key line of a key.
    pub fn export_public_key(meta: &VaultMeta, id: &str) -> (r: Result<String, VaultError>)
        ensures
            match key_index(meta.keys@, id@) {
                Some(i) => r matches Ok(s) && s@ == meta.keys@[i].public_key_openssh@,
                None => r matches Err(VaultError::KeyNotFound(x)) && x@ == id@,
            },
    {
        match find_key(&meta.keys, id) {
            Some(i) => Ok(meta.keys[i].public_key_openssh.clone()),
            None => Err(VaultError::KeyNotFound(id.to_string())),
        }
    }

    /// The private key PEM of a key, opened from its key file (`None` when the file
    /// is missing). Refused when the key's export policy forbids it.
    pub fn export_private_key(session: &VaultSession, meta: &VaultMeta, id: &str, key_file: Option<&EncryptedBlob>) -> (r: Result<String, VaultError>)
        requires
            key_file matches Some(b) ==> nonce_fits(b@),
        ensures
            export_outcome(session.key(), meta.keys@, id@, key_file, r),
            forall|pem: Seq<char>, n: Seq<u8>|
                #[trigger] file_seals_pem(key_file, pem, session.key(), n) && export_allowed(meta.keys@, id@)
                    ==> (r matches Ok(s) && s@ == pem),
    {
        broadcast use {vstd::utf8::encode_utf8_valid_utf8, vstd::utf8::encode_utf8_decode_utf8};
        let i = match find_key(&meta.keys, id) {
            Some(i) => i,
            None => return Err(VaultError::KeyNotFound(id.to_string())),
        };
        if !meta.keys[i].export_policy.allow_private_export {
            return Err(VaultError::ExportDenied);
        }
        let file = match key_file {
            Some(b) => b,
            None => return Err(VaultError::KeyNotFound(id.to_string())),
        };
        let bytes = match decrypt(file, &session.vek) {
            Ok(b) => b,
            Err(e) => return Err(VaultError::Crypto(e)),
        };
        match crate::protocol::string_from_utf8(bytes) {
            Ok(s) => Ok(s),
            Err(e) => Err(VaultError::KeyParseError(prefixed_text("private key is not valid UTF-8: ", &e))),
        }
    }

    /// Signs `data` with a key, opened from its key file (`None` when it is missing).
    pub fn sign(session: &VaultSession, id: &str, data: &[u8], key_file: Option<&EncryptedBlob>) -> (r: Result<Vec<u8>, VaultError>)
        requires
            key_file matches Some(b) ==> nonce_fits(b@),
        ensures
            match key_file {
                None => r matches Err(VaultError::KeyNotFound(x)) && x@ == id@,
                Some(b) => match pem_model(b@, session.key()) {
                    Err(Some(e)) => r matches Err(VaultError::Crypto(c)) && c@ == e,
                    Err(None) => r matches Err(VaultError::KeyParseError(_)),
                    Ok(pem) => match pem_signature(pem, data@) {
                        Ok(sig) => r matches Ok(v) && v@ == sig,
                        Err((false, e)) => r matches Err(VaultError::KeyParseError(m)) && m@ == e,
                        Err((true, e)) => r matches Err(VaultError::KeyGenError(m)) && m@ == "signing failed: "@ + e,
                    },
                },
            },
    {
        let file = match key_file {
            Some(b) => b,
            None => return Err(VaultError::KeyNotFound(id.to_string())),
        };
        let bytes = match decrypt(file, &session.vek) {
            Ok(b) => b,
            Err(e) => return Err(VaultError::Crypto(e)),
        };
        let pem = match crate::protocol::string_from_utf8(bytes) {
            Ok(s) => s,
            Err(e) => return Err(VaultError::KeyParseError(e)),
        };
        match sign_with_pem(pem.as_str(), data) {
            Ok(v) => Ok(v),
            Err((false, e)) => Err(VaultError::KeyParseError(e)),
            Err((true, e)) => Err(VaultError::KeyGenError(prefixed_text("signing failed: ", &e))),
        }
    }

    /// `sign`, or `None` where the cipher would refuse the key file's nonce.
    pub fn sign_checked(session: &VaultSession, id: &str, data: &[u8], key_file: Option<&EncryptedBlob>) -> (r: Option<Result<Vec<u8>, VaultError>>)
        ensures
            r is None <==> (key_file matches Some(b) && !nonce_fits(b@)),
            match key_file {
                None => r matches Some(Err(VaultError::KeyNotFound(x))) && x@ == id@,
                Some(b) => nonce_fits(b@) ==> (r matches Some(x) && match signed(session.key(), b@, data@) {
                    Some(sig) => x matches Ok(v) && v@ == sig,
                    None => x is Err,
                }),
            },
    {
        match key_file {
            Some(b) => if crate::crypto::blob_nonce_fits(b) {
                Some(Self::sign(session, id, data, key_file))
            } else {
                None
            },
            None => Some(Self::sign(session, id, data, key_file)),
        }
    }

    /// `export_private_key`, or `None` where the cipher would refuse the key file's nonce.
    pub fn export_private_key_checked(session: &VaultSession, meta: &VaultMeta, id: &str, key_file: Option<&EncryptedBlob>) -> (r: Option<Result<String, VaultError>>)
        ensures
            r is None <==> (key_file matches Some(b) && !nonce_fits(b@)),
            r matches Some(x) ==> export_outcome(session.key(), meta.keys@, id@, key_file, x),
    {
        match key_file {
            Some(b) => if crate::crypto::blob_nonce_fits(b) {
                Some(Self::export_private_key(session, meta, id, key_file))
            } else {
                None
            },
            None => Some(Self::export_private_key(session, meta, id, key_file)),
        }
    }
}

} // verus!
